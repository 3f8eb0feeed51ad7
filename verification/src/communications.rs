//! The event wire format: per-case and final submission updates rendered as
//! JSON text, ready to publish. The library frames the bytes; sending them
//! is I/O and happens outside it.

use vstd::prelude::*;

use crate::judge::{cases_views, JudgeOutput, TestcaseOutput, TestcaseOutputView};
use crate::text::{
    chars_to_string, digit_char, push_all, render_millis, render_u64, spec_render_millis,
    nat_digits, str_to_chars,
};

verus! {

/// The event kind of a per-case update.
pub const EVENT_TESTCASE: &'static str = "testcase";

/// The event kind of a final submission update.
pub const EVENT_SUBMISSION: &'static str = "submission";

/// One update to publish: its kind and the record it reports.
pub struct UpdateEvent<'a, T> {
    pub event_type: String,
    pub event: &'a T,
}

/// The lowercase hexadecimal digit of a value below sixteen.
pub open spec fn hex_char(d: int) -> char {
    if d < 10 {
        digit_char(d)
    } else if d == 10 {
        'a'
    } else if d == 11 {
        'b'
    } else if d == 12 {
        'c'
    } else if d == 13 {
        'd'
    } else if d == 14 {
        'e'
    } else {
        'f'
    }
}

/// How one character appears inside a JSON string literal: quotes and
/// backslashes are escaped, the common control characters get their short
/// escapes, the other control characters a four-digit escape, and everything
/// else stands as it is.
pub open spec fn spec_json_escape_char(c: char) -> Seq<char> {
    if c == '"' {
        seq!['\\', '"']
    } else if c == '\\' {
        seq!['\\', '\\']
    } else if c == '\n' {
        seq!['\\', 'n']
    } else if c == '\r' {
        seq!['\\', 'r']
    } else if c == '\t' {
        seq!['\\', 't']
    } else if c == '\u{8}' {
        seq!['\\', 'b']
    } else if c == '\u{c}' {
        seq!['\\', 'f']
    } else if (c as u32) < 32 {
        seq!['\\', 'u', '0', '0', hex_char((c as u32) as int / 16), hex_char((c as u32) as int % 16)]
    } else {
        seq![c]
    }
}

/// A string's characters, each escaped for JSON.
pub open spec fn spec_json_escaped(s: Seq<char>) -> Seq<char>
    decreases s.len(),
{
    if s.len() == 0 {
        Seq::<char>::empty()
    } else {
        spec_json_escape_char(s[0]) + spec_json_escaped(s.skip(1))
    }
}

/// A JSON string literal: the escaped characters between quotes.
pub open spec fn spec_json_string(s: Seq<char>) -> Seq<char> {
    seq!['"'] + spec_json_escaped(s) + seq!['"']
}

/// Append one JSON-escaped character.
fn push_json_escape_char(out: &mut Vec<char>, c: char)
    ensures
        final(out)@ == old(out)@ + spec_json_escape_char(c),
{
    let ghost start = out@;
    if c == '"' {
        out.push('\\');
        out.push('"');
    } else if c == '\\' {
        out.push('\\');
        out.push('\\');
    } else if c == '\n' {
        out.push('\\');
        out.push('n');
    } else if c == '\r' {
        out.push('\\');
        out.push('r');
    } else if c == '\t' {
        out.push('\\');
        out.push('t');
    } else if c == '\u{8}' {
        out.push('\\');
        out.push('b');
    } else if c == '\u{c}' {
        out.push('\\');
        out.push('f');
    } else if (c as u32) < 32 {
        out.push('\\');
        out.push('u');
        out.push('0');
        out.push('0');
        let hi: u32 = (c as u32) / 16;
        let lo: u32 = (c as u32) % 16;
        out.push(hex_to_char(hi));
        out.push(hex_to_char(lo));
    } else {
        out.push(c);
    }
    proof {
        assert(out@ =~= start + spec_json_escape_char(c));
    }
}

/// Build the lowercase hexadecimal digit of a value below sixteen.
fn hex_to_char(d: u32) -> (r: char)
    requires
        d < 16,
    ensures
        r == hex_char(d as int),
{
    match d {
        0 => '0',
        1 => '1',
        2 => '2',
        3 => '3',
        4 => '4',
        5 => '5',
        6 => '6',
        7 => '7',
        8 => '8',
        9 => '9',
        10 => 'a',
        11 => 'b',
        12 => 'c',
        13 => 'd',
        14 => 'e',
        _ => 'f',
    }
}

/// Append a JSON string literal holding the given text.
fn push_json_string(out: &mut Vec<char>, s: &str)
    ensures
        final(out)@ == old(out)@ + spec_json_string(s@),
{
    let chars = str_to_chars(s);
    out.push('"');
    let n = chars.len();
    let mut i: usize = 0;
    while i < n
        invariant
            0 <= i <= n,
            n == s@.len(),
            chars@ == s@,
            out@ == old(out)@ + seq!['"'] + spec_json_escaped(s@.take(i as int)),
        decreases n - i,
    {
        proof {
            let t = s@.take(i + 1);
            assert(spec_json_escaped(s@.take(i as int)).len() >= 0);
            lemma_json_escaped_snoc(s@, i as int);
        }
        push_json_escape_char(out, chars[i]);
        i = i + 1;
    }
    proof {
        assert(s@.take(n as int) =~= s@);
    }
    out.push('"');
    proof {
        assert(out@ =~= old(out)@ + spec_json_string(s@));
    }
}

/// Escaping one more character appends its escape.
proof fn lemma_json_escaped_snoc(s: Seq<char>, i: int)
    requires
        0 <= i < s.len(),
    ensures
        spec_json_escaped(s.take(i + 1)) == spec_json_escaped(s.take(i)) + spec_json_escape_char(
            s[i],
        ),
    decreases i,
{
    let a = s.take(i + 1);
    let b = s.take(i);
    if i == 0 {
        assert(a[0] == s[0]);
        assert(a.skip(1) =~= Seq::<char>::empty());
        assert(b =~= Seq::<char>::empty());
        assert(spec_json_escaped(Seq::<char>::empty()) == Seq::<char>::empty());
        assert(spec_json_escaped(a) =~= spec_json_escape_char(s[0]) + Seq::<char>::empty());
        assert(spec_json_escape_char(s[0]) + Seq::<char>::empty() =~= spec_json_escape_char(s[0]));
        assert(spec_json_escaped(b) + spec_json_escape_char(s[0]) =~= spec_json_escape_char(s[0]));
    } else {
        let t = s.skip(1);
        lemma_json_escaped_snoc(t, i - 1);
        assert(a[0] == s[0]);
        assert(a.skip(1) =~= t.take(i));
        assert(b[0] == s[0]);
        assert(b.skip(1) =~= t.take(i - 1));
        assert(t[i - 1] == s[i]);
        assert(spec_json_escape_char(s[0]) + (spec_json_escaped(t.take(i - 1))
            + spec_json_escape_char(s[i])) =~= (spec_json_escape_char(s[0]) + spec_json_escaped(
            t.take(i - 1),
        )) + spec_json_escape_char(s[i]));
    }
}

/// The JSON form of one case record: its verdict code, its time in seconds,
/// its memory in KiB, and the two captured texts, in the record's field
/// order.
pub open spec fn spec_testcase_json(t: TestcaseOutputView) -> Seq<char> {
    "{\"verdict\":"@ + spec_json_string(t.verdict.spec_code()) + ",\"time\":"@
        + spec_render_millis(t.time as int) + ",\"memory\":"@ + nat_digits(t.memory as int)
        + ",\"checker_output\":"@ + spec_json_string(t.checker_output) + ",\"sandbox_output\":"@
        + spec_json_string(t.sandbox_output) + "}"@
}

/// Append the JSON form of one case record.
#[verifier::rlimit(100)]
fn push_testcase_json(out: &mut Vec<char>, t: &TestcaseOutput)
    ensures
        final(out)@ == old(out)@ + spec_testcase_json(t@),
{
    let ghost o = old(out)@;
    let ghost mut acc: Seq<char> = "{\"verdict\":"@;
    let head = str_to_chars("{\"verdict\":");
    push_all(out, head.as_slice());
    assert(out@ == o + acc);
    let code = t.verdict.code();
    push_json_string(out, code.as_str());
    proof {
        assert((o + acc) + spec_json_string(t@.verdict.spec_code()) =~= o + (acc + spec_json_string(
            t@.verdict.spec_code(),
        )));
        acc = acc + spec_json_string(t@.verdict.spec_code());
    }
    let time_key = str_to_chars(",\"time\":");
    push_all(out, time_key.as_slice());
    proof {
        assert((o + acc) + ",\"time\":"@ =~= o + (acc + ",\"time\":"@));
        acc = acc + ",\"time\":"@;
    }
    let time = render_millis(t.time);
    push_all(out, time.as_slice());
    proof {
        assert((o + acc) + spec_render_millis(t@.time as int) =~= o + (acc + spec_render_millis(
            t@.time as int,
        )));
        acc = acc + spec_render_millis(t@.time as int);
    }
    let memory_key = str_to_chars(",\"memory\":");
    push_all(out, memory_key.as_slice());
    proof {
        assert((o + acc) + ",\"memory\":"@ =~= o + (acc + ",\"memory\":"@));
        acc = acc + ",\"memory\":"@;
    }
    let memory = render_u64(t.memory);
    push_all(out, memory.as_slice());
    proof {
        assert((o + acc) + nat_digits(t@.memory as int) =~= o + (acc + nat_digits(
            t@.memory as int,
        )));
        acc = acc + nat_digits(t@.memory as int);
    }
    let checker_key = str_to_chars(",\"checker_output\":");
    push_all(out, checker_key.as_slice());
    proof {
        assert((o + acc) + ",\"checker_output\":"@ =~= o + (acc + ",\"checker_output\":"@));
        acc = acc + ",\"checker_output\":"@;
    }
    push_json_string(out, t.checker_output.as_str());
    proof {
        assert((o + acc) + spec_json_string(t@.checker_output) =~= o + (acc + spec_json_string(
            t@.checker_output,
        )));
        acc = acc + spec_json_string(t@.checker_output);
    }
    let sandbox_key = str_to_chars(",\"sandbox_output\":");
    push_all(out, sandbox_key.as_slice());
    proof {
        assert((o + acc) + ",\"sandbox_output\":"@ =~= o + (acc + ",\"sandbox_output\":"@));
        acc = acc + ",\"sandbox_output\":"@;
    }
    push_json_string(out, t.sandbox_output.as_str());
    proof {
        assert((o + acc) + spec_json_string(t@.sandbox_output) =~= o + (acc + spec_json_string(
            t@.sandbox_output,
        )));
        acc = acc + spec_json_string(t@.sandbox_output);
    }
    out.push('}');
    proof {
        reveal_strlit("}");
        assert("}"@ =~= seq!['}']);
        assert(out@ =~= o + (acc + "}"@));
        acc = acc + "}"@;
        assert(acc == spec_testcase_json(t@));
    }
}

/// The JSON forms of the case records, joined by commas.
pub open spec fn spec_testcases_json(cases: Seq<TestcaseOutputView>) -> Seq<char>
    decreases cases.len(),
{
    if cases.len() == 0 {
        Seq::<char>::empty()
    } else if cases.len() == 1 {
        spec_testcase_json(cases[0])
    } else {
        spec_testcase_json(cases[0]) + seq![','] + spec_testcases_json(cases.skip(1))
    }
}

/// The JSON form of a whole submission record: the overall verdict, time and
/// memory, the compile message, and the array of case records, in the
/// record's field order.
pub open spec fn spec_judge_output_json(j: JudgeOutput) -> Seq<char> {
    "{\"verdict\":"@ + spec_json_string(j.verdict.spec_code()) + ",\"time\":"@
        + spec_render_millis(j.time as int) + ",\"memory\":"@ + nat_digits(j.memory as int)
        + ",\"compile_message\":"@ + spec_json_string(j.compile_message@) + ",\"testcases\":["@
        + spec_testcases_json(cases_views(j.testcases@)) + "]}"@
}

/// Render a whole submission record as JSON text: what the verdict file and
/// the final event carry.
#[verifier::rlimit(100)]
pub fn render_judge_output_json(j: &JudgeOutput) -> (r: String)
    ensures
        r@ == spec_judge_output_json(*j),
{
    let ghost all = cases_views(j.testcases@);
    let mut out: Vec<char> = Vec::new();
    let ghost mut acc: Seq<char> = "{\"verdict\":"@;
    let head = str_to_chars("{\"verdict\":");
    push_all(&mut out, head.as_slice());
    proof {
        assert(out@ =~= acc);
    }
    let code = j.verdict.code();
    push_json_string(&mut out, code.as_str());
    proof {
        acc = acc + spec_json_string(j.verdict.spec_code());
    }
    let time_key = str_to_chars(",\"time\":");
    push_all(&mut out, time_key.as_slice());
    proof {
        acc = acc + ",\"time\":"@;
    }
    let time = render_millis(j.time);
    push_all(&mut out, time.as_slice());
    proof {
        acc = acc + spec_render_millis(j.time as int);
    }
    let memory_key = str_to_chars(",\"memory\":");
    push_all(&mut out, memory_key.as_slice());
    proof {
        acc = acc + ",\"memory\":"@;
    }
    let memory = render_u64(j.memory);
    push_all(&mut out, memory.as_slice());
    proof {
        acc = acc + nat_digits(j.memory as int);
        assert(out@ == acc);
    }
    let message_key = str_to_chars(",\"compile_message\":");
    push_all(&mut out, message_key.as_slice());
    proof {
        acc = acc + ",\"compile_message\":"@;
        assert(out@ == acc);
    }
    push_json_string(&mut out, j.compile_message.as_str());
    proof {
        acc = acc + spec_json_string(j.compile_message@);
        assert(out@ == acc);
    }
    let cases_key = str_to_chars(",\"testcases\":[");
    push_all(&mut out, cases_key.as_slice());
    proof {
        acc = acc + ",\"testcases\":["@;
        assert(out@ == acc);
    }
    let ghost prefix = out@;
    let n = j.testcases.len();
    let mut i: usize = 0;
    while i < n
        invariant
            0 <= i <= n,
            n == j.testcases@.len(),
            all == cases_views(j.testcases@),
            all.len() == n,
            out@ == prefix + spec_testcases_json(all.take(i as int)),
        decreases n - i,
    {
        proof {
            assert(spec_testcases_json(all.take(0)) == Seq::<char>::empty());
        }
        if i > 0 {
            out.push(',');
        }
        push_testcase_json(&mut out, &j.testcases[i]);
        proof {
            lemma_testcases_json_snoc(all, i as int);
            assert(all[i as int] == j.testcases@[i as int]@);
            if i == 0 {
                assert(prefix + spec_testcases_json(all.take(0)) =~= prefix);
                assert(prefix + spec_testcase_json(all[0]) =~= prefix + spec_testcases_json(
                    all.take(1),
                ));
            } else {
                assert(((prefix + spec_testcases_json(all.take(i as int))).push(',')
                    + spec_testcase_json(all[i as int])) =~= prefix + (spec_testcases_json(
                    all.take(i as int),
                ) + seq![','] + spec_testcase_json(all[i as int])));
            }
        }
        i = i + 1;
    }
    proof {
        assert(all.take(n as int) =~= all);
    }
    out.push(']');
    out.push('}');
    proof {
        reveal_strlit("]}");
        assert("]}"@ =~= seq![']', '}']);
        assert(out@ =~= (prefix + spec_testcases_json(all)) + "]}"@);
        assert((prefix + spec_testcases_json(all)) + "]}"@ =~= (acc + spec_testcases_json(all))
            + "]}"@);
        assert((acc + spec_testcases_json(all)) + "]}"@ =~= spec_judge_output_json(*j));
    }
    chars_to_string(&out)
}

/// Rendering one more case record appends a comma — after the first — and
/// its JSON form.
proof fn lemma_testcases_json_snoc(cases: Seq<TestcaseOutputView>, i: int)
    requires
        0 <= i < cases.len(),
    ensures
        i == 0 ==> spec_testcases_json(cases.take(1)) == spec_testcase_json(cases[0]),
        i > 0 ==> spec_testcases_json(cases.take(i + 1)) == spec_testcases_json(cases.take(i))
            + seq![','] + spec_testcase_json(cases[i]),
    decreases i,
{
    if i == 0 {
        let a = cases.take(1);
        assert(a[0] == cases[0]);
        assert(spec_testcases_json(a) == spec_testcase_json(cases[0]));
    } else {
        let a = cases.take(i + 1);
        let b = cases.take(i);
        assert(a.len() >= 2);
        assert(a[0] == cases[0]);
        assert(b[0] == cases[0]);
        let t = cases.skip(1);
        lemma_testcases_json_snoc(t, i - 1);
        assert(a.skip(1) =~= t.take(i));
        assert(b.skip(1) =~= t.take(i - 1));
        assert(t[i - 1] == cases[i]);
        if i == 1 {
            assert(spec_testcases_json(b) == spec_testcase_json(cases[0]));
            assert(spec_testcases_json(a) == spec_testcase_json(cases[0]) + seq![',']
                + spec_testcases_json(t.take(1)));
            assert(spec_testcases_json(t.take(1)) == spec_testcase_json(t[0]));
            assert(t[0] == cases[1]);
        } else {
            assert(b.len() >= 2);
            assert(spec_testcases_json(a) == spec_testcase_json(cases[0]) + seq![',']
                + spec_testcases_json(t.take(i)));
            assert(spec_testcases_json(b) == spec_testcase_json(cases[0]) + seq![',']
                + spec_testcases_json(t.take(i - 1)));
            assert((spec_testcase_json(cases[0]) + seq![',']) + (spec_testcases_json(t.take(i - 1))
                + seq![','] + spec_testcase_json(cases[i])) =~= ((spec_testcase_json(cases[0])
                + seq![','] + spec_testcases_json(t.take(i - 1))) + seq![','] + spec_testcase_json(
                cases[i],
            )));
        }
    }
}

/// The JSON form of one published update: its kind and its payload.
pub open spec fn spec_event_json(event_type: Seq<char>, payload: Seq<char>) -> Seq<char> {
    "{\"event_type\":"@ + spec_json_string(event_type) + ",\"event\":"@ + payload + "}"@
}

/// Render a per-case update as the JSON text published on the socket.
#[verifier::rlimit(100)]
pub fn render_testcase_event(ev: &UpdateEvent<'_, TestcaseOutput>) -> (r: String)
    ensures
        r@ == spec_event_json(ev.event_type@, spec_testcase_json((*ev.event)@)),
{
    let mut out: Vec<char> = Vec::new();
    let ghost mut acc: Seq<char> = "{\"event_type\":"@;
    let head = str_to_chars("{\"event_type\":");
    push_all(&mut out, head.as_slice());
    proof {
        assert(out@ =~= acc);
    }
    push_json_string(&mut out, ev.event_type.as_str());
    proof {
        acc = acc + spec_json_string(ev.event_type@);
        assert(out@ == acc);
    }
    let event_key = str_to_chars(",\"event\":");
    push_all(&mut out, event_key.as_slice());
    proof {
        acc = acc + ",\"event\":"@;
        assert(out@ == acc);
    }
    push_testcase_json(&mut out, ev.event);
    proof {
        acc = acc + spec_testcase_json((*ev.event)@);
        assert(out@ == acc);
    }
    out.push('}');
    proof {
        reveal_strlit("}");
        assert("}"@ =~= seq!['}']);
        assert(out@ =~= acc + "}"@);
        assert(acc + "}"@ =~= spec_event_json(ev.event_type@, spec_testcase_json((*ev.event)@)));
    }
    chars_to_string(&out)
}

/// Render the final submission update as the JSON text published on the
/// socket.
#[verifier::rlimit(100)]
pub fn render_submission_event(ev: &UpdateEvent<'_, JudgeOutput>) -> (r: String)
    ensures
        r@ == spec_event_json(ev.event_type@, spec_judge_output_json(*ev.event)),
{
    let mut out: Vec<char> = Vec::new();
    let ghost mut acc: Seq<char> = "{\"event_type\":"@;
    let head = str_to_chars("{\"event_type\":");
    push_all(&mut out, head.as_slice());
    proof {
        assert(out@ =~= acc);
    }
    push_json_string(&mut out, ev.event_type.as_str());
    proof {
        acc = acc + spec_json_string(ev.event_type@);
        assert(out@ == acc);
    }
    let event_key = str_to_chars(",\"event\":");
    push_all(&mut out, event_key.as_slice());
    proof {
        acc = acc + ",\"event\":"@;
        assert(out@ == acc);
    }
    let payload = render_judge_output_json(ev.event);
    let payload_chars = str_to_chars(payload.as_str());
    push_all(&mut out, payload_chars.as_slice());
    proof {
        acc = acc + spec_judge_output_json(*ev.event);
        assert(out@ == acc);
    }
    out.push('}');
    proof {
        reveal_strlit("}");
        assert("}"@ =~= seq!['}']);
        assert(out@ =~= acc + "}"@);
        assert(acc + "}"@ =~= spec_event_json(ev.event_type@, spec_judge_output_json(*ev.event)));
    }
    chars_to_string(&out)
}

} // verus!
