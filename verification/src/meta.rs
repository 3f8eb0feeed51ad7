//! The isolation tool's meta report: a `key:value` line format carrying the
//! measured time, memory, exit code and terminal status of one run, and the
//! checker's accept/reject convention layered on top of it.

use vstd::prelude::*;

use crate::text::{
    chars_eq, chars_to_string, find_char, nat_digits, parse_i64, parse_millis, parse_u64,
    push_all, render_i64, render_millis, render_u64, spec_find, spec_i64_digits, spec_parse_i64,
    spec_parse_millis, spec_parse_u64, spec_render_millis, spec_split, spec_starts_with,
    split_char, starts_with_chars, str_to_chars, views_of,
};
use crate::verdict::{spec_map_status, Verdict};

verus! {

/// The parsed form of a meta report. Times are in milliseconds, memory in
/// KiB; a field is `None` when its line is absent or its value malformed.
#[derive(Clone, Copy, Debug, PartialEq, Eq)]
pub struct Meta {
    pub time: Option<u64>,
    pub time_wall: Option<u64>,
    pub memory: Option<u64>,
    pub exit_code: Option<i64>,
    pub verdict: Option<Verdict>,
}

impl Meta {
    /// A meta report with nothing recognized yet.
    pub fn empty() -> (r: Meta)
        ensures
            r == Meta::spec_empty(),
    {
        Meta { time: None, time_wall: None, memory: None, exit_code: None, verdict: None }
    }

    /// A meta report with nothing recognized.
    pub open spec fn spec_empty() -> Meta {
        Meta { time: None, time_wall: None, memory: None, exit_code: None, verdict: None }
    }
}

/// Map a raw `status` token to a verdict.
pub fn map_status(raw: &[char]) -> (r: Verdict)
    ensures
        r == spec_map_status(raw@),
{
    let re = str_to_chars("RE");
    let sg = str_to_chars("SG");
    let to = str_to_chars("TO");
    if chars_eq(raw, re.as_slice()) {
        Verdict::Re
    } else if chars_eq(raw, sg.as_slice()) {
        Verdict::Mle
    } else if chars_eq(raw, to.as_slice()) {
        Verdict::Tle
    } else {
        Verdict::Se
    }
}

/// How one meta line updates the report: the text before the first `:` names
/// the field, the text after it carries the value. A line without `:`, an
/// unknown key, or an unparseable value changes nothing; an empty `status`
/// value means the run finished normally and sets no verdict.
pub open spec fn spec_apply_meta_line(m: Meta, line: Seq<char>) -> Meta {
    match spec_find(line, ':') {
        None => m,
        Some(i) => {
            let key = line.take(i);
            let value = line.skip(i + 1);
            if key == "time"@ {
                match spec_parse_millis(value) {
                    Some(v) => Meta { time: Some(v), ..m },
                    None => m,
                }
            } else if key == "time-wall"@ {
                match spec_parse_millis(value) {
                    Some(v) => Meta { time_wall: Some(v), ..m },
                    None => m,
                }
            } else if key == "max-rss"@ {
                match spec_parse_u64(value) {
                    Some(v) => Meta { memory: Some(v), ..m },
                    None => m,
                }
            } else if key == "exitcode"@ {
                match spec_parse_i64(value) {
                    Some(v) => Meta { exit_code: Some(v), ..m },
                    None => m,
                }
            } else if key == "status"@ {
                if value.len() > 0 {
                    Meta { verdict: Some(spec_map_status(value)), ..m }
                } else {
                    m
                }
            } else {
                m
            }
        },
    }
}

/// Fold the lines of a report over an accumulating `Meta`, first line first.
pub open spec fn spec_fold_meta_lines(m: Meta, lines: Seq<Seq<char>>) -> Meta
    decreases lines.len(),
{
    if lines.len() == 0 {
        m
    } else {
        spec_fold_meta_lines(spec_apply_meta_line(m, lines[0]), lines.skip(1))
    }
}

/// The meta report parsed from raw text: its lines, applied in order to an
/// empty report.
pub open spec fn spec_parse_meta(s: Seq<char>) -> Meta {
    spec_fold_meta_lines(Meta::spec_empty(), spec_split(s, '\n'))
}

/// Apply one meta line to the report.
fn apply_meta_line(m: Meta, line: &[char]) -> (r: Meta)
    ensures
        r == spec_apply_meta_line(m, line@),
{
    let n = line.len();
    let i = match find_char(line, ':') {
        Some(i) => i,
        None => {
            return m;
        },
    };
    let key = vstd::slice::slice_subrange(line, 0, i);
    let value = vstd::slice::slice_subrange(line, i + 1, n);
    assert(key@ =~= line@.take(i as int));
    assert(value@ =~= line@.skip(i + 1));
    let key_time = str_to_chars("time");
    let key_time_wall = str_to_chars("time-wall");
    let key_max_rss = str_to_chars("max-rss");
    let key_exitcode = str_to_chars("exitcode");
    let key_status = str_to_chars("status");
    if chars_eq(key, key_time.as_slice()) {
        match parse_millis(value) {
            Some(v) => Meta { time: Some(v), ..m },
            None => m,
        }
    } else if chars_eq(key, key_time_wall.as_slice()) {
        match parse_millis(value) {
            Some(v) => Meta { time_wall: Some(v), ..m },
            None => m,
        }
    } else if chars_eq(key, key_max_rss.as_slice()) {
        match parse_u64(value) {
            Some(v) => Meta { memory: Some(v), ..m },
            None => m,
        }
    } else if chars_eq(key, key_exitcode.as_slice()) {
        match parse_i64(value) {
            Some(v) => Meta { exit_code: Some(v), ..m },
            None => m,
        }
    } else if chars_eq(key, key_status.as_slice()) {
        if value.len() > 0 {
            Meta { verdict: Some(map_status(value)), ..m }
        } else {
            m
        }
    } else {
        m
    }
}

/// Parse the raw text of a meta report.
pub fn parse_meta(source: &str) -> (r: Meta)
    ensures
        r == spec_parse_meta(source@),
{
    let chars = str_to_chars(source);
    let lines = split_char(chars.as_slice(), '\n');
    let ghost all = views_of(lines@);
    let mut m = Meta::empty();
    let n = lines.len();
    let mut i: usize = 0;
    proof {
        assert(all.skip(0) =~= all);
    }
    while i < n
        invariant
            0 <= i <= n,
            n == lines@.len(),
            all == views_of(lines@),
            all.len() == n,
            spec_fold_meta_lines(Meta::spec_empty(), all) == spec_fold_meta_lines(
                m,
                all.skip(i as int),
            ),
        decreases n - i,
    {
        let ghost rest = all.skip(i as int);
        proof {
            assert(rest[0] == all[i as int]);
            assert(all[i as int] == lines@[i as int]@);
            assert(rest.skip(1) =~= all.skip(i + 1));
        }
        m = apply_meta_line(m, lines[i].as_slice());
        i = i + 1;
    }
    proof {
        assert(all.skip(n as int) =~= Seq::<Seq<char>>::empty());
    }
    m
}

/// The raw status token that stands for a verdict in a rendered meta report.
/// Only `RE`, `SG` and `TO` have tokens of their own; every other verdict is
/// rendered as an unrecognized token, which parses back as a system error.
pub open spec fn spec_status_token(v: Verdict) -> Seq<char> {
    match v {
        Verdict::Re => "RE"@,
        Verdict::Mle => "SG"@,
        Verdict::Tle => "TO"@,
        _ => "XX"@,
    }
}

/// The status token of a verdict.
fn status_token(v: Verdict) -> (r: Vec<char>)
    ensures
        r@ == spec_status_token(v),
{
    match v {
        Verdict::Re => str_to_chars("RE"),
        Verdict::Mle => str_to_chars("SG"),
        Verdict::Tle => str_to_chars("TO"),
        _ => str_to_chars("XX"),
    }
}

/// The `key:value` lines of a rendered meta report, one per present field,
/// in a fixed order.
pub open spec fn spec_meta_core_lines(m: Meta) -> Seq<Seq<char>> {
    (match m.time {
        Some(t) => seq!["time"@ + seq![':'] + spec_render_millis(t as int)],
        None => Seq::<Seq<char>>::empty(),
    }) + (match m.time_wall {
        Some(t) => seq!["time-wall"@ + seq![':'] + spec_render_millis(t as int)],
        None => Seq::<Seq<char>>::empty(),
    }) + (match m.memory {
        Some(v) => seq!["max-rss"@ + seq![':'] + nat_digits(v as int)],
        None => Seq::<Seq<char>>::empty(),
    }) + (match m.exit_code {
        Some(v) => seq!["exitcode"@ + seq![':'] + spec_i64_digits(v as int)],
        None => Seq::<Seq<char>>::empty(),
    }) + (match m.verdict {
        Some(v) => seq!["status"@ + seq![':'] + spec_status_token(v)],
        None => Seq::<Seq<char>>::empty(),
    })
}

/// Lines joined into a report: every line is followed by a newline.
pub open spec fn spec_join_lines(lines: Seq<Seq<char>>) -> Seq<char>
    decreases lines.len(),
{
    if lines.len() == 0 {
        Seq::<char>::empty()
    } else {
        lines[0] + seq!['\n'] + spec_join_lines(lines.skip(1))
    }
}

/// The rendered text of a meta report.
pub open spec fn spec_render_meta(m: Meta) -> Seq<char> {
    spec_join_lines(spec_meta_core_lines(m))
}

/// Join report lines, each followed by a newline.
fn join_lines(lines: &Vec<Vec<char>>) -> (r: Vec<char>)
    ensures
        r@ == spec_join_lines(views_of(lines@)),
{
    let ghost all = views_of(lines@);
    let mut out: Vec<char> = Vec::new();
    let n = lines.len();
    let mut i: usize = 0;
    proof {
        assert(all.skip(0) =~= all);
    }
    while i < n
        invariant
            0 <= i <= n,
            n == lines@.len(),
            all == views_of(lines@),
            all.len() == n,
            spec_join_lines(all) == out@ + spec_join_lines(all.skip(i as int)),
        decreases n - i,
    {
        let ghost rest = all.skip(i as int);
        proof {
            assert(rest[0] == all[i as int]);
            assert(all[i as int] == lines@[i as int]@);
            assert(rest.skip(1) =~= all.skip(i + 1));
            assert(out@ + spec_join_lines(rest) =~= (out@ + lines@[i as int]@ + seq!['\n'])
                + spec_join_lines(all.skip(i + 1)));
        }
        push_all(&mut out, lines[i].as_slice());
        out.push('\n');
        i = i + 1;
    }
    proof {
        assert(all.skip(n as int) =~= Seq::<Seq<char>>::empty());
        assert(out@ + spec_join_lines(all.skip(n as int)) =~= out@);
    }
    out
}

/// Render a meta report back into its `key:value` line format, one line per
/// present field.
pub fn render_meta(m: &Meta) -> (r: String)
    ensures
        r@ == spec_render_meta(*m),
{
    let mut lines: Vec<Vec<char>> = Vec::new();
    let ghost seg_time = (match m.time {
        Some(t) => seq!["time"@ + seq![':'] + spec_render_millis(t as int)],
        None => Seq::<Seq<char>>::empty(),
    });
    let ghost seg_time_wall = (match m.time_wall {
        Some(t) => seq!["time-wall"@ + seq![':'] + spec_render_millis(t as int)],
        None => Seq::<Seq<char>>::empty(),
    });
    let ghost seg_memory = (match m.memory {
        Some(v) => seq!["max-rss"@ + seq![':'] + nat_digits(v as int)],
        None => Seq::<Seq<char>>::empty(),
    });
    let ghost seg_exit = (match m.exit_code {
        Some(v) => seq!["exitcode"@ + seq![':'] + spec_i64_digits(v as int)],
        None => Seq::<Seq<char>>::empty(),
    });
    let ghost seg_status = (match m.verdict {
        Some(v) => seq!["status"@ + seq![':'] + spec_status_token(v)],
        None => Seq::<Seq<char>>::empty(),
    });
    if let Some(t) = m.time {
        let mut line = str_to_chars("time");
        line.push(':');
        let value = render_millis(t);
        push_all(&mut line, value.as_slice());
        assert(line@ =~= "time"@ + seq![':'] + spec_render_millis(t as int));
        lines.push(line);
    }
    assert(views_of(lines@) =~~= seg_time);
    if let Some(t) = m.time_wall {
        let mut line = str_to_chars("time-wall");
        line.push(':');
        let value = render_millis(t);
        push_all(&mut line, value.as_slice());
        assert(line@ =~= "time-wall"@ + seq![':'] + spec_render_millis(t as int));
        lines.push(line);
    }
    assert(views_of(lines@) =~~= seg_time + seg_time_wall);
    if let Some(v) = m.memory {
        let mut line = str_to_chars("max-rss");
        line.push(':');
        let value = render_u64(v);
        push_all(&mut line, value.as_slice());
        assert(line@ =~= "max-rss"@ + seq![':'] + nat_digits(v as int));
        lines.push(line);
    }
    assert(views_of(lines@) =~~= seg_time + seg_time_wall + seg_memory);
    if let Some(v) = m.exit_code {
        let mut line = str_to_chars("exitcode");
        line.push(':');
        let value = render_i64(v);
        push_all(&mut line, value.as_slice());
        assert(line@ =~= "exitcode"@ + seq![':'] + spec_i64_digits(v as int));
        lines.push(line);
    }
    assert(views_of(lines@) =~~= seg_time + seg_time_wall + seg_memory + seg_exit);
    if let Some(v) = m.verdict {
        let mut line = str_to_chars("status");
        line.push(':');
        let value = status_token(v);
        push_all(&mut line, value.as_slice());
        assert(line@ =~= "status"@ + seq![':'] + spec_status_token(v));
        lines.push(line);
    }
    assert(views_of(lines@) =~~= seg_time + seg_time_wall + seg_memory + seg_exit + seg_status);
    assert(views_of(lines@) =~~= spec_meta_core_lines(*m));
    let joined = join_lines(&lines);
    chars_to_string(&joined)
}

/// A line free of newlines.
pub open spec fn line_clean(l: Seq<char>) -> bool {
    forall|j: int| 0 <= j < l.len() ==> l[j] != '\n'
}

/// Splitting joined newline-free lines gives the lines back, with one empty
/// trailing piece for the final newline.
proof fn lemma_split_join(lines: Seq<Seq<char>>)
    requires
        forall|k: int| 0 <= k < lines.len() ==> line_clean(#[trigger] lines[k]),
    ensures
        crate::text::spec_split(spec_join_lines(lines), '\n') == lines + seq![
            Seq::<char>::empty(),
        ],
    decreases lines.len(),
{
    if lines.len() == 0 {
        assert(spec_join_lines(lines) =~= Seq::<char>::empty());
        assert(lines + seq![Seq::<char>::empty()] =~~= seq![Seq::<char>::empty()]);
    } else {
        let l = lines[0];
        let rest = lines.skip(1);
        assert forall|k: int| 0 <= k < rest.len() implies line_clean(#[trigger] rest[k]) by {
            assert(rest[k] == lines[k + 1]);
        }
        lemma_split_join(rest);
        crate::text::lemma_split_line(l, spec_join_lines(rest), '\n');
        assert(seq![l] + (rest + seq![Seq::<char>::empty()]) =~~= lines + seq![
            Seq::<char>::empty(),
        ]);
    }
}

/// Folding one more line first applies that line.
proof fn lemma_fold_cons(m: Meta, l: Seq<char>, rest: Seq<Seq<char>>)
    ensures
        spec_fold_meta_lines(m, seq![l] + rest) == spec_fold_meta_lines(
            spec_apply_meta_line(m, l),
            rest,
        ),
{
    let s = seq![l] + rest;
    assert(s[0] == l);
    assert(s.skip(1) =~= rest);
}

/// Folding a concatenation folds the parts in turn.
proof fn lemma_fold_append(m: Meta, la: Seq<Seq<char>>, lb: Seq<Seq<char>>)
    ensures
        spec_fold_meta_lines(m, la + lb) == spec_fold_meta_lines(
            spec_fold_meta_lines(m, la),
            lb,
        ),
    decreases la.len(),
{
    if la.len() == 0 {
        assert(la + lb =~= lb);
    } else {
        let s = la + lb;
        assert(s[0] == la[0]);
        assert(s.skip(1) =~= la.skip(1) + lb);
        lemma_fold_append(spec_apply_meta_line(m, la[0]), la.skip(1), lb);
    }
}

/// In a line built from a colon-free key, the first colon separates the key
/// from the value.
proof fn lemma_line_key_value(key: Seq<char>, value: Seq<char>)
    requires
        forall|j: int| 0 <= j < key.len() ==> key[j] != ':',
    ensures
        spec_find(key + seq![':'] + value, ':') == Some(key.len() as int),
        (key + seq![':'] + value).take(key.len() as int) == key,
        (key + seq![':'] + value).skip(key.len() as int + 1) == value,
{
    let line = key + seq![':'] + value;
    assert(line[key.len() as int] == ':');
    assert forall|j: int| 0 <= j < key.len() implies line[j] != ':' by {
        assert(line[j] == key[j]);
    }
    crate::text::lemma_find_first(line, ':', key.len() as int);
    assert(line.take(key.len() as int) =~= key);
    assert(line.skip(key.len() as int + 1) =~= value);
}

/// A key's characters: no colon, no newline.
proof fn lemma_key_clean(key: Seq<char>)
    requires
        key == "time"@ || key == "time-wall"@ || key == "max-rss"@ || key == "exitcode"@ || key
            == "status"@,
    ensures
        forall|j: int| 0 <= j < key.len() ==> key[j] != ':',
        forall|j: int| 0 <= j < key.len() ==> key[j] != '\n',
{
    reveal_strlit("time");
    reveal_strlit("time-wall");
    reveal_strlit("max-rss");
    reveal_strlit("exitcode");
    reveal_strlit("status");
    assert("time"@ =~= seq!['t', 'i', 'm', 'e']);
    assert("time-wall"@ =~= seq!['t', 'i', 'm', 'e', '-', 'w', 'a', 'l', 'l']);
    assert("max-rss"@ =~= seq!['m', 'a', 'x', '-', 'r', 's', 's']);
    assert("exitcode"@ =~= seq!['e', 'x', 'i', 't', 'c', 'o', 'd', 'e']);
    assert("status"@ =~= seq!['s', 't', 'a', 't', 'u', 's']);
}

/// The five keys differ pairwise; their lengths already do.
proof fn lemma_keys_distinct()
    ensures
        "time"@ != "time-wall"@,
        "time"@ != "max-rss"@,
        "time"@ != "exitcode"@,
        "time"@ != "status"@,
        "time-wall"@ != "max-rss"@,
        "time-wall"@ != "exitcode"@,
        "time-wall"@ != "status"@,
        "max-rss"@ != "exitcode"@,
        "max-rss"@ != "status"@,
        "exitcode"@ != "status"@,
{
    reveal_strlit("time");
    reveal_strlit("time-wall");
    reveal_strlit("max-rss");
    reveal_strlit("exitcode");
    reveal_strlit("status");
    assert("time"@.len() == 4);
    assert("time-wall"@.len() == 9);
    assert("max-rss"@.len() == 7);
    assert("exitcode"@.len() == 8);
    assert("status"@.len() == 6);
}

/// Applying a rendered `time` line sets the time field.
proof fn lemma_apply_time_line(m: Meta, t: u64)
    ensures
        spec_apply_meta_line(m, "time"@ + seq![':'] + spec_render_millis(t as int)) == (Meta {
            time: Some(t),
            ..m
        }),
{
    let value = spec_render_millis(t as int);
    lemma_key_clean("time"@);
    lemma_line_key_value("time"@, value);
    crate::text::lemma_parse_render_millis(t);
}

/// Applying a rendered `time-wall` line sets the wall-time field.
proof fn lemma_apply_time_wall_line(m: Meta, t: u64)
    ensures
        spec_apply_meta_line(m, "time-wall"@ + seq![':'] + spec_render_millis(t as int)) == (Meta {
            time_wall: Some(t),
            ..m
        }),
{
    let value = spec_render_millis(t as int);
    lemma_key_clean("time-wall"@);
    lemma_keys_distinct();
    lemma_line_key_value("time-wall"@, value);
    crate::text::lemma_parse_render_millis(t);
}

/// Applying a rendered `max-rss` line sets the memory field.
proof fn lemma_apply_memory_line(m: Meta, v: u64)
    ensures
        spec_apply_meta_line(m, "max-rss"@ + seq![':'] + nat_digits(v as int)) == (Meta {
            memory: Some(v),
            ..m
        }),
{
    let value = nat_digits(v as int);
    lemma_key_clean("max-rss"@);
    lemma_keys_distinct();
    lemma_line_key_value("max-rss"@, value);
    crate::text::lemma_parse_render_u64(v);
}

/// Applying a rendered `exitcode` line sets the exit-code field.
proof fn lemma_apply_exit_line(m: Meta, v: i64)
    ensures
        spec_apply_meta_line(m, "exitcode"@ + seq![':'] + spec_i64_digits(v as int)) == (Meta {
            exit_code: Some(v),
            ..m
        }),
{
    let value = spec_i64_digits(v as int);
    lemma_key_clean("exitcode"@);
    lemma_keys_distinct();
    lemma_line_key_value("exitcode"@, value);
    crate::text::lemma_parse_render_i64(v);
}

/// Applying a rendered `status` line sets the verdict, for the verdicts that
/// have a token of their own.
proof fn lemma_apply_status_line(m: Meta, v: Verdict)
    requires
        v == Verdict::Re || v == Verdict::Mle || v == Verdict::Tle || v == Verdict::Se,
    ensures
        spec_apply_meta_line(m, "status"@ + seq![':'] + spec_status_token(v)) == (Meta {
            verdict: Some(v),
            ..m
        }),
{
    let value = spec_status_token(v);
    lemma_key_clean("status"@);
    lemma_keys_distinct();
    lemma_line_key_value("status"@, value);
    reveal_strlit("RE");
    reveal_strlit("SG");
    reveal_strlit("TO");
    reveal_strlit("XX");
    assert("RE"@ =~= seq!['R', 'E']);
    assert("SG"@ =~= seq!['S', 'G']);
    assert("TO"@ =~= seq!['T', 'O']);
    assert("XX"@ =~= seq!['X', 'X']);
    assert(value.len() > 0);
    assert(spec_map_status(value) == v);
}

/// Every rendered meta line is free of newlines.
proof fn lemma_core_lines_clean(m: Meta)
    ensures
        forall|k: int|
            0 <= k < spec_meta_core_lines(m).len() ==> line_clean(
                #[trigger] spec_meta_core_lines(m)[k],
            ),
{
    let lines = spec_meta_core_lines(m);
    lemma_key_clean("time"@);
    lemma_key_clean("time-wall"@);
    lemma_key_clean("max-rss"@);
    lemma_key_clean("exitcode"@);
    lemma_key_clean("status"@);
    assert forall|k: int| 0 <= k < lines.len() implies line_clean(#[trigger] lines[k]) by {
        if m.time is Some {
            crate::text::lemma_render_millis_chars(m.time->0 as int, '\n');
        }
        if m.time_wall is Some {
            crate::text::lemma_render_millis_chars(m.time_wall->0 as int, '\n');
        }
        if m.memory is Some {
            crate::text::lemma_nat_digits_all_digits(m.memory->0 as int);
            crate::text::lemma_digits_no_char(nat_digits(m.memory->0 as int), '\n');
        }
        if m.exit_code is Some {
            crate::text::lemma_i64_digits_chars(m.exit_code->0 as int, '\n');
        }
        if m.verdict is Some {
            reveal_strlit("RE");
            reveal_strlit("SG");
            reveal_strlit("TO");
            reveal_strlit("XX");
            assert("RE"@ =~= seq!['R', 'E']);
            assert("SG"@ =~= seq!['S', 'G']);
            assert("TO"@ =~= seq!['T', 'O']);
            assert("XX"@ =~= seq!['X', 'X']);
        }
    }
}

/// Folding a single-line segment applies that line once.
proof fn lemma_fold_one(m: Meta, l: Seq<char>)
    ensures
        spec_fold_meta_lines(m, seq![l]) == spec_apply_meta_line(m, l),
{
    assert(seq![l] + Seq::<Seq<char>>::empty() =~~= seq![l]);
    lemma_fold_cons(m, l, Seq::<Seq<char>>::empty());
}

/// Meta parsing inverts meta rendering: any report whose verdict could itself
/// have come from a meta report — or that carries none — round-trips through
/// its rendered text.
#[verifier::rlimit(50)]
pub proof fn lemma_parse_render_meta(m: Meta)
    requires
        m.verdict matches Some(v) ==> (v == Verdict::Re || v == Verdict::Mle || v == Verdict::Tle
            || v == Verdict::Se),
    ensures
        spec_parse_meta(spec_render_meta(m)) == m,
{
    let seg_time: Seq<Seq<char>> = (match m.time {
        Some(t) => seq!["time"@ + seq![':'] + spec_render_millis(t as int)],
        None => Seq::<Seq<char>>::empty(),
    });
    let seg_time_wall: Seq<Seq<char>> = (match m.time_wall {
        Some(t) => seq!["time-wall"@ + seq![':'] + spec_render_millis(t as int)],
        None => Seq::<Seq<char>>::empty(),
    });
    let seg_memory: Seq<Seq<char>> = (match m.memory {
        Some(v) => seq!["max-rss"@ + seq![':'] + nat_digits(v as int)],
        None => Seq::<Seq<char>>::empty(),
    });
    let seg_exit: Seq<Seq<char>> = (match m.exit_code {
        Some(v) => seq!["exitcode"@ + seq![':'] + spec_i64_digits(v as int)],
        None => Seq::<Seq<char>>::empty(),
    });
    let seg_status: Seq<Seq<char>> = (match m.verdict {
        Some(v) => seq!["status"@ + seq![':'] + spec_status_token(v)],
        None => Seq::<Seq<char>>::empty(),
    });
    let lines = spec_meta_core_lines(m);
    lemma_core_lines_clean(m);
    lemma_split_join(lines);
    let tail = seq![Seq::<char>::empty()];
    assert(lines + tail =~~= seg_time + (seg_time_wall + (seg_memory + (seg_exit + (seg_status
        + tail)))));
    let m0 = Meta::spec_empty();
    lemma_fold_append(m0, seg_time, seg_time_wall + (seg_memory + (seg_exit + (seg_status
        + tail))));
    let m1 = spec_fold_meta_lines(m0, seg_time);
    lemma_fold_append(m1, seg_time_wall, seg_memory + (seg_exit + (seg_status + tail)));
    let m2 = spec_fold_meta_lines(m1, seg_time_wall);
    lemma_fold_append(m2, seg_memory, seg_exit + (seg_status + tail));
    let m3 = spec_fold_meta_lines(m2, seg_memory);
    lemma_fold_append(m3, seg_exit, seg_status + tail);
    let m4 = spec_fold_meta_lines(m3, seg_exit);
    lemma_fold_append(m4, seg_status, tail);
    let m5 = spec_fold_meta_lines(m4, seg_status);
    // The empty trailing piece has no colon and changes nothing.
    crate::text::lemma_find_none(Seq::<char>::empty(), ':');
    lemma_fold_one(m5, Seq::<char>::empty());
    assert(tail =~~= seq![Seq::<char>::empty()]);
    assert(spec_fold_meta_lines(m5, tail) == m5);
    // Each present line sets exactly its own field.
    if m.time is Some {
        lemma_fold_one(m0, seg_time[0]);
        lemma_apply_time_line(m0, m.time->0);
        assert(m1 == Meta { time: m.time, ..m0 });
    } else {
        assert(m1 == m0);
    }
    if m.time_wall is Some {
        lemma_fold_one(m1, seg_time_wall[0]);
        lemma_apply_time_wall_line(m1, m.time_wall->0);
        assert(m2 == Meta { time_wall: m.time_wall, ..m1 });
    } else {
        assert(m2 == m1);
    }
    if m.memory is Some {
        lemma_fold_one(m2, seg_memory[0]);
        lemma_apply_memory_line(m2, m.memory->0);
        assert(m3 == Meta { memory: m.memory, ..m2 });
    } else {
        assert(m3 == m2);
    }
    if m.exit_code is Some {
        lemma_fold_one(m3, seg_exit[0]);
        lemma_apply_exit_line(m3, m.exit_code->0);
        assert(m4 == Meta { exit_code: m.exit_code, ..m3 });
    } else {
        assert(m4 == m3);
    }
    if m.verdict is Some {
        lemma_fold_one(m4, seg_status[0]);
        lemma_apply_status_line(m4, m.verdict->0);
        assert(m5 == Meta { verdict: m.verdict, ..m4 });
    } else {
        assert(m5 == m4);
    }
    assert(m5 == m);
}

/// Layer the checker's opinion over a parsed meta report: a verdict already
/// fixed by the sandbox stands; otherwise checker output that starts with
/// `ok` accepts and anything else rejects.
pub fn apply_checker_output(meta: &Meta, checker_output: &str) -> (r: Meta)
    ensures
        r.time == meta.time,
        r.time_wall == meta.time_wall,
        r.memory == meta.memory,
        r.exit_code == meta.exit_code,
        r.verdict == (match meta.verdict {
            Some(v) => Some(v),
            None => Some(
                if spec_starts_with(checker_output@, "ok"@) {
                    Verdict::Ac
                } else {
                    Verdict::Wa
                },
            ),
        }),
{
    let mut r = *meta;
    if r.verdict.is_none() {
        let chars = str_to_chars(checker_output);
        let ok = str_to_chars("ok");
        if starts_with_chars(chars.as_slice(), ok.as_slice()) {
            r.verdict = Some(Verdict::Ac);
        } else {
            r.verdict = Some(Verdict::Wa);
        }
    }
    r
}

} // verus!
