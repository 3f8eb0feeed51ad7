//! The diagnostic report lines describing the options, the metadata and a
//! meta report. The library builds the lines; logging them is up to the
//! caller.

use vstd::prelude::*;

use crate::cli::{Metadata, Opts};
use crate::meta::Meta;
use crate::text::{
    chars_to_string, nat_digits, push_all, render_millis, render_u64, render_i64, spec_i64_digits,
    spec_render_millis, str_to_chars,
};

verus! {

/// A line of the shape `label` followed by a text.
fn text_line(label: &str, value: &str) -> (r: String)
    ensures
        r@ == label@ + value@,
{
    String::from_str(label).concat(value)
}

/// A line of the shape `label` followed by an optional text, with a stand-in
/// when there is none.
fn opt_line(label: &str, value: &Option<String>, absent: &str) -> (r: String)
    ensures
        r@ == label@ + (match *value {
            Some(v) => v@,
            None => absent@,
        }),
{
    match value {
        Some(v) => String::from_str(label).concat(v.as_str()),
        None => String::from_str(label).concat(absent),
    }
}

/// The report lines describing the options of a run, one per option.
pub open spec fn spec_debug_opts_lines(opts: Opts) -> Seq<Seq<char>> {
    seq![
        "Sandboxes:  "@ + spec_i64_digits(opts.sandboxes as int),
        "Metadata:   "@ + opts.metadata@,
        "Language:   "@ + opts.language@,
        "Source:     "@ + opts.source@,
        "Checker:    "@ + opts.checker@,
        "Interactor: "@ + (match opts.interactor {
            Some(p) => p@,
            None => "None"@,
        }),
        "Testcases:  "@ + opts.testcases@,
        "Testlib:    "@ + opts.testlib@,
        "Verdict to: "@ + (match opts.verdict {
            Some(p) => p@,
            None => "stdout"@,
        }) + " ("@ + opts.verdict_format@ + ")"@,
        "Socket:     "@ + (match opts.socket {
            Some(p) => p@,
            None => "None"@,
        }),
        "Lang. Def.: "@ + opts.languages_definition@,
    ]
}

/// Build the report lines describing the options of a run.
pub fn debug_opts(opts: &Opts) -> (r: Vec<String>)
    ensures
        crate::languages::strings_views(r@) == spec_debug_opts_lines(*opts),
{
    let mut lines: Vec<String> = Vec::new();
    let mut sandboxes_chars = str_to_chars("Sandboxes:  ");
    let digits = render_i64(opts.sandboxes as i64);
    push_all(&mut sandboxes_chars, digits.as_slice());
    lines.push(chars_to_string(&sandboxes_chars));
    lines.push(text_line("Metadata:   ", opts.metadata.as_str()));
    lines.push(text_line("Language:   ", opts.language.as_str()));
    lines.push(text_line("Source:     ", opts.source.as_str()));
    lines.push(text_line("Checker:    ", opts.checker.as_str()));
    lines.push(opt_line("Interactor: ", &opts.interactor, "None"));
    lines.push(text_line("Testcases:  ", opts.testcases.as_str()));
    lines.push(text_line("Testlib:    ", opts.testlib.as_str()));
    let verdict_line = opt_line("Verdict to: ", &opts.verdict, "stdout").concat(" (").concat(
        opts.verdict_format.as_str(),
    ).concat(")");
    lines.push(verdict_line);
    lines.push(opt_line("Socket:     ", &opts.socket, "None"));
    lines.push(text_line("Lang. Def.: ", opts.languages_definition.as_str()));
    proof {
        assert(crate::languages::strings_views(lines@) =~~= spec_debug_opts_lines(*opts));
    }
    lines
}

/// The report lines describing the metadata: the limits, then one line per
/// test case with its one-based number and its files.
pub open spec fn spec_debug_metadata_lines(metadata: Metadata) -> Seq<Seq<char>> {
    seq![
        "Problem name:         "@ + metadata.problem_name@,
        "Time limit:           "@ + spec_render_millis(metadata.time_limit as int),
        "Memory limit:         "@ + nat_digits(metadata.memory_limit as int),
        "Compile time limit:   "@ + spec_render_millis(metadata.compile_time_limit as int),
        "Compile memory limit: "@ + nat_digits(metadata.compile_memory_limit as int),
        "Test cases:"@,
    ] + Seq::new(
        metadata.testcases@.len(),
        |i: int|
            "  "@ + nat_digits(i + 1) + ": "@ + metadata.testcases@[i].input@ + " -> "@
                + metadata.testcases@[i].output@,
    )
}

/// Build the report lines describing the metadata.
pub fn debug_metadata(metadata: &Metadata) -> (r: Vec<String>)
    requires
        metadata.testcases@.len() < u64::MAX,
    ensures
        crate::languages::strings_views(r@) == spec_debug_metadata_lines(*metadata),
{
    let mut lines: Vec<String> = Vec::new();
    lines.push(text_line("Problem name:         ", metadata.problem_name.as_str()));
    let mut time_chars = str_to_chars("Time limit:           ");
    let time = render_millis(metadata.time_limit);
    push_all(&mut time_chars, time.as_slice());
    lines.push(chars_to_string(&time_chars));
    let mut memory_chars = str_to_chars("Memory limit:         ");
    let memory = render_u64(metadata.memory_limit);
    push_all(&mut memory_chars, memory.as_slice());
    lines.push(chars_to_string(&memory_chars));
    let mut ctime_chars = str_to_chars("Compile time limit:   ");
    let ctime = render_millis(metadata.compile_time_limit);
    push_all(&mut ctime_chars, ctime.as_slice());
    lines.push(chars_to_string(&ctime_chars));
    let mut cmemory_chars = str_to_chars("Compile memory limit: ");
    let cmemory = render_u64(metadata.compile_memory_limit);
    push_all(&mut cmemory_chars, cmemory.as_slice());
    lines.push(chars_to_string(&cmemory_chars));
    lines.push(String::from_str("Test cases:"));
    proof {
        assert(crate::languages::strings_views(lines@) =~~= seq![
            "Problem name:         "@ + metadata.problem_name@,
            "Time limit:           "@ + spec_render_millis(metadata.time_limit as int),
            "Memory limit:         "@ + nat_digits(metadata.memory_limit as int),
            "Compile time limit:   "@ + spec_render_millis(metadata.compile_time_limit as int),
            "Compile memory limit: "@ + nat_digits(metadata.compile_memory_limit as int),
            "Test cases:"@,
        ]);
    }
    let ghost head_views = crate::languages::strings_views(lines@);
    let ghost case_line = (|j: int|
        "  "@ + nat_digits(j + 1) + ": "@ + metadata.testcases@[j].input@ + " -> "@
            + metadata.testcases@[j].output@);
    let n = metadata.testcases.len();
    let mut i: usize = 0;
    proof {
        assert(crate::languages::strings_views(lines@) =~~= head_views + Seq::new(
            0,
            |j: int| case_line(j),
        ));
    }
    while i < n
        invariant
            0 <= i <= n,
            n == metadata.testcases@.len(),
            n < u64::MAX,
            crate::languages::strings_views(lines@) == head_views + Seq::new(
                i as nat,
                |j: int| case_line(j),
            ),
            case_line == (|j: int|
                "  "@ + nat_digits(j + 1) + ": "@ + metadata.testcases@[j].input@ + " -> "@
                    + metadata.testcases@[j].output@),
        decreases n - i,
    {
        let tc = &metadata.testcases[i];
        let mut chars = str_to_chars("  ");
        let number = render_u64((i as u64) + 1);
        push_all(&mut chars, number.as_slice());
        let sep = str_to_chars(": ");
        push_all(&mut chars, sep.as_slice());
        let input = str_to_chars(tc.input.as_str());
        push_all(&mut chars, input.as_slice());
        let arrow = str_to_chars(" -> ");
        push_all(&mut chars, arrow.as_slice());
        let output = str_to_chars(tc.output.as_str());
        push_all(&mut chars, output.as_slice());
        let ghost prev = lines@;
        let line = chars_to_string(&chars);
        proof {
            assert(line@ =~= case_line(i as int));
        }
        lines.push(line);
        proof {
            crate::languages::lemma_strings_views_push(prev, lines@[lines@.len() - 1]);
            assert((head_views + Seq::new(i as nat, |j: int| case_line(j))).push(case_line(i as int))
                =~= head_views + Seq::new((i + 1) as nat, |j: int| case_line(j)));
        }
        i = i + 1;
    }
    proof {
        assert(crate::languages::strings_views(lines@) =~~= spec_debug_metadata_lines(*metadata));
    }
    lines
}

/// The report lines describing a parsed meta report, an empty value standing
/// for an absent field.
pub open spec fn spec_debug_meta_lines(meta: Meta) -> Seq<Seq<char>> {
    seq![
        "Time: "@ + (match meta.time {
            Some(t) => spec_render_millis(t as int),
            None => ""@,
        }),
        "Time-wall: "@ + (match meta.time_wall {
            Some(t) => spec_render_millis(t as int),
            None => ""@,
        }),
        "Memory: "@ + (match meta.memory {
            Some(v) => nat_digits(v as int),
            None => ""@,
        }),
        "Status: "@ + (match meta.verdict {
            Some(v) => v.spec_code(),
            None => ""@,
        }),
    ]
}

/// Build the report lines describing a parsed meta report.
pub fn debug_meta(meta: &Meta) -> (r: Vec<String>)
    ensures
        crate::languages::strings_views(r@) == spec_debug_meta_lines(*meta),
{
    let mut lines: Vec<String> = Vec::new();
    let mut time_chars = str_to_chars("Time: ");
    if let Some(t) = meta.time {
        let time = render_millis(t);
        push_all(&mut time_chars, time.as_slice());
    }
    proof {
        if meta.time is None {
            reveal_strlit("");
            assert(time_chars@ =~= "Time: "@ + ""@);
        }
    }
    lines.push(chars_to_string(&time_chars));
    let mut wall_chars = str_to_chars("Time-wall: ");
    if let Some(t) = meta.time_wall {
        let wall = render_millis(t);
        push_all(&mut wall_chars, wall.as_slice());
    }
    proof {
        if meta.time_wall is None {
            reveal_strlit("");
            assert(wall_chars@ =~= "Time-wall: "@ + ""@);
        }
    }
    lines.push(chars_to_string(&wall_chars));
    let mut memory_chars = str_to_chars("Memory: ");
    if let Some(v) = meta.memory {
        let memory = render_u64(v);
        push_all(&mut memory_chars, memory.as_slice());
    }
    proof {
        if meta.memory is None {
            reveal_strlit("");
            assert(memory_chars@ =~= "Memory: "@ + ""@);
        }
    }
    lines.push(chars_to_string(&memory_chars));
    let mut verdict_chars = str_to_chars("Status: ");
    if let Some(v) = meta.verdict {
        let code = v.code();
        let code_chars = str_to_chars(code.as_str());
        push_all(&mut verdict_chars, code_chars.as_slice());
    }
    proof {
        if meta.verdict is None {
            reveal_strlit("");
            assert(verdict_chars@ =~= "Status: "@ + ""@);
        }
    }
    lines.push(chars_to_string(&verdict_chars));
    proof {
        assert(crate::languages::strings_views(lines@) =~~= spec_debug_meta_lines(*meta));
    }
    lines
}

} // verus!
