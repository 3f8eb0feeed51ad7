//! Per-case and whole-submission verdict records, the per-case judging step
//! machine, and the aggregation of case outcomes into an overall verdict.

use vstd::prelude::*;

use crate::meta::{parse_meta, spec_parse_meta, spec_fold_meta_lines, spec_apply_meta_line, Meta};
use crate::text::{chars_to_string, spec_starts_with, spec_trim, starts_with_chars, str_to_chars,
    trim_chars};
use crate::verdict::Verdict;

verus! {

/// The judged outcome of one test case. Time is in milliseconds, memory in
/// KiB; `sandbox_output` holds the raw meta report, `checker_output` the
/// trimmed checker diagnostics.
#[derive(Clone, Debug)]
pub struct TestcaseOutput {
    pub verdict: Verdict,
    pub time: u64,
    pub memory: u64,
    pub checker_output: String,
    pub sandbox_output: String,
}

/// The mathematical content of a `TestcaseOutput`.
pub struct TestcaseOutputView {
    pub verdict: Verdict,
    pub time: u64,
    pub memory: u64,
    pub checker_output: Seq<char>,
    pub sandbox_output: Seq<char>,
}

impl View for TestcaseOutput {
    type V = TestcaseOutputView;

    open spec fn view(&self) -> TestcaseOutputView {
        TestcaseOutputView {
            verdict: self.verdict,
            time: self.time,
            memory: self.memory,
            checker_output: self.checker_output@,
            sandbox_output: self.sandbox_output@,
        }
    }
}

impl TestcaseOutput {
    /// The initial record of a case nobody has judged yet.
    pub fn waiting() -> (r: TestcaseOutput)
        ensures
            r@ == TestcaseOutput::spec_waiting(),
    {
        TestcaseOutput {
            verdict: Verdict::Wj,
            time: 0,
            memory: 0,
            checker_output: String::new(),
            sandbox_output: String::new(),
        }
    }

    /// The record of a case nobody has judged yet.
    pub open spec fn spec_waiting() -> TestcaseOutputView {
        TestcaseOutputView {
            verdict: Verdict::Wj,
            time: 0,
            memory: 0,
            checker_output: Seq::<char>::empty(),
            sandbox_output: Seq::<char>::empty(),
        }
    }

    /// A copy of this record.
    pub fn duplicate(&self) -> (r: TestcaseOutput)
        ensures
            r@ == self@,
    {
        TestcaseOutput {
            verdict: self.verdict,
            time: self.time,
            memory: self.memory,
            checker_output: self.checker_output.clone(),
            sandbox_output: self.sandbox_output.clone(),
        }
    }
}

/// The judged outcome of a whole submission, one case record per test case,
/// in test-case order.
#[derive(Clone, Debug)]
pub struct JudgeOutput {
    pub verdict: Verdict,
    pub time: u64,
    pub memory: u64,
    pub compile_message: String,
    pub testcases: Vec<TestcaseOutput>,
}

/// The views of all case records of a judge output.
pub open spec fn cases_views(cases: Seq<TestcaseOutput>) -> Seq<TestcaseOutputView> {
    cases.map_values(|c: TestcaseOutput| c@)
}

/// A fresh judge output: everything waiting, nothing measured.
pub fn init_judge_output(n: usize) -> (r: JudgeOutput)
    ensures
        r.verdict == Verdict::Wj,
        r.time == 0,
        r.memory == 0,
        r.compile_message@ == Seq::<char>::empty(),
        r.testcases@.len() == n,
        forall|i: int| 0 <= i < n ==> (#[trigger] r.testcases@[i])@ == TestcaseOutput::spec_waiting(),
{
    let mut testcases: Vec<TestcaseOutput> = Vec::new();
    let mut i: usize = 0;
    while i < n
        invariant
            0 <= i <= n,
            testcases@.len() == i,
            forall|j: int|
                0 <= j < i ==> (#[trigger] testcases@[j])@ == TestcaseOutput::spec_waiting(),
        decreases n - i,
    {
        testcases.push(TestcaseOutput::waiting());
        i = i + 1;
    }
    JudgeOutput {
        verdict: Verdict::Wj,
        time: 0,
        memory: 0,
        compile_message: String::new(),
        testcases,
    }
}

/// The largest measured time over all cases, zero when there are none.
pub open spec fn spec_max_time(cases: Seq<TestcaseOutput>) -> int
    decreases cases.len(),
{
    if cases.len() == 0 {
        0
    } else {
        let rest = spec_max_time(cases.drop_last());
        if cases.last().time > rest {
            cases.last().time as int
        } else {
            rest
        }
    }
}

/// The largest measured memory over all cases, zero when there are none.
pub open spec fn spec_max_memory(cases: Seq<TestcaseOutput>) -> int
    decreases cases.len(),
{
    if cases.len() == 0 {
        0
    } else {
        let rest = spec_max_memory(cases.drop_last());
        if cases.last().memory > rest {
            cases.last().memory as int
        } else {
            rest
        }
    }
}

/// The index of the first case, by id, that was not accepted.
pub open spec fn spec_first_non_ac(cases: Seq<TestcaseOutput>) -> Option<int>
    decreases cases.len(),
{
    if cases.len() == 0 {
        None
    } else if cases[0].verdict != Verdict::Ac {
        Some(0)
    } else {
        match spec_first_non_ac(cases.skip(1)) {
            Some(i) => Some(i + 1),
            None => None,
        }
    }
}

/// The submission-level outcome, the verdict of the lowest-id rejected
/// case, or accepted when every case is.
pub open spec fn spec_overall_verdict(cases: Seq<TestcaseOutput>) -> Verdict {
    match spec_first_non_ac(cases) {
        None => Verdict::Ac,
        Some(i) => cases[i].verdict,
    }
}

/// What the first-rejected index means: when there is none, every case is
/// accepted; when there is one, it is rejected and every earlier case is
/// accepted.
pub proof fn lemma_first_non_ac_props(cases: Seq<TestcaseOutput>)
    ensures
        match spec_first_non_ac(cases) {
            None => forall|i: int|
                0 <= i < cases.len() ==> (#[trigger] cases[i]).verdict == Verdict::Ac,
            Some(k) => 0 <= k < cases.len() && cases[k].verdict != Verdict::Ac && (forall|j: int|
                0 <= j < k ==> (#[trigger] cases[j]).verdict == Verdict::Ac),
        },
    decreases cases.len(),
{
    if cases.len() > 0 && cases[0].verdict == Verdict::Ac {
        let t = cases.skip(1);
        lemma_first_non_ac_props(t);
        match spec_first_non_ac(t) {
            None => {
                assert forall|i: int|
                    0 <= i < cases.len() implies (#[trigger] cases[i]).verdict == Verdict::Ac by {
                    if i > 0 {
                        assert(t[i - 1] == cases[i]);
                    }
                }
            },
            Some(k) => {
                assert(cases[k + 1] == t[k]);
                assert forall|j: int|
                    0 <= j < k + 1 implies (#[trigger] cases[j]).verdict == Verdict::Ac by {
                    if j > 0 {
                        assert(t[j - 1] == cases[j]);
                    }
                }
            },
        }
    }
}

/// A case record's measured resources are never negative: its time and
/// memory are counts, whatever path produced them.
pub proof fn lemma_case_resources_nonneg(t: TestcaseOutput)
    ensures
        t.time >= 0,
        t.memory >= 0,
{
}

/// The submission is accepted exactly when every case is.
pub proof fn lemma_overall_verdict_ac_iff(cases: Seq<TestcaseOutput>)
    ensures
        (spec_overall_verdict(cases) == Verdict::Ac) <==> (forall|i: int|
            0 <= i < cases.len() ==> (#[trigger] cases[i]).verdict == Verdict::Ac),
{
    lemma_first_non_ac_props(cases);
}

/// When some case is rejected, the submission's verdict is that of the
/// lowest-id rejected case.
pub proof fn lemma_overall_verdict_first_rejected(cases: Seq<TestcaseOutput>, i: int)
    requires
        0 <= i < cases.len(),
        cases[i].verdict != Verdict::Ac,
        forall|j: int| 0 <= j < i ==> (#[trigger] cases[j]).verdict == Verdict::Ac,
    ensures
        spec_first_non_ac(cases) == Some(i),
        spec_overall_verdict(cases) == cases[i].verdict,
{
    lemma_first_non_ac_props(cases);
    match spec_first_non_ac(cases) {
        None => {
            assert(cases[i].verdict == Verdict::Ac);
        },
        Some(k) => {
            if k < i {
                assert(cases[k].verdict == Verdict::Ac);
            }
            if i < k {
                assert(cases[i].verdict == Verdict::Ac);
            }
        },
    }
}

/// Fold the measured times, memories and verdicts of the cases into the
/// submission record: maximum time, maximum memory, and the verdict of the
/// lowest-id rejected case, or accepted when every case is.
pub fn calc_overall_verdict(judge_output: &mut JudgeOutput)
    ensures
        final(judge_output).time == spec_max_time(old(judge_output).testcases@),
        final(judge_output).memory == spec_max_memory(old(judge_output).testcases@),
        final(judge_output).verdict == spec_overall_verdict(old(judge_output).testcases@),
        final(judge_output).testcases == old(judge_output).testcases,
        final(judge_output).compile_message == old(judge_output).compile_message,
{
    let n = judge_output.testcases.len();
    let ghost cases = judge_output.testcases@;
    let mut max_time: u64 = 0;
    let mut i: usize = 0;
    while i < n
        invariant
            0 <= i <= n,
            judge_output == old(judge_output),
            n == cases.len(),
            cases == judge_output.testcases@,
            max_time == spec_max_time(cases.take(i as int)),
        decreases n - i,
    {
        proof {
            assert(cases.take(i + 1).drop_last() =~= cases.take(i as int));
            assert(cases.take(i + 1).last() == cases[i as int]);
        }
        let t = judge_output.testcases[i].time;
        if t > max_time {
            max_time = t;
        }
        i = i + 1;
    }
    proof {
        assert(cases.take(n as int) =~= cases);
    }
    let mut max_memory: u64 = 0;
    let mut i: usize = 0;
    while i < n
        invariant
            0 <= i <= n,
            judge_output == old(judge_output),
            n == cases.len(),
            cases == judge_output.testcases@,
            max_memory == spec_max_memory(cases.take(i as int)),
        decreases n - i,
    {
        proof {
            assert(cases.take(i + 1).drop_last() =~= cases.take(i as int));
            assert(cases.take(i + 1).last() == cases[i as int]);
        }
        let mem = judge_output.testcases[i].memory;
        if mem > max_memory {
            max_memory = mem;
        }
        i = i + 1;
    }
    proof {
        assert(cases.take(n as int) =~= cases);
    }
    let mut overall: Verdict = Verdict::Ac;
    let mut i: usize = 0;
    loop
        invariant_except_break
            0 <= i <= n,
            judge_output == old(judge_output),
            n == cases.len(),
            cases == judge_output.testcases@,
            overall == Verdict::Ac,
            forall|j: int| 0 <= j < i ==> (#[trigger] cases[j]).verdict == Verdict::Ac,
        ensures
            judge_output == old(judge_output),
            overall == spec_overall_verdict(cases),
        decreases n - i,
    {
        if i == n {
            proof {
                lemma_first_non_ac_props(cases);
                match spec_first_non_ac(cases) {
                    None => {},
                    Some(k) => {
                        assert(cases[k].verdict == Verdict::Ac);
                    },
                }
            }
            break ;
        }
        let v = judge_output.testcases[i].verdict;
        if !(v == Verdict::Ac) {
            proof {
                lemma_overall_verdict_first_rejected(cases, i as int);
            }
            overall = v;
            break ;
        }
        i = i + 1;
    }
    judge_output.time = max_time;
    judge_output.memory = max_memory;
    judge_output.verdict = overall;
}

/// The verdict a case carries after the run step: a failed invocation or an
/// unreadable meta report is a system error; otherwise the meta report's
/// verdict when it has one, and the previous verdict when it has none.
pub open spec fn spec_case_run_verdict(
    prev: Verdict,
    run_ok: bool,
    meta_text: Option<Seq<char>>,
) -> Verdict {
    if run_ok && meta_text is Some {
        match spec_parse_meta(meta_text->0).verdict {
            Some(v) => v,
            None => prev,
        }
    } else {
        Verdict::Se
    }
}

/// Whether the checker still has to judge the case: only when the run was
/// observed and its meta report fixed no verdict.
pub open spec fn spec_case_needs_checker(run_ok: bool, meta_text: Option<Seq<char>>) -> bool {
    run_ok && meta_text is Some && spec_parse_meta(meta_text->0).verdict is None
}

/// The verdict the checker step fixes: a failed checker invocation is a
/// system error; otherwise trimmed checker output starting with `ok` accepts
/// and anything else rejects.
pub open spec fn spec_checker_verdict(checker_ok: bool, checker_text: Option<Seq<char>>) -> Verdict {
    if !checker_ok {
        Verdict::Se
    } else if checker_text is Some && spec_starts_with(spec_trim(checker_text->0), "ok"@) {
        Verdict::Ac
    } else {
        Verdict::Wa
    }
}

/// The verdict a case ends with, over both steps.
pub open spec fn spec_case_final_verdict(
    prev: Verdict,
    run_ok: bool,
    meta_text: Option<Seq<char>>,
    checker_ok: bool,
    checker_text: Option<Seq<char>>,
) -> Verdict {
    if spec_case_needs_checker(run_ok, meta_text) {
        spec_checker_verdict(checker_ok, checker_text)
    } else {
        spec_case_run_verdict(prev, run_ok, meta_text)
    }
}

/// A meta report can only fix a verdict that the status mapping produces.
pub proof fn lemma_fold_meta_verdict_range(m: Meta, lines: Seq<Seq<char>>)
    requires
        m.verdict matches Some(v) ==> (v == Verdict::Re || v == Verdict::Mle || v == Verdict::Tle
            || v == Verdict::Se),
    ensures
        spec_fold_meta_lines(m, lines).verdict matches Some(v) ==> (v == Verdict::Re || v
            == Verdict::Mle || v == Verdict::Tle || v == Verdict::Se),
    decreases lines.len(),
{
    if lines.len() > 0 {
        lemma_fold_meta_verdict_range(spec_apply_meta_line(m, lines[0]), lines.skip(1));
    }
}

/// A parsed meta report never carries a waiting, accepted, rejected or
/// compile-error outcome, only what the status mapping yields.
pub proof fn lemma_parse_meta_verdict_range(s: Seq<char>)
    ensures
        spec_parse_meta(s).verdict matches Some(v) ==> (v == Verdict::Re || v == Verdict::Mle || v
            == Verdict::Tle || v == Verdict::Se),
{
    lemma_fold_meta_verdict_range(Meta::spec_empty(), crate::text::spec_split(s, '\n'));
}

/// A case that went through the run step and, when called for, the checker
/// step never ends in the waiting state.
pub proof fn lemma_case_verdict_decided(
    run_ok: bool,
    meta_text: Option<Seq<char>>,
    checker_ok: bool,
    checker_text: Option<Seq<char>>,
)
    ensures
        spec_case_final_verdict(Verdict::Wj, run_ok, meta_text, checker_ok, checker_text)
            != Verdict::Wj,
{
    if !spec_case_needs_checker(run_ok, meta_text) && run_ok && meta_text is Some {
        lemma_parse_meta_verdict_range(meta_text->0);
    }
}

/// No case is left waiting: in a judge output each of whose cases was
/// finalized through the two-step pipeline, every verdict is decided.
pub proof fn lemma_no_case_left_waiting(cases: Seq<TestcaseOutput>)
    requires
        forall|i: int|
            0 <= i < cases.len() ==> exists|
                run_ok: bool,
                meta_text: Option<Seq<char>>,
                checker_ok: bool,
                checker_text: Option<Seq<char>>,
            |
                (#[trigger] cases[i]).verdict == spec_case_final_verdict(
                    Verdict::Wj,
                    run_ok,
                    meta_text,
                    checker_ok,
                    checker_text,
                ),
    ensures
        forall|i: int| 0 <= i < cases.len() ==> (#[trigger] cases[i]).verdict != Verdict::Wj,
{
    assert forall|i: int|
        0 <= i < cases.len() implies (#[trigger] cases[i]).verdict != Verdict::Wj by {
        let (run_ok, meta_text, checker_ok, checker_text) = choose|
            run_ok: bool,
            meta_text: Option<Seq<char>>,
            checker_ok: bool,
            checker_text: Option<Seq<char>>,
        |
            cases[i].verdict == spec_case_final_verdict(
                Verdict::Wj,
                run_ok,
                meta_text,
                checker_ok,
                checker_text,
            );
        lemma_case_verdict_decided(run_ok, meta_text, checker_ok, checker_text);
    }
}

/// The run step of judging one case. Takes the case's current record, whether
/// the sandboxed run could be observed at all, and the raw meta report when
/// it could be read; gives the updated record and whether the checker step
/// still has to run.
pub fn judge_case_run(prev: &TestcaseOutput, run_ok: bool, meta_text: Option<&str>) -> (r: (
    TestcaseOutput,
    bool,
))
    ensures
        r.1 == spec_case_needs_checker(
            run_ok,
            match meta_text {
                Some(t) => Some(t@),
                None => None,
            },
        ),
        r.0.verdict == spec_case_run_verdict(
            prev.verdict,
            run_ok,
            match meta_text {
                Some(t) => Some(t@),
                None => None,
            },
        ),
        r.0@.checker_output == prev@.checker_output,
        !(run_ok && meta_text is Some) ==> r.0.time == prev.time && r.0.memory == prev.memory
            && r.0@.sandbox_output == prev@.sandbox_output,
        run_ok ==> (meta_text matches Some(t) ==> ({
            let meta = spec_parse_meta(t@);
            &&& r.0.time == (match meta.time {
                Some(v) => v,
                None => prev.time,
            })
            &&& r.0.memory == (match meta.memory {
                Some(v) => v,
                None => prev.memory,
            })
            &&& r.0@.sandbox_output == t@
        })),
{
    let mut out = prev.duplicate();
    if !run_ok {
        out.verdict = Verdict::Se;
        return (out, false);
    }
    match meta_text {
        None => {
            out.verdict = Verdict::Se;
            (out, false)
        },
        Some(t) => {
            let meta = parse_meta(t);
            if let Some(time) = meta.time {
                out.time = time;
            }
            if let Some(memory) = meta.memory {
                out.memory = memory;
            }
            if let Some(verdict) = meta.verdict {
                out.verdict = verdict;
            }
            out.sandbox_output = String::from_str(t);
            let needs_checker = meta.verdict.is_none();
            (out, needs_checker)
        },
    }
}

/// The checker step of judging one case. Takes the record the run step left,
/// whether the checker invocation could be observed, and the raw text the
/// checker wrote; gives the finalized record. The checker's output is read
/// only after a successful invocation, so a successful invocation must come
/// with its text.
pub fn judge_case_checker(cur: &TestcaseOutput, checker_ok: bool, checker_text: Option<&str>) -> (r:
    TestcaseOutput)
    requires
        checker_ok ==> checker_text is Some,
    ensures
        r.verdict == spec_checker_verdict(
            checker_ok,
            match checker_text {
                Some(t) => Some(t@),
                None => None,
            },
        ),
        r.time == cur.time,
        r.memory == cur.memory,
        r@.sandbox_output == cur@.sandbox_output,
        !checker_ok ==> r@.checker_output == cur@.checker_output,
        checker_ok ==> r@.checker_output == spec_trim(checker_text->0@),
{
    let mut out = cur.duplicate();
    if !checker_ok {
        out.verdict = Verdict::Se;
        return out;
    }
    let text = match checker_text {
        Some(t) => t,
        None => {
            // Unreachable: a successful invocation comes with text.
            return out;
        },
    };
    let chars = str_to_chars(text);
    let trimmed = trim_chars(chars.as_slice());
    let ok_prefix = str_to_chars("ok");
    if starts_with_chars(trimmed.as_slice(), ok_prefix.as_slice()) {
        out.verdict = Verdict::Ac;
    } else {
        out.verdict = Verdict::Wa;
    }
    out.checker_output = chars_to_string(&trimmed);
    out
}

/// Set the submission verdict and every case verdict to `v`, touching nothing
/// else. This is the compile-error and system-error short-circuit.
pub fn fill_all_verdicts(judge_output: &mut JudgeOutput, v: Verdict)
    ensures
        final(judge_output).verdict == v,
        final(judge_output).time == old(judge_output).time,
        final(judge_output).memory == old(judge_output).memory,
        final(judge_output).compile_message == old(judge_output).compile_message,
        final(judge_output).testcases@.len() == old(judge_output).testcases@.len(),
        forall|i: int|
            0 <= i < old(judge_output).testcases@.len() ==> (#[trigger] final(judge_output).testcases@[i])@ == (TestcaseOutputView {
                verdict: v,
                ..old(judge_output).testcases@[i]@
            }),
{
    let n = judge_output.testcases.len();
    let mut updated: Vec<TestcaseOutput> = Vec::new();
    let mut i: usize = 0;
    while i < n
        invariant
            0 <= i <= n,
            judge_output == old(judge_output),
            n == judge_output.testcases@.len(),
            updated@.len() == i,
            forall|j: int|
                0 <= j < i ==> (#[trigger] updated@[j])@ == (TestcaseOutputView {
                    verdict: v,
                    ..old(judge_output).testcases@[j]@
                }),
        decreases n - i,
    {
        let mut case = judge_output.testcases[i].duplicate();
        case.verdict = v;
        updated.push(case);
        i = i + 1;
    }
    judge_output.testcases = updated;
    judge_output.verdict = v;
}

/// Record the submission compile's outcome: its diagnostics always become the
/// compile message; a failing exit short-circuits the submission and every
/// case to a compile error. Returns whether judging should proceed.
pub fn apply_compile_result(judge_output: &mut JudgeOutput, success: bool, stderr: &str) -> (proceed:
    bool)
    ensures
        proceed == success,
        final(judge_output).compile_message@ == stderr@,
        final(judge_output).time == old(judge_output).time,
        final(judge_output).memory == old(judge_output).memory,
        final(judge_output).testcases@.len() == old(judge_output).testcases@.len(),
        success ==> final(judge_output).verdict == old(judge_output).verdict && final(judge_output).testcases == old(judge_output).testcases,
        !success ==> final(judge_output).verdict == Verdict::Ce && (forall|i: int|
            0 <= i < old(judge_output).testcases@.len() ==> (#[trigger] final(judge_output).testcases@[i])@ == (TestcaseOutputView {
                verdict: Verdict::Ce,
                ..old(judge_output).testcases@[i]@
            })),
        stderr@.len() > 0 ==> final(judge_output).compile_message@.len() > 0,
{
    judge_output.compile_message = String::from_str(stderr);
    if success {
        return true;
    }
    fill_all_verdicts(judge_output, Verdict::Ce);
    false
}

} // verus!
