use minijudge::judge::{
    apply_compile_result, calc_overall_verdict, fill_all_verdicts, init_judge_output,
    judge_case_checker, judge_case_run, TestcaseOutput,
};
use minijudge::verdict::Verdict;

/// Run one case through both steps, as a worker would, handing it the given
/// observations.
fn judge_one_case(
    prev: &TestcaseOutput,
    run_ok: bool,
    meta_text: Option<&str>,
    checker_ok: bool,
    checker_text: Option<&str>,
) -> TestcaseOutput {
    let (after_run, needs_checker) = judge_case_run(prev, run_ok, meta_text);
    if needs_checker {
        judge_case_checker(&after_run, checker_ok, checker_text)
    } else {
        after_run
    }
}

#[test]
fn test_init_judge_output_waiting() {
    let jo = init_judge_output(3);
    assert_eq!(jo.verdict, Verdict::Wj);
    assert_eq!(jo.time, 0);
    assert_eq!(jo.memory, 0);
    assert_eq!(jo.compile_message, "");
    assert_eq!(jo.testcases.len(), 3);
    for tc in &jo.testcases {
        assert_eq!(tc.verdict, Verdict::Wj);
        assert_eq!(tc.time, 0);
        assert_eq!(tc.memory, 0);
        assert_eq!(tc.checker_output, "");
        assert_eq!(tc.sandbox_output, "");
    }
}

#[test]
fn test_happy_path() {
    // Two test cases, both match: per-case AC/0.10/2048, overall AC/0.10/2048.
    let mut jo = init_judge_output(2);
    let meta_text = "time:0.10\nmax-rss:2048\nstatus:\n";
    for id in 0..2 {
        let finished =
            judge_one_case(&jo.testcases[id], true, Some(meta_text), true, Some("ok\n"));
        assert_eq!(finished.verdict, Verdict::Ac);
        assert_eq!(finished.time, 100);
        assert_eq!(finished.memory, 2048);
        assert_eq!(finished.checker_output, "ok");
        assert_eq!(finished.sandbox_output, meta_text);
        jo.testcases[id] = finished;
    }
    calc_overall_verdict(&mut jo);
    assert_eq!(jo.verdict, Verdict::Ac);
    assert_eq!(jo.time, 100);
    assert_eq!(jo.memory, 2048);
}

#[test]
fn test_tle_short_circuit() {
    // A timed-out case never reaches the checker; overall TLE.
    let mut jo = init_judge_output(1);
    let (after_run, needs_checker) =
        judge_case_run(&jo.testcases[0], true, Some("time:2.001\nstatus:TO\n"));
    assert!(!needs_checker);
    assert_eq!(after_run.verdict, Verdict::Tle);
    jo.testcases[0] = after_run;
    calc_overall_verdict(&mut jo);
    assert_eq!(jo.verdict, Verdict::Tle);
}

#[test]
fn test_wrong_answer() {
    let mut jo = init_judge_output(1);
    let finished = judge_one_case(
        &jo.testcases[0],
        true,
        Some("time:0.05\nmax-rss:1024\n"),
        true,
        Some("wrong answer at line 3"),
    );
    assert_eq!(finished.verdict, Verdict::Wa);
    assert_eq!(finished.checker_output, "wrong answer at line 3");
    jo.testcases[0] = finished;
    calc_overall_verdict(&mut jo);
    assert_eq!(jo.verdict, Verdict::Wa);
}

#[test]
fn test_compile_error_short_circuits() {
    // A failing submission compile marks everything CE and keeps the
    // compiler's diagnostics.
    let mut jo = init_judge_output(3);
    let proceed = apply_compile_result(&mut jo, false, "syntax error\n");
    assert!(!proceed);
    assert_eq!(jo.verdict, Verdict::Ce);
    assert_eq!(jo.compile_message, "syntax error\n");
    assert!(!jo.compile_message.is_empty());
    for tc in &jo.testcases {
        assert_eq!(tc.verdict, Verdict::Ce);
    }
}

#[test]
fn test_compile_success_proceeds() {
    let mut jo = init_judge_output(2);
    let proceed = apply_compile_result(&mut jo, true, "warning: unused variable\n");
    assert!(proceed);
    assert_eq!(jo.verdict, Verdict::Wj);
    assert_eq!(jo.compile_message, "warning: unused variable\n");
    for tc in &jo.testcases {
        assert_eq!(tc.verdict, Verdict::Wj);
    }
}

#[test]
fn test_mixed_verdicts() {
    // Three cases: pass, signal-killed, wrong answer. Overall is the
    // lowest-id rejection: MLE.
    let mut jo = init_judge_output(3);
    let finished = judge_one_case(
        &jo.testcases[0],
        true,
        Some("time:0.01\nmax-rss:100\nstatus:\n"),
        true,
        Some("ok"),
    );
    assert_eq!(finished.verdict, Verdict::Ac);
    jo.testcases[0] = finished;
    let (finished, needs_checker) =
        judge_case_run(&jo.testcases[1], true, Some("time:0.30\nmax-rss:262144\nstatus:SG\n"));
    assert!(!needs_checker);
    assert_eq!(finished.verdict, Verdict::Mle);
    jo.testcases[1] = finished;
    let finished = judge_one_case(
        &jo.testcases[2],
        true,
        Some("time:0.02\nmax-rss:120\n"),
        true,
        Some("wrong answer"),
    );
    assert_eq!(finished.verdict, Verdict::Wa);
    jo.testcases[2] = finished;
    calc_overall_verdict(&mut jo);
    assert_eq!(jo.verdict, Verdict::Mle);
    assert_eq!(jo.time, 300);
    assert_eq!(jo.memory, 262144);
}

#[test]
fn test_isolation_spawn_failure() {
    // The middle case's sandbox could not even be spawned: that case is SE,
    // the others proceed, and the overall verdict is SE.
    let mut jo = init_judge_output(3);
    let ac_meta = "time:0.01\nmax-rss:100\nstatus:\n";
    let finished = judge_one_case(&jo.testcases[0], true, Some(ac_meta), true, Some("ok"));
    jo.testcases[0] = finished;
    let finished = judge_one_case(&jo.testcases[1], false, None, true, Some("ok"));
    assert_eq!(finished.verdict, Verdict::Se);
    jo.testcases[1] = finished;
    let finished = judge_one_case(&jo.testcases[2], true, Some(ac_meta), true, Some("ok"));
    jo.testcases[2] = finished;
    assert_eq!(jo.testcases[0].verdict, Verdict::Ac);
    assert_eq!(jo.testcases[2].verdict, Verdict::Ac);
    calc_overall_verdict(&mut jo);
    assert_eq!(jo.verdict, Verdict::Se);
}

#[test]
fn test_unreadable_meta_is_system_error() {
    let jo = init_judge_output(1);
    let (finished, needs_checker) = judge_case_run(&jo.testcases[0], true, None);
    assert!(!needs_checker);
    assert_eq!(finished.verdict, Verdict::Se);
}

#[test]
fn test_checker_invocation_failure_is_system_error() {
    let jo = init_judge_output(1);
    let (after_run, needs_checker) =
        judge_case_run(&jo.testcases[0], true, Some("time:0.01\nmax-rss:4\n"));
    assert!(needs_checker);
    let finished = judge_case_checker(&after_run, false, None);
    assert_eq!(finished.verdict, Verdict::Se);
}

#[test]
fn test_every_judged_case_leaves_waiting() {
    // However a case goes, its verdict is decided after the pipeline.
    let jo = init_judge_output(1);
    let observations: Vec<(bool, Option<&str>, bool, Option<&str>)> = vec![
        (true, Some("status:TO\n"), true, Some("ok")),
        (true, Some("garbage"), true, Some("ok")),
        (true, Some(""), false, None),
        (false, None, false, None),
        (true, None, true, Some("")),
    ];
    for (run_ok, meta_text, checker_ok, checker_text) in observations {
        let finished =
            judge_one_case(&jo.testcases[0], run_ok, meta_text, checker_ok, checker_text);
        assert_ne!(finished.verdict, Verdict::Wj);
    }
}

#[test]
fn test_fill_all_verdicts() {
    let mut jo = init_judge_output(2);
    jo.testcases[0].time = 42;
    fill_all_verdicts(&mut jo, Verdict::Se);
    assert_eq!(jo.verdict, Verdict::Se);
    assert_eq!(jo.testcases[0].verdict, Verdict::Se);
    assert_eq!(jo.testcases[1].verdict, Verdict::Se);
    assert_eq!(jo.testcases[0].time, 42);
}

#[test]
fn test_overall_verdict_of_no_cases_is_accepted() {
    let mut jo = init_judge_output(0);
    calc_overall_verdict(&mut jo);
    assert_eq!(jo.verdict, Verdict::Ac);
    assert_eq!(jo.time, 0);
    assert_eq!(jo.memory, 0);
}
