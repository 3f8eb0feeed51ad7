use minijudge::communications::{
    render_judge_output_json, render_submission_event, render_testcase_event, UpdateEvent,
    EVENT_SUBMISSION, EVENT_TESTCASE,
};
use minijudge::judge::{JudgeOutput, TestcaseOutput};
use minijudge::verdict::Verdict;

fn testcase(verdict: Verdict, time: u64, memory: u64, checker: &str, sandbox: &str) -> TestcaseOutput {
    TestcaseOutput {
        verdict,
        time,
        memory,
        checker_output: checker.to_string(),
        sandbox_output: sandbox.to_string(),
    }
}

#[test]
fn test_render_testcase_event() {
    let tc = testcase(Verdict::Ac, 100, 2048, "ok", "time:0.10\nstatus:\n");
    let event = UpdateEvent { event_type: EVENT_TESTCASE.to_string(), event: &tc };
    let json = render_testcase_event(&event);
    let expected = "{\"event_type\":\"testcase\",\"event\":{\"verdict\":\"AC\",\"time\":0.100,\"memory\":2048,\"checker_output\":\"ok\",\"sandbox_output\":\"time:0.10\\nstatus:\\n\"}}";
    assert_eq!(json, expected);
}

#[test]
fn test_json_escaping() {
    let tc = testcase(Verdict::Wa, 0, 0, "a\"b\\c\td\re\u{1}", "");
    let event = UpdateEvent { event_type: EVENT_TESTCASE.to_string(), event: &tc };
    let json = render_testcase_event(&event);
    assert!(json.contains("\"checker_output\":\"a\\\"b\\\\c\\td\\re\\u0001\""));
}

#[test]
fn test_render_judge_output_json() {
    let jo = JudgeOutput {
        verdict: Verdict::Mle,
        time: 300,
        memory: 262144,
        compile_message: "".to_string(),
        testcases: vec![
            testcase(Verdict::Ac, 10, 100, "ok", ""),
            testcase(Verdict::Mle, 300, 262144, "", ""),
        ],
    };
    let json = render_judge_output_json(&jo);
    let mut expected = String::new();
    expected.push_str("{\"verdict\":\"MLE\",\"time\":0.300,\"memory\":262144,");
    expected.push_str("\"compile_message\":\"\",\"testcases\":[");
    expected.push_str("{\"verdict\":\"AC\",\"time\":0.010,\"memory\":100,");
    expected.push_str("\"checker_output\":\"ok\",\"sandbox_output\":\"\"},");
    expected.push_str("{\"verdict\":\"MLE\",\"time\":0.300,\"memory\":262144,");
    expected.push_str("\"checker_output\":\"\",\"sandbox_output\":\"\"}]}");
    assert_eq!(json, expected);
}

#[test]
fn test_render_submission_event() {
    let jo = JudgeOutput {
        verdict: Verdict::Ac,
        time: 100,
        memory: 2048,
        compile_message: "".to_string(),
        testcases: vec![],
    };
    let event = UpdateEvent { event_type: EVENT_SUBMISSION.to_string(), event: &jo };
    let json = render_submission_event(&event);
    let expected = "{\"event_type\":\"submission\",\"event\":{\"verdict\":\"AC\",\"time\":0.100,\"memory\":2048,\"compile_message\":\"\",\"testcases\":[]}}";
    assert_eq!(json, expected);
}

#[test]
fn test_verdict_codes() {
    assert_eq!(Verdict::Ac.code(), "AC");
    assert_eq!(Verdict::Wa.code(), "WA");
    assert_eq!(Verdict::Tle.code(), "TLE");
    assert_eq!(Verdict::Mle.code(), "MLE");
    assert_eq!(Verdict::Re.code(), "RE");
    assert_eq!(Verdict::Ce.code(), "CE");
    assert_eq!(Verdict::Se.code(), "SE");
    assert_eq!(Verdict::Wj.code(), "WJ");
}
