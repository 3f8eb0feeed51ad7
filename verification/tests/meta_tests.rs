use minijudge::meta::{apply_checker_output, parse_meta, render_meta, Meta};
use minijudge::verdict::Verdict;

#[test]
fn test_parse_meta_happy_path() {
    // An empty status means the sandbox considers the run successful.
    let meta = parse_meta("time:0.10\nmax-rss:2048\nstatus:\n");
    assert_eq!(meta.time, Some(100));
    assert_eq!(meta.memory, Some(2048));
    assert_eq!(meta.verdict, None);
    assert_eq!(meta.time_wall, None);
    assert_eq!(meta.exit_code, None);
}

#[test]
fn test_parse_meta_status_mapping() {
    assert_eq!(parse_meta("status:TO\n").verdict, Some(Verdict::Tle));
    assert_eq!(parse_meta("status:SG\n").verdict, Some(Verdict::Mle));
    assert_eq!(parse_meta("status:RE\n").verdict, Some(Verdict::Re));
    assert_eq!(parse_meta("status:XX\n").verdict, Some(Verdict::Se));
}

#[test]
fn test_parse_meta_all_fields() {
    let meta = parse_meta("time:1.234\ntime-wall:2.5\nmax-rss:65536\nexitcode:-9\nstatus:RE\n");
    assert_eq!(meta.time, Some(1234));
    assert_eq!(meta.time_wall, Some(2500));
    assert_eq!(meta.memory, Some(65536));
    assert_eq!(meta.exit_code, Some(-9));
    assert_eq!(meta.verdict, Some(Verdict::Re));
}

#[test]
fn test_parse_meta_ignores_noise() {
    // Unknown keys, lines without a colon and unparseable values are dropped.
    let meta = parse_meta("cg-mem:123\nno colon here\ntime:abc\nmax-rss:\n");
    assert_eq!(meta.time, None);
    assert_eq!(meta.memory, None);
    assert_eq!(meta.verdict, None);
}

#[test]
fn test_parse_meta_later_lines_overwrite() {
    let meta = parse_meta("time:1\ntime:2.5\n");
    assert_eq!(meta.time, Some(2500));
}

#[test]
fn test_parse_meta_fraction_truncated() {
    let meta = parse_meta("time:0.1239\n");
    assert_eq!(meta.time, Some(123));
}

#[test]
fn test_render_parse_round_trip() {
    let meta = Meta {
        time: Some(104),
        time_wall: Some(2500),
        memory: Some(65536),
        exit_code: Some(-9),
        verdict: Some(Verdict::Tle),
    };
    let text = render_meta(&meta);
    assert_eq!(parse_meta(&text), meta);
}

#[test]
fn test_render_parse_round_trip_sparse() {
    let meta = Meta { time: None, time_wall: None, memory: Some(0), exit_code: None, verdict: None };
    let text = render_meta(&meta);
    assert_eq!(parse_meta(&text), meta);
    let empty = Meta { time: None, time_wall: None, memory: None, exit_code: None, verdict: None };
    assert_eq!(parse_meta(&render_meta(&empty)), empty);
}

fn no_verdict_meta() -> Meta {
    Meta { time: Some(100), time_wall: None, memory: Some(2048), exit_code: Some(0), verdict: None }
}

#[test]
fn test_checker_mapping_ok() {
    let meta = apply_checker_output(&no_verdict_meta(), "ok");
    assert_eq!(meta.verdict, Some(Verdict::Ac));
}

#[test]
fn test_checker_mapping_ok_with_diagnostics() {
    let meta = apply_checker_output(&no_verdict_meta(), "ok 2 tokens");
    assert_eq!(meta.verdict, Some(Verdict::Ac));
}

#[test]
fn test_checker_mapping_wrong_answer() {
    let meta = apply_checker_output(&no_verdict_meta(), "wrong answer");
    assert_eq!(meta.verdict, Some(Verdict::Wa));
}

#[test]
fn test_checker_mapping_empty_rejects() {
    let meta = apply_checker_output(&no_verdict_meta(), "");
    assert_eq!(meta.verdict, Some(Verdict::Wa));
}

#[test]
fn test_checker_does_not_override_sandbox_verdict() {
    let mut meta = no_verdict_meta();
    meta.verdict = Some(Verdict::Tle);
    let meta = apply_checker_output(&meta, "ok");
    assert_eq!(meta.verdict, Some(Verdict::Tle));
}
