use mdmigrate::locator::Candidate;
use mdmigrate::orchestrate::{BuildOutcome, FailureDetail, Migration};

fn chars(s: &str) -> Vec<char> {
    s.chars().collect()
}

fn string(v: &[char]) -> String {
    v.iter().collect()
}

fn one_candidate() -> (Vec<char>, Vec<Candidate>) {
    let content = chars("mkEnableOption \"widget support\"");
    let cands = vec![Candidate { start: 15, end: 31, requires_parens: true }];
    (content, cands)
}

#[test]
fn matching_build_commits_marker_with_parens() {
    let (content, cands) = one_candidate();
    let mut m = Migration::new(content, cands, chars("the manual\n")).unwrap();
    let attempt = m.current_attempt().unwrap();
    assert_eq!(
        string(&attempt),
        "mkEnableOption (lib.mdDoc \"widget support\")"
    );
    let rec = m.report(BuildOutcome::Output(chars("the manual\n")));
    assert!(rec.is_none());
    assert_eq!(string(&m.content), "mkEnableOption (lib.mdDoc \"widget support\")");
    assert!(m.done());
}

#[test]
fn equivalent_after_normalization_commits() {
    let (content, cands) = one_candidate();
    let mut m = Migration::new(content, cands, chars("a\n\n\nb")).unwrap();
    // The rebuilt output differs only in newline runs: still a commit.
    let rec = m.report(BuildOutcome::Output(chars("a\nb")));
    assert!(rec.is_none());
    assert_eq!(string(&m.content), "mkEnableOption (lib.mdDoc \"widget support\")");
}

#[test]
fn failed_build_records_error_only_and_keeps_content() {
    let (content, cands) = one_candidate();
    let mut m = Migration::new(content, cands, chars("the manual\n")).unwrap();
    let rec = m.report(BuildOutcome::Failure(chars("build failed: boom")));
    let rec = rec.expect("a failure record");
    assert_eq!(string(&rec.before_src), "mkEnableOption \"widget support\"");
    assert_eq!(
        string(&rec.after_src),
        "mkEnableOption (lib.mdDoc \"widget support\")"
    );
    match rec.detail {
        FailureDetail::BuildError { error } => {
            assert_eq!(string(&error), "build failed: boom");
        }
        FailureDetail::Mismatch { .. } => panic!("expected a build error record"),
    }
    assert_eq!(string(&m.content), "mkEnableOption \"widget support\"");
    assert!(m.done());
}

#[test]
fn mismatch_records_both_outputs_and_keeps_content() {
    let (content, cands) = one_candidate();
    let mut m = Migration::new(content, cands, chars("old manual")).unwrap();
    let rec = m.report(BuildOutcome::Output(chars("new manual")));
    let rec = rec.expect("a failure record");
    match rec.detail {
        FailureDetail::Mismatch { before_raw, before_norm, after_raw, after_norm } => {
            assert_eq!(string(&before_raw), "old manual");
            assert_eq!(string(&before_norm), "old manual");
            assert_eq!(string(&after_raw), "new manual");
            assert_eq!(string(&after_norm), "new manual");
        }
        FailureDetail::BuildError { .. } => panic!("expected a mismatch record"),
    }
    assert_eq!(string(&m.content), "mkEnableOption \"widget support\"");
}

#[test]
fn overlapping_spans_are_refused() {
    let content = chars("0123456789");
    let cands = vec![
        Candidate { start: 4, end: 9, requires_parens: false },
        Candidate { start: 2, end: 5, requires_parens: false },
    ];
    assert!(Migration::new(content, cands, chars("x")).is_none());
}

#[test]
fn span_outside_content_is_refused() {
    let content = chars("short");
    let cands = vec![Candidate { start: 0, end: 9, requires_parens: false }];
    assert!(Migration::new(content, cands, chars("x")).is_none());
}

#[test]
fn committed_rewrites_keep_later_spans_valid() {
    // Two spans, processed back to front: committing the later (higher)
    // span leaves the earlier span untouched.
    let content = chars("aa \"<literal>x</literal>\" bb \"<literal>y</literal>\"");
    let cands = vec![
        Candidate { start: 29, end: 51, requires_parens: false },
        Candidate { start: 3, end: 25, requires_parens: false },
    ];
    let mut m = Migration::new(content, cands, chars("out")).unwrap();
    let rec = m.report(BuildOutcome::Output(chars("out")));
    assert!(rec.is_none());
    assert_eq!(
        string(&m.content),
        "aa \"<literal>x</literal>\" bb lib.mdDoc \"`y`\""
    );
    let rec = m.report(BuildOutcome::Output(chars("out")));
    assert!(rec.is_none());
    assert_eq!(
        string(&m.content),
        "aa lib.mdDoc \"`x`\" bb lib.mdDoc \"`y`\""
    );
    assert!(m.done());
}
