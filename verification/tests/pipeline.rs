use asroute::{render, Annotator, LineOutput, ResolutionError};

#[test]
fn scenario_reserved_line() {
    let mut annotator = Annotator::new();
    let out = annotator.process_line("1  [AS0] 192.168.8.1 (192.168.8.1)  3.722 ms");
    assert_eq!(render(&out), Some("-> AS0 (Reserved)".to_string()));
}

#[test]
fn scenario_no_response_line() {
    let mut annotator = Annotator::new();
    let out = annotator.process_line(" 8  * * *");
    assert_eq!(render(&out), Some("-> *".to_string()));
}

#[test]
fn scenario_resolved_name_rendering() {
    // The rendering of a successful resolution: a name carrying
    // CLOUDFLARE comes out behind the arrow marker unchanged.
    let out = LineOutput::Resolved("CLOUDFLARENET, US".to_string());
    let rendered = render(&out).unwrap();
    assert_eq!(rendered, "-> CLOUDFLARENET, US");
    assert!(rendered.contains("CLOUDFLARE"));
}

#[test]
fn scenario_duplicate_suppressed() {
    let mut annotator = Annotator::new();
    let first = annotator.process_line("12  [AS13335] 172.67.6.216  17.510 ms");
    let second = annotator.process_line("13  [AS13335] 172.67.6.217  18.104 ms");
    // The first line attempts a resolution; the second is suppressed
    // and emits nothing, so at most one output line is produced.
    assert!(matches!(
        first,
        LineOutput::Resolved(_) | LineOutput::Failed(ResolutionError::LookupFailed { .. })
    ));
    assert!(matches!(second, LineOutput::Suppressed));
    assert_eq!(render(&second), None);
}

#[test]
fn scenario_dedup_resets_on_change() {
    let mut annotator = Annotator::new();
    let first = annotator.process_line("1  [AS13335] 1.1.1.1");
    let second = annotator.process_line("2  [AS7018] 2.2.2.2");
    let third = annotator.process_line("3  [AS13335] 1.0.0.1");
    // A, B, A: suppression reaches only immediately consecutive
    // duplicates, so all three lines are resolution-eligible.
    for out in [&first, &second, &third] {
        assert!(matches!(
            out,
            LineOutput::Resolved(_) | LineOutput::Failed(ResolutionError::LookupFailed { .. })
        ));
    }
}

#[test]
fn scenario_failure_is_contained() {
    let mut annotator = Annotator::new();
    // A malformed identifier fails at the parsing stage; the run goes on
    // and the following lines are handled normally.
    let bad = annotator.process_line("4  [ASbogus] 10.1.1.1");
    assert!(matches!(
        bad,
        LineOutput::Failed(ResolutionError::InvalidIdentifier { .. })
    ));
    let next = annotator.process_line(" 5  * * *");
    assert_eq!(render(&next), Some("-> *".to_string()));
    let eligible = annotator.process_line("6  [AS7018] 10.1.1.2");
    assert!(matches!(
        eligible,
        LineOutput::Resolved(_) | LineOutput::Failed(ResolutionError::LookupFailed { .. })
    ));
}

#[test]
fn scenario_missing_brackets() {
    let mut annotator = Annotator::new();
    let out = annotator.process_line("7  10.0.0.7  3.2 ms");
    assert!(matches!(out, LineOutput::MissingIdentifier));
    assert_eq!(render(&out), None);
    // The stream goes on: the next line still produces its marker.
    let next = annotator.process_line(" 8  * * *");
    assert_eq!(render(&next), Some("-> *".to_string()));
}

#[test]
fn retry_after_parse_failure_is_not_suppressed() {
    let mut annotator = Annotator::new();
    // A token whose numeric portion does not parse never advances the
    // dedup slot, so the same token is reattempted on the next line.
    let first = annotator.process_line("1  [AS?extra] 10.0.0.1");
    let second = annotator.process_line("2  [AS?extra] 10.0.0.2");
    assert!(matches!(
        first,
        LineOutput::Failed(ResolutionError::InvalidIdentifier { .. })
    ));
    assert!(matches!(
        second,
        LineOutput::Failed(ResolutionError::InvalidIdentifier { .. })
    ));
}
