use hashcc::manifest::{
    check_containment, dispose_line, judge_probe, outcome_of_containment, prepare_record, tally,
    ContainmentVerdict, HashProbe, LineDisposition, ParsedLine, RecordStep, VerificationOutcome,
};
use hashcc::pathpol::resolve_path;

fn parse(line: &str) -> ParsedLine {
    ParsedLine::parse(line)
}

#[test]
fn parse_simple_record() {
    match parse("abc123  some/file.txt") {
        ParsedLine::Record { hash, path } => {
            assert_eq!(hash, "abc123");
            assert_eq!(path, "some/file.txt");
        }
        other => panic!("expected a record, got {:?}", other),
    }
}

#[test]
fn parse_single_space_separator() {
    match parse("deadbeef x") {
        ParsedLine::Record { hash, path } => {
            assert_eq!(hash, "deadbeef");
            assert_eq!(path, "x");
        }
        other => panic!("expected a record, got {:?}", other),
    }
}

#[test]
fn parse_keeps_inner_whitespace_of_path() {
    match parse("ff  a path with spaces.txt") {
        ParsedLine::Record { hash, path } => {
            assert_eq!(hash, "ff");
            assert_eq!(path, "a path with spaces.txt");
        }
        other => panic!("expected a record, got {:?}", other),
    }
}

#[test]
fn parse_trims_trailing_whitespace() {
    match parse("ff  p.txt \t ") {
        ParsedLine::Record { hash, path } => {
            assert_eq!(hash, "ff");
            assert_eq!(path, "p.txt");
        }
        other => panic!("expected a record, got {:?}", other),
    }
}

#[test]
fn parse_handles_multibyte_path() {
    match parse("00ff  caf\u{e9}/na\u{ef}ve.txt") {
        ParsedLine::Record { hash, path } => {
            assert_eq!(hash, "00ff");
            assert_eq!(path, "caf\u{e9}/na\u{ef}ve.txt");
        }
        other => panic!("expected a record, got {:?}", other),
    }
}

#[test]
fn containment_handles_multibyte_path() {
    let verdict = check_containment(
        Some(&"/data".to_string()),
        Some(&"/data/caf\u{e9}.txt".to_string()),
    );
    assert_eq!(verdict, ContainmentVerdict::Contained);
}

#[test]
fn parse_blank_lines() {
    assert!(matches!(parse(""), ParsedLine::Blank));
    assert!(matches!(parse("   "), ParsedLine::Blank));
    assert!(matches!(parse("\t"), ParsedLine::Blank));
}

#[test]
fn parse_malformed_lines() {
    // No separator: no path field.
    assert!(matches!(parse("abc123"), ParsedLine::Malformed));
    // Leading whitespace: empty hash field.
    assert!(matches!(parse(" abc p"), ParsedLine::Malformed));
    // Separator but nothing after it once trimmed.
    assert!(matches!(parse("abc   "), ParsedLine::Malformed));
}

#[test]
fn absolute_path_rejected_without_opt_in() {
    let r = prepare_record(&"/etc/passwd".to_string(), false, None);
    assert!(matches!(
        r,
        RecordStep::Rejected(VerificationOutcome::InvalidPath)
    ));
}

#[test]
fn line_disposition_follows_the_parse() {
    assert!(matches!(
        dispose_line(ParsedLine::parse("")),
        LineDisposition::Skip
    ));
    assert!(matches!(
        dispose_line(ParsedLine::parse("orphanhash")),
        LineDisposition::Decided(VerificationOutcome::ReadOrParseError)
    ));
    match dispose_line(ParsedLine::parse("aa  f.txt")) {
        LineDisposition::Verify { hash, path } => {
            assert_eq!(hash, "aa");
            assert_eq!(path, "f.txt");
        }
        other => panic!("expected a record to verify, got {:?}", other),
    }
}

#[test]
fn containment_verdicts_map_to_outcomes() {
    assert_eq!(
        outcome_of_containment(&ContainmentVerdict::BaseUnresolvable),
        Some(VerificationOutcome::ReadOrParseError)
    );
    assert_eq!(
        outcome_of_containment(&ContainmentVerdict::Escapes),
        Some(VerificationOutcome::InvalidPath)
    );
    assert_eq!(outcome_of_containment(&ContainmentVerdict::Contained), None);
}

#[test]
fn absolute_path_allowed_with_opt_in() {
    match prepare_record(&"/etc/hosts".to_string(), true, None) {
        RecordStep::Resolved { resolved, needs_containment } => {
            assert_eq!(resolved, "/etc/hosts");
            assert!(!needs_containment);
        }
        other => panic!("expected resolution, got {:?}", other),
    }
}

#[test]
fn relative_path_joined_onto_base() {
    match prepare_record(&"sub/f.txt".to_string(), false, Some(&"/data".to_string())) {
        RecordStep::Resolved { resolved, needs_containment } => {
            assert_eq!(resolved, "/data/sub/f.txt");
            assert!(needs_containment);
        }
        other => panic!("expected resolution, got {:?}", other),
    }
}

#[test]
fn base_with_trailing_separator_joins_cleanly() {
    let r = resolve_path(&"f.txt".to_string(), Some(&"/data/".to_string()));
    assert_eq!(r, "/data/f.txt");
}

#[test]
fn no_base_leaves_path_unchanged() {
    let r = resolve_path(&"rel/f.txt".to_string(), None);
    assert_eq!(r, "rel/f.txt");
}

#[test]
fn escape_reported_as_invalid_path() {
    // base_dir /data, manifest entry ../../etc/passwd: after resolution
    // and canonicalization the path lies outside the base.
    match prepare_record(
        &"../../etc/passwd".to_string(),
        false,
        Some(&"/data".to_string()),
    ) {
        RecordStep::Resolved { resolved, needs_containment } => {
            assert_eq!(resolved, "/data/../../etc/passwd");
            assert!(needs_containment);
        }
        other => panic!("expected resolution, got {:?}", other),
    }
    let verdict = check_containment(
        Some(&"/data".to_string()),
        Some(&"/etc/passwd".to_string()),
    );
    assert_eq!(verdict, ContainmentVerdict::Escapes);
    // The pipeline reaches no probe and no hashing for this record: the
    // verdict alone decides the outcome.
}

#[test]
fn sibling_directory_with_common_prefix_escapes() {
    let verdict = check_containment(
        Some(&"/data".to_string()),
        Some(&"/database/x".to_string()),
    );
    assert_eq!(verdict, ContainmentVerdict::Escapes);
}

#[test]
fn path_inside_base_is_contained() {
    let verdict = check_containment(
        Some(&"/data".to_string()),
        Some(&"/data/sub/f.txt".to_string()),
    );
    assert_eq!(verdict, ContainmentVerdict::Contained);
    let same = check_containment(Some(&"/data".to_string()), Some(&"/data".to_string()));
    assert_eq!(same, ContainmentVerdict::Contained);
}

#[test]
fn unresolvable_base_is_a_hard_error() {
    let verdict = check_containment(None, Some(&"/data/f".to_string()));
    assert_eq!(verdict, ContainmentVerdict::BaseUnresolvable);
}

#[test]
fn uncanonicalizable_path_passes_to_the_missing_check() {
    let verdict = check_containment(Some(&"/data".to_string()), None);
    assert_eq!(verdict, ContainmentVerdict::Contained);
}

#[test]
fn judge_missing_and_unreadable() {
    let expected = "aa".to_string();
    assert_eq!(
        judge_probe(&expected, &HashProbe::Absent),
        VerificationOutcome::Missing
    );
    assert_eq!(
        judge_probe(&expected, &HashProbe::Unreadable),
        VerificationOutcome::ReadOrParseError
    );
}

#[test]
fn judge_matched_and_mismatched() {
    let expected = "5d41402abc4b2a76b9719d911017c592".to_string();
    assert_eq!(
        judge_probe(
            &expected,
            &HashProbe::Computed("5d41402abc4b2a76b9719d911017c592".to_string())
        ),
        VerificationOutcome::Matched
    );
    assert_eq!(
        judge_probe(
            &expected,
            &HashProbe::Computed("5d41402abc4b2a76b9719d911017c593".to_string())
        ),
        VerificationOutcome::Mismatched
    );
}

#[test]
fn three_line_manifest_outcome_scenario() {
    // One good hash, one wrong hash, one missing file.
    let outcomes = vec![
        VerificationOutcome::Matched,
        VerificationOutcome::Mismatched,
        VerificationOutcome::Missing,
    ];
    let counts = tally(&outcomes);
    assert_eq!(counts.ok, 1);
    assert_eq!(counts.failed, 1);
    assert_eq!(counts.missing, 1);
    assert_eq!(counts.invalid_path, 0);
    assert_eq!(counts.errors, 0);
    assert!(!counts.is_clean());
    assert_eq!(counts.exit_code(), 1);
}

#[test]
fn clean_run_signals_success() {
    let outcomes = vec![VerificationOutcome::Matched, VerificationOutcome::Matched];
    let counts = tally(&outcomes);
    assert_eq!(counts.ok, 2);
    assert!(counts.is_clean());
    assert_eq!(counts.exit_code(), 0);
}

#[test]
fn every_outcome_lands_in_its_counter() {
    let outcomes = vec![
        VerificationOutcome::ReadOrParseError,
        VerificationOutcome::InvalidPath,
        VerificationOutcome::Matched,
        VerificationOutcome::InvalidPath,
    ];
    let counts = tally(&outcomes);
    assert_eq!(counts.ok, 1);
    assert_eq!(counts.failed, 0);
    assert_eq!(counts.missing, 0);
    assert_eq!(counts.invalid_path, 2);
    assert_eq!(counts.errors, 1);
    assert_eq!(counts.exit_code(), 1);
}
