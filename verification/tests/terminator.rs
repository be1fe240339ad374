use focus_session::terminate::{outcome_from_results, parse_pid_lines, TerminationOutcome};

#[test]
fn enumeration_output_parses_one_pid_per_line() {
    assert_eq!(parse_pid_lines("123\n456\n"), vec![123, 456]);
    assert_eq!(parse_pid_lines("123\n456"), vec![123, 456]);
    assert_eq!(parse_pid_lines("7"), vec![7]);
}

#[test]
fn empty_enumeration_output_means_zero_matches() {
    assert_eq!(parse_pid_lines(""), Vec::<u32>::new());
    assert_eq!(parse_pid_lines("\n"), Vec::<u32>::new());
    assert_eq!(parse_pid_lines("\n\n"), Vec::<u32>::new());
}

#[test]
fn malformed_lines_name_no_process() {
    assert_eq!(parse_pid_lines("12\nabc\n34"), vec![12, 34]);
    assert_eq!(parse_pid_lines("12\n\n34\n"), vec![12, 34]);
    assert_eq!(parse_pid_lines("99999999999999999999\n5"), vec![5]);
}

#[test]
fn zero_matches_is_not_an_error() {
    let outcome = outcome_from_results(&vec![]);
    assert!(outcome.matched.is_empty());
    assert!(outcome.killed.is_empty());
    assert!(outcome.failed.is_empty());
}

#[test]
fn one_kill_failing_does_not_abort_the_batch() {
    // Process 10's kill is refused (say, permission denied) while process
    // 11 with the same identity is killed: both are reported, each under
    // its own result.
    let outcome = outcome_from_results(&vec![(10, false), (11, true)]);
    assert_eq!(
        outcome,
        TerminationOutcome { matched: vec![10, 11], killed: vec![11], failed: vec![10] }
    );
}

#[test]
fn every_match_is_reported_exactly_once() {
    let outcome = outcome_from_results(&vec![(1, true), (2, false), (3, true), (4, true)]);
    assert_eq!(outcome.matched, vec![1, 2, 3, 4]);
    assert_eq!(outcome.killed, vec![1, 3, 4]);
    assert_eq!(outcome.failed, vec![2]);
    assert_eq!(
        outcome.killed.len() + outcome.failed.len(),
        outcome.matched.len()
    );
}
