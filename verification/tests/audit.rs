use tfe_audit::account::Account;
use tfe_audit::cleanup::{CleanupExecutor, DeletionOutcome};
use tfe_audit::fetch::{parse_accounts_response, FetchError};
use tfe_audit::filter::{cutoff_millis, filter_old_inactive_accounts, RETENTION_WINDOW_MILLIS};
use tfe_audit::gate::should_perform_cleanup;
use tfe_audit::phase::{advance, Phase, PhaseEvent};
use tfe_audit::report::{parse_report, render_report, ReportError};

fn account(name: &str, last_activity_at: Option<&str>) -> Account {
    Account { name: name.to_string(), last_activity_at: last_activity_at.map(|s| s.to_string()) }
}

fn millis_of(rfc3339: &str) -> i64 {
    chrono::DateTime::parse_from_rfc3339(rfc3339).unwrap().timestamp_millis()
}

#[test]
fn test_user_input_yes() {
    let input = b"y\n";
    assert!(should_perform_cleanup(&input[..]));
}

#[test]
fn test_user_input_no() {
    let input = b"n\n";
    assert!(!should_perform_cleanup(&input[..]));
}

#[test]
fn gate_affirmative_forms() {
    assert!(should_perform_cleanup(b"y"));
    assert!(should_perform_cleanup(b"Y"));
    assert!(should_perform_cleanup(b" y \n"));
    assert!(should_perform_cleanup(b"Y\r\n"));
}

#[test]
fn gate_trims_unicode_whitespace() {
    // No-break space (U+00A0) and em space (U+2003) around the token,
    // as `str::trim` would remove them.
    assert!(should_perform_cleanup("\u{a0}y\u{a0}\n".as_bytes()));
    assert!(should_perform_cleanup("\u{2003}Y \n".as_bytes()));
    assert!(should_perform_cleanup("\u{3000}y\u{205f}".as_bytes()));
    assert!(!should_perform_cleanup("\u{a0}\n".as_bytes()));
    assert!(!should_perform_cleanup("\u{2003}n\u{2003}\n".as_bytes()));
}

#[test]
fn gate_negative_forms() {
    assert!(!should_perform_cleanup(b"n"));
    assert!(!should_perform_cleanup(b""));
    assert!(!should_perform_cleanup(b"yes"));
    assert!(!should_perform_cleanup(b"\n"));
    assert!(!should_perform_cleanup(b"y y\n"));
    assert!(!should_perform_cleanup(b"n\ny\n"));
}

#[test]
fn retention_window_is_ninety_days() {
    assert_eq!(RETENTION_WINDOW_MILLIS, 90 * 24 * 60 * 60 * 1000);
    let now = millis_of("2024-01-01T00:00:00Z");
    assert_eq!(cutoff_millis(now), millis_of("2023-10-03T00:00:00Z"));
}

#[test]
fn filter_boundary_is_strict() {
    let now = millis_of("2024-01-01T00:00:00Z");
    let cutoff = cutoff_millis(now);
    let accounts = vec![
        account("at-cutoff", Some("2023-10-03T00:00:00Z")),
        account("just-before", Some("2023-10-02T23:59:59.999Z")),
        account("just-after", Some("2023-10-03T00:00:00.001Z")),
    ];
    let filtered = filter_old_inactive_accounts(&accounts, cutoff);
    assert_eq!(filtered.len(), 1);
    assert_eq!(filtered[0].name, "just-before");
}

#[test]
fn filter_drops_missing_and_unparseable() {
    let cutoff = cutoff_millis(millis_of("2024-01-01T00:00:00Z"));
    let accounts = vec![
        account("no-timestamp", None),
        account("garbage", Some("not-a-date")),
        account("date-only", Some("2020-01-01")),
        account("empty", Some("")),
    ];
    let filtered = filter_old_inactive_accounts(&accounts, cutoff);
    assert_eq!(filtered.len(), 0);
}

#[test]
fn filter_keeps_order_and_duplicates() {
    let cutoff = cutoff_millis(millis_of("2024-01-01T00:00:00Z"));
    let accounts = vec![
        account("a", Some("2020-01-01T00:00:00Z")),
        account("b", Some("2023-12-01T00:00:00Z")),
        account("a", Some("2020-01-01T00:00:00Z")),
        account("c", Some("2019-06-15T12:30:00+02:00")),
    ];
    let filtered = filter_old_inactive_accounts(&accounts, cutoff);
    let names: Vec<&str> = filtered.iter().map(|a| a.name.as_str()).collect();
    assert_eq!(names, vec!["a", "a", "c"]);
}

#[test]
fn test_csv_creation() {
    let old_inactive_accounts =
        vec![account("old-account", Some("2020-01-01T00:00:00Z"))];
    let text = render_report(&old_inactive_accounts);
    let lines: Vec<&str> = text.lines().collect();
    assert_eq!(lines.len(), 2); // Header + 1 record
    assert_eq!(lines[1], "old-account,2020-01-01T00:00:00Z");
    assert_eq!(lines[0], "Name,Last Activity");
}

#[test]
fn report_round_trip_with_quoting() {
    let accounts = vec![
        account("plain", Some("2020-01-01T00:00:00Z")),
        account("with,comma", Some("2020-01-02T00:00:00Z")),
        account("with \"quotes\"", Some("2020-01-03T00:00:00Z")),
        account("multi\nline", Some("2020-01-04T00:00:00Z")),
        account("no-timestamp", None),
        account("", Some("2020-01-05T00:00:00Z")),
    ];
    let text = render_report(&accounts);
    let rows = parse_report(&text).unwrap();
    assert_eq!(rows.len(), accounts.len());
    for (row, a) in rows.iter().zip(accounts.iter()) {
        assert_eq!(row.name, a.name);
        let expected = a.last_activity_at.clone().unwrap_or_default();
        assert_eq!(row.last_activity, expected);
    }
}

#[test]
fn report_agrees_with_csv_reader() {
    let accounts = vec![
        account("with,comma", Some("2020-01-02T00:00:00Z")),
        account("with \"quotes\"", Some("2020-01-03T00:00:00Z")),
        account("multi\nline", None),
    ];
    let text = render_report(&accounts);
    let mut rdr = csv::ReaderBuilder::new().has_headers(false).from_reader(text.as_bytes());
    let records: Vec<csv::StringRecord> = rdr.records().map(|r| r.unwrap()).collect();
    assert_eq!(records.len(), 4); // header + 3 records
    assert_eq!(&records[0][0], "Name");
    assert_eq!(&records[0][1], "Last Activity");
    assert_eq!(&records[1][0], "with,comma");
    assert_eq!(&records[2][0], "with \"quotes\"");
    assert_eq!(&records[2][1], "2020-01-03T00:00:00Z");
    assert_eq!(&records[3][0], "multi\nline");
    assert_eq!(&records[3][1], "");
}

#[test]
fn report_rejects_missing_header() {
    assert_eq!(parse_report(""), Err(ReportError::MissingHeader));
    assert_eq!(parse_report("a,b\n"), Err(ReportError::MissingHeader));
    assert_eq!(
        parse_report("Name;Last Activity\nx,y\n"),
        Err(ReportError::MissingHeader)
    );
}

#[test]
fn report_rejects_malformed_rows() {
    assert_eq!(
        parse_report("Name,Last Activity\nno-newline"),
        Err(ReportError::MalformedRows)
    );
    assert_eq!(
        parse_report("Name,Last Activity\n\"unterminated,x\n"),
        Err(ReportError::MalformedRows)
    );
    assert_eq!(
        parse_report("Name,Last Activity\nstray\"quote,x\n"),
        Err(ReportError::MalformedRows)
    );
    assert_eq!(
        parse_report("Name,Last Activity\nonly-one-field\n"),
        Err(ReportError::MalformedRows)
    );
}

#[test]
fn report_parses_empty_and_plain_rows() {
    let rows = parse_report("Name,Last Activity\n").unwrap();
    assert_eq!(rows.len(), 0);
    let rows = parse_report("Name,Last Activity\na,b\n,\n").unwrap();
    assert_eq!(rows.len(), 2);
    assert_eq!(rows[0].name, "a");
    assert_eq!(rows[0].last_activity, "b");
    assert_eq!(rows[1].name, "");
    assert_eq!(rows[1].last_activity, "");
}

#[test]
fn cleanup_isolates_row_failures() {
    let report = "Name,Last Activity\nA,2020-01-01T00:00:00Z\nB,2020-01-02T00:00:00Z\nC,2020-01-03T00:00:00Z\n";
    let rows = parse_report(report).unwrap();
    let mut exec = CleanupExecutor::new(rows);
    let mut seen: Vec<String> = Vec::new();
    while let Some(target) = exec.current_target() {
        let outcome = if target == "B" {
            DeletionOutcome::Failed("workspace is locked".to_string())
        } else {
            DeletionOutcome::Succeeded
        };
        seen.push(target);
        exec.record(outcome);
    }
    assert!(exec.is_done());
    assert_eq!(seen, vec!["A", "B", "C"]);
    assert_eq!(exec.log.len(), 3);
    assert_eq!(exec.log[0].name, "A");
    assert!(matches!(exec.log[0].outcome, DeletionOutcome::Succeeded));
    assert_eq!(exec.log[1].name, "B");
    match &exec.log[1].outcome {
        DeletionOutcome::Failed(diag) => assert_eq!(diag, "workspace is locked"),
        DeletionOutcome::Succeeded => panic!("the failure for B was lost"),
    }
    assert_eq!(exec.log[2].name, "C");
    assert!(matches!(exec.log[2].outcome, DeletionOutcome::Succeeded));
}

#[test]
fn fetch_rejects_bad_bodies() {
    assert_eq!(parse_accounts_response("not json"), Err(FetchError::InvalidJson));
    assert_eq!(parse_accounts_response("{\"other\":1}"), Err(FetchError::MissingData));
    assert_eq!(parse_accounts_response("{\"data\":5}"), Err(FetchError::MissingData));
}

#[test]
fn fetch_tolerates_partial_records() {
    let body = "{\"data\":[{\"attributes\":{\"name\":\"only-name\"}},{\"attributes\":{\"last-activity-at\":\"2020-01-01T00:00:00Z\"}},{\"attributes\":{\"name\":7,\"last-activity-at\":false}},{}]}";
    let accounts = parse_accounts_response(body).unwrap();
    assert_eq!(accounts.len(), 4);
    assert_eq!(accounts[0].name, "only-name");
    assert_eq!(accounts[0].last_activity_at, None);
    assert_eq!(accounts[1].name, "");
    assert_eq!(accounts[1].last_activity_at.as_deref(), Some("2020-01-01T00:00:00Z"));
    assert_eq!(accounts[2].name, "");
    assert_eq!(accounts[2].last_activity_at, None);
    assert_eq!(accounts[3].name, "");
    assert_eq!(accounts[3].last_activity_at, None);
}

#[test]
fn run_phases_move_forward() {
    let p = Phase::Fetching;
    let p = advance(p, PhaseEvent::FetchSucceeded);
    assert_eq!(p, Phase::Filtering);
    let p = advance(p, PhaseEvent::FilterComputed);
    assert_eq!(p, Phase::Reporting);
    let p = advance(p, PhaseEvent::ReportWritten);
    assert_eq!(p, Phase::AwaitingConfirmation);
    let declined = advance(p, PhaseEvent::Declined);
    assert_eq!(declined, Phase::Skipped);
    assert_eq!(advance(declined, PhaseEvent::SkipAcknowledged), Phase::Done);
    let p = advance(p, PhaseEvent::Confirmed);
    assert_eq!(p, Phase::CleaningUp);
    assert_eq!(advance(p, PhaseEvent::BatchFinished), Phase::Done);
    assert_eq!(advance(Phase::Fetching, PhaseEvent::FetchFailed), Phase::Failed);
}

#[test]
fn end_to_end_one_old_one_recent() {
    let body = "{\"data\":[{\"attributes\":{\"name\":\"old-account\",\"last-activity-at\":\"2020-01-01T00:00:00Z\"}},{\"attributes\":{\"name\":\"new-account\",\"last-activity-at\":\"2023-01-01T00:00:00Z\"}}]}";
    let accounts = parse_accounts_response(body).unwrap();
    assert_eq!(accounts.len(), 2);
    // A reference clock within ninety days of the recent account's
    // activity, so that only the other one counts as inactive.
    let now = millis_of("2023-02-01T00:00:00Z");
    let filtered = filter_old_inactive_accounts(&accounts, cutoff_millis(now));
    assert_eq!(filtered.len(), 1);
    assert_eq!(filtered[0].name, "old-account");
    let text = render_report(&filtered);
    assert_eq!(text.lines().count(), 2); // header + 1 row
}
