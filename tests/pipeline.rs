use zrapport::amount::Amount;
use zrapport::bokio::{JournalEntry, JournalEntryAccount};
use zrapport::cli::date_from_arg;
use zrapport::date::{Date, DateRange};
use zrapport::eskassa::{SIEReportAccount, SIEReportListItem, ZReportListItem};
use zrapport::import::{ImportBatch, ImportRun, ImportStep};
use zrapport::ledger::{create_journal_entry, BuildError};
use zrapport::reconcile::{
    eligible_reports, mark_imported, rakna_importerade_rapporter, reconcile, ReconcileError,
};
use zrapport::select::{resolve_lowered_selection, resolve_selection, SelectionOutcome};
use zrapport::summary::{summary_accounts, summary_row};

fn amount(mantissa: i128, scale: u32) -> Amount {
    Amount { mantissa, scale }
}

fn account(number: &str, mantissa: i128) -> SIEReportAccount {
    SIEReportAccount {
        description: format!("Konto {}", number),
        number: number.to_string(),
        amount: amount(mantissa, 2),
    }
}

fn sie(code: &str, date_time: &str) -> SIEReportListItem {
    SIEReportListItem {
        zreport: code.to_string(),
        report_date_time: date_time.to_string(),
        first_transaction_date_time: date_time.to_string(),
        last_transaction_date_time: date_time.to_string(),
        accounts: vec![account("1910", 10000), account("3001", -8000), account("2611", -2000)],
    }
}

fn zreport(number: u32) -> ZReportListItem {
    ZReportListItem {
        id: format!("id-{}", number),
        number,
        date_time: "2024-06-01T17:30:26".to_string(),
        created_by: "kassör".to_string(),
    }
}

fn entry(title: &str, reversed_by: Option<&str>) -> JournalEntry {
    JournalEntry {
        id: "je-1".to_string(),
        title: title.to_string(),
        journal_entry_number: "V1".to_string(),
        date: "2024-06-01".to_string(),
        items: vec![JournalEntryAccount {
            id: 1,
            account: 1910,
            debit: amount(10000, 2),
            credit: amount(0, 2),
        }],
        reversing_journal_entry_id: None,
        reversed_by_journal_entry_id: reversed_by.map(|s| s.to_string()),
    }
}

/// Drives one import through its steps; `fail_at` names the step whose
/// work fails.
fn run_import(fail_at: Option<ImportStep>, keep_files: bool) -> ImportStep {
    let mut run = ImportRun::new(keep_files);
    let mut steps = 0;
    while !run.is_finished() {
        let ok = Some(run.step) != fail_at;
        run.advance(ok);
        steps += 1;
        assert!(steps < 20);
    }
    run.step
}

/// Reads a `YYYY-MM-DD` date.
fn parse_date_text(s: &str) -> Option<Date> {
    date_from_arg(s, Date { days: 0 })
}

#[test]
fn end_to_end_single_report_is_imported() {
    let day = parse_date_text("2024-06-01").unwrap();
    let window = DateRange::resolve(&Some(day), &Some(day), day);
    assert_eq!(window.start_date, day);
    assert_eq!(window.end_date, day);

    let journal: Vec<JournalEntry> = vec![entry("Kassa 1, Z-Rapport #41", None)];
    let reports = vec![zreport(42)];
    let mut records =
        reconcile(vec![sie("K1:42", "2024-06-01T17:30:26")], &reports, &journal).unwrap();
    assert_eq!(records.len(), 1);
    assert_eq!(eligible_reports(&records), vec![42]);
    assert_eq!(rakna_importerade_rapporter(&records), 0);

    let eligible = eligible_reports(&records);
    let selected = match resolve_selection("", &eligible) {
        SelectionOutcome::All => eligible.clone(),
        other => panic!("unexpected selection {:?}", other),
    };
    assert_eq!(selected, vec![42]);

    let request = create_journal_entry(&records[0].sie).unwrap();
    assert_eq!(request.title, "Kassa 1, Z-Rapport #42");
    assert_eq!(request.date, "2024-06-01");
    assert_eq!(run_import(None, false), ImportStep::Done);

    let created = entry(&request.title, None);
    mark_imported(&mut records, 42, created);
    assert!(eligible_reports(&records).is_empty());
    assert_eq!(rakna_importerade_rapporter(&records), 1);
    let booked = records[0].verifikat.as_ref().unwrap();
    assert_eq!(booked.title, "Kassa 1, Z-Rapport #42");
    assert_eq!(booked.date, "2024-06-01");
}

#[test]
fn failed_create_abandons_rest_of_batch() {
    let journal: Vec<JournalEntry> = Vec::new();
    let reports = vec![zreport(8), zreport(5)];
    let listing = || vec![sie("K1:8", "2024-06-02T17:00:00"), sie("K1:5", "2024-06-01T17:00:00")];
    let mut records = reconcile(listing(), &reports, &journal).unwrap();

    let mut batch = ImportBatch::new(vec![5, 8]);
    let mut attempted = Vec::new();
    while let Some(n) = batch.current() {
        attempted.push(n);
        let fail_at = if n == 5 { Some(ImportStep::CreateLedgerEntry) } else { None };
        let outcome = run_import(fail_at, false);
        if outcome == ImportStep::Done {
            mark_imported(&mut records, n, entry("Kassa 1, Z-Rapport #8", None));
        }
        batch.finish_report(outcome);
    }
    assert_eq!(attempted, vec![5]);
    assert!(batch.aborted);
    assert_eq!(eligible_reports(&records), vec![8, 5]);

    let again = reconcile(listing(), &reports, &journal).unwrap();
    assert_eq!(eligible_reports(&again), vec![8, 5]);
}

#[test]
fn import_steps_in_order() {
    let mut run = ImportRun::new(false);
    let expected = [
        ImportStep::FetchDocument,
        ImportStep::FetchStructuredExport,
        ImportStep::PersistArtifacts,
        ImportStep::CreateLedgerEntry,
        ImportStep::UploadAttachment,
        ImportStep::Cleanup,
        ImportStep::Done,
    ];
    for step in expected {
        run.advance(true);
        assert_eq!(run.step, step);
    }
    run.advance(false);
    assert_eq!(run.step, ImportStep::Done);
}

#[test]
fn import_upload_and_cleanup_failures_are_not_fatal() {
    assert_eq!(run_import(Some(ImportStep::UploadAttachment), false), ImportStep::Done);
    assert_eq!(run_import(Some(ImportStep::Cleanup), false), ImportStep::Done);
    assert_eq!(run_import(Some(ImportStep::UploadAttachment), true), ImportStep::Done);
}

#[test]
fn import_fetch_and_persist_failures_are_fatal() {
    assert_eq!(run_import(Some(ImportStep::FetchDocument), false), ImportStep::Failed);
    assert_eq!(run_import(Some(ImportStep::FetchStructuredExport), false), ImportStep::Failed);
    assert_eq!(run_import(Some(ImportStep::PersistArtifacts), true), ImportStep::Failed);
}

#[test]
fn keeping_files_skips_cleanup() {
    let mut run = ImportRun::new(true);
    for _ in 0..5 {
        run.advance(true);
    }
    assert_eq!(run.step, ImportStep::UploadAttachment);
    run.advance(true);
    assert_eq!(run.step, ImportStep::Done);
}

#[test]
fn batch_runs_all_when_nothing_fails() {
    let mut batch = ImportBatch::new(vec![3, 7, 9]);
    let mut attempted = Vec::new();
    while let Some(n) = batch.current() {
        attempted.push(n);
        batch.finish_report(ImportStep::Done);
    }
    assert_eq!(attempted, vec![3, 7, 9]);
    assert!(!batch.aborted);
}

#[test]
fn reversed_entry_is_never_a_match() {
    let journal = vec![entry("Kassa 1, Z-Rapport #42", Some("je-2"))];
    let records =
        reconcile(vec![sie("K1:42", "2024-06-01T17:30:26")], &vec![zreport(42)], &journal)
            .unwrap();
    assert!(records[0].verifikat.is_none());
    assert_eq!(eligible_reports(&records), vec![42]);
}

#[test]
fn title_match_ignores_case() {
    let journal = vec![
        entry("Kassa 1, Z-Rapport #42", Some("je-9")),
        entry("kassa 1, z-rapport #42", None),
    ];
    let records =
        reconcile(vec![sie("K1:42", "2024-06-01T17:30:26")], &vec![zreport(42)], &journal)
            .unwrap();
    let m = records[0].verifikat.as_ref().unwrap();
    assert_eq!(m.title, "kassa 1, z-rapport #42");
    assert!(eligible_reports(&records).is_empty());
    assert_eq!(rakna_importerade_rapporter(&records), 1);
}

#[test]
fn malformed_source_code_fails_reconciliation() {
    let r = reconcile(
        vec![sie("K1:42", "2024-06-01T17:30:26"), sie("Z1-9", "2024-06-01T17:30:26")],
        &vec![zreport(42)],
        &Vec::new(),
    );
    match r {
        Err(ReconcileError::MalformedSourceCode { code }) => assert_eq!(code, "Z1-9"),
        other => panic!("unexpected {:?}", other.map(|v| v.len())),
    }
}

#[test]
fn orphan_report_fails_reconciliation() {
    let r = reconcile(vec![sie("K2:43", "2024-06-01T17:30:26")], &vec![zreport(42)], &Vec::new());
    match r {
        Err(ReconcileError::OrphanReport { number }) => assert_eq!(number, 43),
        other => panic!("unexpected {:?}", other.map(|v| v.len())),
    }
}

#[test]
fn bare_number_code_is_accepted() {
    let records =
        reconcile(vec![sie("17", "2024-06-01T17:30:26")], &vec![zreport(17)], &Vec::new()).unwrap();
    assert_eq!(records[0].report.number, 17);
    assert_eq!(records[0].sie.verifikatnamn(), "17");
}

#[test]
fn reconciliation_partition_counts_every_report() {
    let journal = vec![entry("Kassa 1, Z-Rapport #2", None)];
    let reports = vec![zreport(1), zreport(2), zreport(3)];
    let sies = vec![
        sie("K1:3", "2024-06-03T17:00:00"),
        sie("K1:2", "2024-06-02T17:00:00"),
        sie("K1:1", "2024-06-01T17:00:00"),
    ];
    let records = reconcile(sies, &reports, &journal).unwrap();
    let eligible = eligible_reports(&records);
    assert_eq!(eligible, vec![3, 1]);
    assert_eq!(eligible.len() + rakna_importerade_rapporter(&records), records.len());
}

#[test]
fn reconciliation_twice_gives_same_partition() {
    let journal = vec![entry("Kassa 1, Z-Rapport #2", None)];
    let reports = vec![zreport(1), zreport(2)];
    let listing = || vec![sie("K1:2", "2024-06-02T17:00:00"), sie("K1:1", "2024-06-01T17:00:00")];
    let a = reconcile(listing(), &reports, &journal).unwrap();
    let b = reconcile(listing(), &reports, &journal).unwrap();
    assert_eq!(eligible_reports(&a), eligible_reports(&b));
    assert_eq!(rakna_importerade_rapporter(&a), rakna_importerade_rapporter(&b));
}

#[test]
fn selector_empty_and_yes_select_all() {
    let eligible = vec![3, 7, 9];
    assert_eq!(resolve_lowered_selection("", &eligible), SelectionOutcome::All);
    assert_eq!(resolve_lowered_selection("y", &eligible), SelectionOutcome::All);
    assert_eq!(resolve_lowered_selection("yes\n", &eligible), SelectionOutcome::All);
    assert_eq!(resolve_lowered_selection("  j ", &eligible), SelectionOutcome::All);
    assert_eq!(resolve_selection("Y\n", &eligible), SelectionOutcome::All);
}

#[test]
fn selector_no_selects_nothing() {
    let eligible = vec![3, 7, 9];
    assert_eq!(resolve_lowered_selection("no", &eligible), SelectionOutcome::Nothing);
    assert_eq!(resolve_lowered_selection("q\n", &eligible), SelectionOutcome::Nothing);
    assert_eq!(resolve_selection("N", &eligible), SelectionOutcome::Nothing);
}

#[test]
fn selector_rejects_ineligible_number() {
    let eligible = vec![3, 7, 9];
    assert_eq!(resolve_lowered_selection("7 99", &eligible), SelectionOutcome::Invalid);
    assert_eq!(resolve_lowered_selection("7 x", &eligible), SelectionOutcome::Invalid);
}

#[test]
fn selector_collapses_duplicates() {
    let eligible = vec![3, 7, 9];
    assert_eq!(resolve_lowered_selection("7 7", &eligible), SelectionOutcome::Subset(vec![7]));
    assert_eq!(
        resolve_lowered_selection("9\t3  9 7\n", &eligible),
        SelectionOutcome::Subset(vec![9, 3, 7])
    );
}

#[test]
fn builder_splits_amounts() {
    let mut report = sie("K1:42", "2024-06-01T17:30:26");
    report.accounts.push(account("3002", 0));
    let request = create_journal_entry(&report).unwrap();
    assert_eq!(request.items.len(), 4);
    assert_eq!(request.items[0].account, 1910);
    assert_eq!(request.items[0].debit, amount(10000, 2));
    assert_eq!(request.items[0].credit, amount(0, 2));
    assert_eq!(request.items[1].account, 3001);
    assert_eq!(request.items[1].debit, amount(0, 2));
    assert_eq!(request.items[1].credit, amount(8000, 2));
    assert_eq!(request.items[3].debit, amount(0, 2));
    assert_eq!(request.items[3].credit, amount(0, 2));
    for (line, acc) in request.items.iter().zip(report.accounts.iter()) {
        assert_eq!(line.debit.mantissa - line.credit.mantissa, acc.amount.mantissa);
        assert_eq!(line.debit.scale, acc.amount.scale);
    }
}

#[test]
fn builder_rejects_non_integer_account() {
    let mut report = sie("K1:42", "2024-06-01T17:30:26");
    report.accounts.push(account("19x0", 5));
    match create_journal_entry(&report) {
        Err(BuildError::InvalidAccountNumber { number }) => assert_eq!(number, "19x0"),
        Ok(_) => panic!("expected an error"),
    }
}

#[test]
fn summary_columns_are_sorted_asset_accounts() {
    let mut first = sie("K1:2", "2024-06-02T17:00:00");
    first.accounts.push(SIEReportAccount {
        description: "Bank".to_string(),
        number: "1930".to_string(),
        amount: amount(500, 2),
    });
    let mut second = sie("K1:1", "2024-06-01T17:00:00");
    second.accounts.insert(0, SIEReportAccount {
        description: "Kortterminal".to_string(),
        number: "1580".to_string(),
        amount: amount(250, 2),
    });
    let records = reconcile(vec![first, second], &vec![zreport(1), zreport(2)], &Vec::new()).unwrap();
    let columns = summary_accounts(&records);
    let numbers: Vec<&str> = columns.iter().map(|c| c.number.as_str()).collect();
    assert_eq!(numbers, vec!["1580", "1910", "1930"]);
    let names: Vec<&str> = columns.iter().map(|c| c.description.as_str()).collect();
    assert_eq!(names, vec!["KORTTERMINAL", "KONTO 1910", "BANK"]);
    let row = summary_row(&records[0].sie, &columns);
    assert_eq!(row, vec![amount(0, 0), amount(10000, 2), amount(500, 2)]);
    let row = summary_row(&records[1].sie, &columns);
    assert_eq!(row, vec![amount(250, 2), amount(10000, 2), amount(0, 0)]);
}
