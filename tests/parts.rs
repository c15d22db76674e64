use zrapport::amount::Amount;
use zrapport::bokio::{next_journal_page, Bokio, JournalEntry, PageReq, scan_journal_page};
use zrapport::cli::date_from_arg;
use zrapport::date::{format_local_date, Date, DateRange, MAX_DAYS, MIN_DAYS};
use zrapport::eskassa::{machine_for_id, DinKassa, Machine, SIEReportAccount, SIEReportListItem, ZReportListItem};
use zrapport::prompt::trim_text;
use zrapport::select::split_words;
use zrapport::text::{parse_i32, parse_u32, u32_text};

fn d(days: i32) -> Date {
    Date { days }
}

fn report(code: &str, date_time: &str) -> SIEReportListItem {
    SIEReportListItem {
        zreport: code.to_string(),
        report_date_time: date_time.to_string(),
        first_transaction_date_time: String::new(),
        last_transaction_date_time: String::new(),
        accounts: vec![
            SIEReportAccount { description: "Kassa".to_string(), number: "1910".to_string(), amount: Amount { mantissa: 1250, scale: 2 } },
            SIEReportAccount { description: "Moms".to_string(), number: "2611".to_string(), amount: Amount { mantissa: -250, scale: 2 } },
            SIEReportAccount { description: "Kassa igen".to_string(), number: "1910".to_string(), amount: Amount { mantissa: 7, scale: 0 } },
        ],
    }
}

fn machine(name: &str, customer: &str, id: &str) -> Machine {
    Machine { customer_name: customer.to_string(), name: name.to_string(), id: id.to_string() }
}

fn listed(title: &str, date: &str) -> JournalEntry {
    JournalEntry {
        id: format!("{}@{}", title, date),
        title: title.to_string(),
        journal_entry_number: "V7".to_string(),
        date: date.to_string(),
        items: Vec::new(),
        reversing_journal_entry_id: None,
        reversed_by_journal_entry_id: None,
    }
}

/// Reads a `YYYY-MM-DD` date.
fn parse_date_text(s: &str) -> Option<Date> {
    date_from_arg(s, Date { days: 0 })
}

#[test]
fn window_both_dates_given() {
    let r = DateRange::resolve(&Some(d(10)), &Some(d(12)), d(50));
    assert_eq!((r.start_date, r.end_date), (d(10), d(12)));
}

#[test]
fn window_start_only_ends_today() {
    let r = DateRange::resolve(&Some(d(10)), &None, d(50));
    assert_eq!((r.start_date, r.end_date), (d(10), d(50)));
}

#[test]
fn window_end_in_future_starts_today() {
    let r = DateRange::resolve(&None, &Some(d(60)), d(50));
    assert_eq!((r.start_date, r.end_date), (d(50), d(60)));
}

#[test]
fn window_end_in_past_is_single_day() {
    let r = DateRange::resolve(&None, &Some(d(40)), d(50));
    assert_eq!((r.start_date, r.end_date), (d(40), d(40)));
    let r = DateRange::resolve(&None, &Some(d(50)), d(50));
    assert_eq!((r.start_date, r.end_date), (d(50), d(50)));
}

#[test]
fn window_defaults_to_today() {
    let r = DateRange::resolve(&None, &None, d(50));
    assert_eq!((r.start_date, r.end_date), (d(50), d(50)));
    let now = DateRange::new(&None, &None);
    assert_eq!(now.start_date, now.end_date);
}

#[test]
fn dates_are_day_numbers() {
    let a = parse_date_text("2024-06-01").unwrap();
    let b = parse_date_text("2024-05-18").unwrap();
    assert_eq!(a.days - b.days, 14);
    assert_eq!(parse_date_text("0001-01-01").unwrap(), d(1));
    assert!(parse_date_text("2024-13-01").is_none());
}

#[test]
fn report_title_and_number() {
    let r = report("K12:345", "2024-06-01T17:30:26");
    assert_eq!(r.verifikatnamn(), "Kassa 12, Z-Rapport #345");
    assert_eq!(r.number(), Some(345));
    assert_eq!(r.datum(), "2024-06-01");
    let bare = report("+5", "2024");
    assert_eq!(bare.number(), Some(5));
    assert_eq!(bare.verifikatnamn(), "+5");
    assert_eq!(bare.datum(), "2024");
    assert_eq!(report("K1:", "x").number(), None);
    assert_eq!(report("K1:99999999999", "x").number(), None);
    assert_eq!(report(":1", "x").verifikatnamn(), ":1");
}

#[test]
fn konto_takes_first_line_of_account() {
    let r = report("K1:1", "2024-06-01");
    assert_eq!(r.konto("1910"), Some(Amount { mantissa: 1250, scale: 2 }));
    assert_eq!(r.konto("2611"), Some(Amount { mantissa: -250, scale: 2 }));
    assert_eq!(r.konto("3000"), None);
}

#[test]
fn machine_is_found_by_id() {
    let items = vec![machine("Kassa A", "Café", "m1"), machine("Kassa B", "Bar", "m2")];
    let m = machine_for_id(&items, "m2".to_string());
    assert_eq!(m.name, "Kassa B");
    let fallback = machine_for_id(&items, "m9".to_string());
    assert_eq!(fallback.name, "kassa");
    assert_eq!(fallback.customer_name, "");
    assert_eq!(fallback.id, "m9");
}

#[test]
fn basename_names_register_and_customer() {
    let item = ZReportListItem { id: "r".to_string(), number: 42, date_time: String::new(), created_by: String::new() };
    let kassa = DinKassa::new("https://example.test/api", machine("Kassa1", "Kaffebaren", "m1"));
    assert_eq!(kassa.zreport_basename(&item), "Z42_Kassa1_Kaffebaren");
    let kassa = DinKassa::new("https://example.test/api", machine("kassa", "", "m1"));
    assert_eq!(kassa.zreport_basename(&item), "Z42_kassa");
    assert_eq!(kassa.base_url, "https://example.test/api");
    let files = kassa.zreport_artifacts(&item);
    assert_eq!(files.pdf, "Z42_kassa.pdf");
    assert_eq!(files.sie4, "Z42_kassa.si");
    assert_eq!(files.json, "Z42_kassa.json");
    assert_eq!(files.request_json, "Z42_kassa.bokio.json");
    assert_eq!(files.entry_json, "Z42_kassa.verifikat.json");
}

#[test]
fn bokio_urls_and_header() {
    let b = Bokio::new("https://api.example.test", "c-1", "SECRET-REDACTED");
    assert_eq!(b.auth_header, "Bearer SECRET-REDACTED");
    assert_eq!(b.journal_entries_url(), "https://api.example.test/companies/c-1/journal-entries");
    assert_eq!(b.uploads_url(), "https://api.example.test/companies/c-1/uploads");
    assert_eq!(
        b.journal_page_url(&PageReq { page: 3, size: 100 }),
        "https://api.example.test/companies/c-1/journal-entries?page=3&pageSize=100"
    );
}

#[test]
fn journal_page_stops_before_window() {
    let start = parse_date_text("2024-05-18").unwrap();
    let end = parse_date_text("2024-06-01").unwrap();
    let items = vec![
        listed("Kassa 1, Z-Rapport #9", "2024-06-02"),
        listed("Kassa 1, Z-Rapport #8", "2024-06-01"),
        listed("Hyra juni", "2024-05-30"),
        listed("Kassa 1, Z-Rapport #7", "2024-05-18"),
        listed("Kassa 1, Z-Rapport #6", "2024-05-17"),
        listed("Kassa 1, Z-Rapport #5", "not a date"),
    ];
    let page = scan_journal_page(&items, Some(start), Some(end)).unwrap();
    let titles: Vec<&str> = page.kept.iter().map(|e| e.title.as_str()).collect();
    assert_eq!(titles, vec!["Kassa 1, Z-Rapport #8", "Kassa 1, Z-Rapport #7"]);
    assert!(page.reached_end);
}

#[test]
fn journal_page_without_bounds_filters_titles() {
    let items = vec![listed("Kassa 2, Z-Rapport #1", "x"), listed("Lön", "y")];
    let page = scan_journal_page(&items, None, None).unwrap();
    assert_eq!(page.kept.len(), 1);
    assert!(!page.reached_end);
}

#[test]
fn journal_page_with_bad_date_fails() {
    let items = vec![listed("Kassa 2, Z-Rapport #1", "2024/06/01")];
    assert!(scan_journal_page(&items, None, Some(d(1_000_000))).is_none());
}

#[test]
fn journal_page_start_only_reads_whole_page() {
    let start = parse_date_text("2024-05-18").unwrap();
    let items = vec![
        listed("Kassa 1, Z-Rapport #6", "2024-05-17"),
        listed("Kassa 1, Z-Rapport #9", "2024-06-02"),
    ];
    let page = scan_journal_page(&items, Some(start), None).unwrap();
    assert_eq!(page.kept.len(), 1);
    assert_eq!(page.kept[0].title, "Kassa 1, Z-Rapport #9");
    assert!(page.reached_end);
}

#[test]
fn numbers_parse_like_std() {
    assert_eq!(parse_u32("4294967295"), Some(u32::MAX));
    assert_eq!(parse_u32("4294967296"), None);
    assert_eq!(parse_u32(""), None);
    assert_eq!(parse_u32("-1"), None);
    assert_eq!(parse_i32("-2147483648"), Some(i32::MIN));
    assert_eq!(parse_i32("2147483648"), None);
    assert_eq!(parse_i32("+3001"), Some(3001));
    assert_eq!(parse_i32("30 01"), None);
    assert_eq!(u32_text(0), "0");
    assert_eq!(u32_text(4294967295), "4294967295");
}

#[test]
fn text_helpers() {
    assert_eq!(trim_text("  7 9\n"), "7 9");
    assert_eq!(trim_text(" \t\n"), "");
    assert_eq!(split_words(" 7\u{a0}9  x\n"), vec!["7".to_string(), "9".to_string(), "x".to_string()]);
}

#[test]
fn ledger_window_reaches_two_weeks_back() {
    let day = parse_date_text("2024-06-01").unwrap();
    let w = DateRange::resolve(&Some(day), &Some(day), day).ledger_window().unwrap();
    assert_eq!(w.start_date, parse_date_text("2024-05-18").unwrap());
    assert_eq!(w.end_date, day);
    let edge = DateRange { start_date: d(i32::MIN + 3), end_date: d(0) };
    assert!(edge.ledger_window().is_none());
}

#[test]
fn service_urls_for_a_window() {
    let day = parse_date_text("2024-06-01").unwrap();
    let window = DateRange { start_date: day, end_date: day };
    let kassa = DinKassa::new("https://example.test/api", machine("Kassa1", "", "m-7"));
    assert_eq!(
        kassa.zreports_url(&window),
        "https://example.test/api/reports/get-z-reports?machineId=m-7&startDateTime=2024-06-01T00%3A00%3A00&endDateTime=2024-06-01T23%3A59%3A59"
    );
    assert_eq!(
        kassa.sie_reports_url(&window),
        "https://example.test/api/reports/download-z-report-by-date/json?machineId=m-7&startDate=2024-06-01&endDate=2024-06-01"
    );
    assert_eq!(kassa.zreport_pdf_url("r-1"), "https://example.test/api/reports/download-z-report/m-7/r-1");
    assert_eq!(kassa.zreport_sie_url("r-1"), "https://example.test/api/reports/download-z-report/m-7/r-1/sie4");
    assert_eq!(format_local_date(&d(1)), "0001-01-01");
}

#[test]
fn calendar_bounds_are_chrono_range() {
    assert!(!format_local_date(&d(MIN_DAYS)).is_empty());
    assert!(format_local_date(&d(MIN_DAYS - 1)).is_empty());
    assert!(!format_local_date(&d(MAX_DAYS)).is_empty());
    assert!(format_local_date(&d(MAX_DAYS + 1)).is_empty());
}

#[test]
fn ledger_window_at_calendar_start() {
    let w = DateRange { start_date: d(MIN_DAYS + 14), end_date: d(0) }.ledger_window().unwrap();
    assert_eq!(w.start_date, d(MIN_DAYS));
    assert_eq!(w.end_date, d(0));
    assert!(DateRange { start_date: d(MIN_DAYS + 13), end_date: d(0) }.ledger_window().is_none());
    assert!(DateRange { start_date: d(MAX_DAYS + 20), end_date: d(0) }.ledger_window().is_none());
}

#[test]
fn paging_stops_on_empty_page_or_window_start() {
    let page = PageReq { page: 3, size: 100 };
    let next = next_journal_page(&page, false, false).unwrap();
    assert_eq!((next.page, next.size), (4, 100));
    assert!(next_journal_page(&page, true, false).is_none());
    assert!(next_journal_page(&page, false, true).is_none());
    assert!(next_journal_page(&PageReq { page: u32::MAX, size: 100 }, false, false).is_none());
}
