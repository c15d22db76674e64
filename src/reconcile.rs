use vstd::prelude::*;
use crate::bokio::{JournalEntry, JournalEntryView, copy_entry};
use crate::eskassa::{SIEReportListItem, ZReportListItem, report_number, report_title};
use crate::text::{lower_of, lowercase};

verus! {

/// Why the reports and the ledger cannot be reconciled.
#[derive(Debug)]
pub enum ReconcileError {
    /// A structured report's code is neither `K<digits>:<digits>` nor a number.
    MalformedSourceCode { code: String },
    /// No listed report has the sequence number of a structured report.
    OrphanReport { number: u32 },
}

/// A structured report, its listing entry and the ledger entry that books
/// it, if there is one.
pub struct ReconciliationRecord {
    pub sie: SIEReportListItem,
    pub report: ZReportListItem,
    pub verifikat: Option<JournalEntry>,
}

/// `i` is the first listing entry with sequence number `n`.
pub open spec fn is_first_report(reports: Seq<ZReportListItem>, n: u32, i: int) -> bool {
    &&& 0 <= i < reports.len()
    &&& reports[i].number == n
    &&& forall|j: int| 0 <= j < i ==> (#[trigger] reports[j]).number != n
}

/// A ledger entry books the report of the given title: the titles agree
/// when lower-cased, and the entry has not been reversed.
pub open spec fn entry_matches(e: JournalEntryView, title: Seq<char>) -> bool {
    lower_of(e.title) == lower_of(title) && e.reversed_by_journal_entry_id.is_none()
}

/// `i` is the first ledger entry that books the report of the given title.
pub open spec fn is_first_match(journal: Seq<JournalEntry>, title: Seq<char>, i: int) -> bool {
    &&& 0 <= i < journal.len()
    &&& entry_matches(journal[i]@, title)
    &&& forall|j: int| 0 <= j < i ==> !entry_matches((#[trigger] journal[j])@, title)
}

/// The structured report has a sequence number that the listing holds.
pub open spec fn report_resolves(s: SIEReportListItem, reports: Seq<ZReportListItem>) -> bool {
    match report_number(s.zreport@) {
        Some(n) => exists|i: int| 0 <= i < reports.len() && (#[trigger] reports[i]).number == n,
        None => false,
    }
}

/// The record that reconciliation makes of one structured report.
pub open spec fn record_for(
    rec: ReconciliationRecord,
    s: SIEReportListItem,
    reports: Seq<ZReportListItem>,
    journal: Seq<JournalEntry>,
) -> bool {
    let n = report_number(s.zreport@).unwrap();
    let title = report_title(s.zreport@);
    &&& rec.sie == s
    &&& exists|i: int| is_first_report(reports, n, i) && rec.report == reports[i]
    &&& match rec.verifikat {
        Some(e) => exists|i: int| is_first_match(journal, title, i) && e@ == journal[i]@,
        None => forall|i: int| 0 <= i < journal.len() ==> !entry_matches((#[trigger] journal[i])@, title),
    }
}

/// The records that reconciliation makes of the structured reports, in
/// their order.
pub open spec fn reconciled(
    records: Seq<ReconciliationRecord>,
    sies: Seq<SIEReportListItem>,
    reports: Seq<ZReportListItem>,
    journal: Seq<JournalEntry>,
) -> bool {
    &&& records.len() == sies.len()
    &&& forall|i: int| 0 <= i < records.len() ==> record_for(#[trigger] records[i], sies[i], reports, journal)
}

fn copy_report(r: &ZReportListItem) -> (c: ZReportListItem)
    ensures
        c == *r,
{
    ZReportListItem {
        id: r.id.clone(),
        number: r.number,
        date_time: r.date_time.clone(),
        created_by: r.created_by.clone(),
    }
}

fn find_report(reports: &Vec<ZReportListItem>, n: u32) -> (r: Option<usize>)
    ensures
        match r {
            Some(i) => is_first_report(reports@, n, i as int),
            None => forall|i: int| 0 <= i < reports@.len() ==> (#[trigger] reports@[i]).number != n,
        },
{
    let mut i: usize = 0;
    while i < reports.len()
        invariant
            i <= reports@.len(),
            forall|j: int| 0 <= j < i ==> (#[trigger] reports@[j]).number != n,
        decreases reports@.len() - i,
    {
        if reports[i].number == n {
            return Some(i);
        }
        i = i + 1;
    }
    None
}

fn find_entry(journal: &Vec<JournalEntry>, title: &String) -> (r: Option<usize>)
    ensures
        match r {
            Some(i) => is_first_match(journal@, title@, i as int),
            None => forall|i: int| 0 <= i < journal@.len() ==> !entry_matches((#[trigger] journal@[i])@, title@),
        },
{
    let wanted = lowercase(title.as_str());
    let mut i: usize = 0;
    while i < journal.len()
        invariant
            i <= journal@.len(),
            wanted@ == lower_of(title@),
            forall|j: int| 0 <= j < i ==> !entry_matches((#[trigger] journal@[j])@, title@),
        decreases journal@.len() - i,
    {
        let e = &journal[i];
        let lowered = lowercase(e.title.as_str());
        if lowered == wanted && e.reversed_by_journal_entry_id.is_none() {
            return Some(i);
        }
        i = i + 1;
    }
    None
}

/// Pairs each structured report, in order, with the listing entry of its
/// sequence number and with the first ledger entry that books it and has
/// not been reversed. Fails on the first report whose code is malformed or
/// whose sequence number the listing lacks; no records are returned then.
pub fn reconcile(
    sies: Vec<SIEReportListItem>,
    reports: &Vec<ZReportListItem>,
    journal: &Vec<JournalEntry>,
) -> (r: Result<Vec<ReconciliationRecord>, ReconcileError>)
    ensures
        r.is_ok() <==> forall|i: int| 0 <= i < sies@.len() ==> report_resolves(#[trigger] sies@[i], reports@),
        match r {
            Ok(records) => reconciled(records@, sies@, reports@, journal@),
            Err(ReconcileError::MalformedSourceCode { code }) => exists|i: int|
                0 <= i < sies@.len() && (forall|j: int| 0 <= j < i ==> report_resolves(#[trigger] sies@[j], reports@))
                    && report_number((#[trigger] sies@[i]).zreport@).is_none() && code@ == sies@[i].zreport@,
            Err(ReconcileError::OrphanReport { number }) => exists|i: int|
                0 <= i < sies@.len() && (forall|j: int| 0 <= j < i ==> report_resolves(#[trigger] sies@[j], reports@))
                    && report_number((#[trigger] sies@[i]).zreport@) == Some(number)
                    && !report_resolves(sies@[i], reports@),
        },
{
    let ghost orig = sies@;
    let mut rest = sies;
    let mut records: Vec<ReconciliationRecord> = Vec::new();
    let mut i: usize = 0;
    let total = rest.len();
    while i < total
        invariant
            total == orig.len(),
            orig == sies@,
            i <= total,
            rest@ == orig.subrange(i as int, total as int),
            records@.len() == i,
            forall|j: int| 0 <= j < i ==> report_resolves(#[trigger] orig[j], reports@),
            forall|j: int| 0 <= j < i ==> record_for(#[trigger] records@[j], orig[j], reports@, journal@),
        decreases total - i,
    {
        assert(rest@[0] == orig[i as int]);
        let sie = rest.remove(0);
        assert(rest@ =~= orig.subrange(i + 1, total as int));
        let n = match sie.number() {
            Some(n) => n,
            None => {
                assert(!report_resolves(orig[i as int], reports@));
                assert(report_number(orig[i as int].zreport@).is_none() && sie.zreport@ == orig[i as int].zreport@);
                return Err(ReconcileError::MalformedSourceCode { code: sie.zreport });
            },
        };
        let report = match find_report(reports, n) {
            Some(k) => copy_report(&reports[k]),
            None => {
                assert(!report_resolves(orig[i as int], reports@));
                return Err(ReconcileError::OrphanReport { number: n });
            },
        };
        let title = sie.verifikatnamn();
        let verifikat = match find_entry(journal, &title) {
            Some(k) => Some(copy_entry(&journal[k])),
            None => None,
        };
        let rec = ReconciliationRecord { sie, report, verifikat };
        assert(record_for(rec, orig[i as int], reports@, journal@));
        records.push(rec);
        i = i + 1;
    }
    Ok(records)
}

/// The sequence numbers of the records that no ledger entry books, in order.
pub open spec fn eligible_numbers(records: Seq<ReconciliationRecord>) -> Seq<u32>
    decreases records.len(),
{
    if records.len() == 0 {
        Seq::empty()
    } else {
        let prev = eligible_numbers(records.drop_last());
        if records.last().verifikat.is_none() {
            prev.push(records.last().report.number)
        } else {
            prev
        }
    }
}

/// How many records a ledger entry books.
pub open spec fn matched_count(records: Seq<ReconciliationRecord>) -> nat
    decreases records.len(),
{
    if records.len() == 0 {
        0
    } else {
        matched_count(records.drop_last()) + if records.last().verifikat.is_some() { 1nat } else { 0nat }
    }
}

/// The sequence numbers of the reports that may still be imported.
pub fn eligible_reports(records: &Vec<ReconciliationRecord>) -> (r: Vec<u32>)
    ensures
        r@ == eligible_numbers(records@),
{
    let mut r: Vec<u32> = Vec::new();
    let mut i: usize = 0;
    while i < records.len()
        invariant
            i <= records@.len(),
            r@ == eligible_numbers(records@.subrange(0, i as int)),
        decreases records@.len() - i,
    {
        assert(records@.subrange(0, i + 1).drop_last() =~= records@.subrange(0, i as int));
        if records[i].verifikat.is_none() {
            r.push(records[i].report.number);
        }
        i = i + 1;
    }
    assert(records@.subrange(0, i as int) =~= records@);
    r
}

/// How many of the reports a ledger entry already books.
pub fn rakna_importerade_rapporter(records: &Vec<ReconciliationRecord>) -> (r: usize)
    ensures
        r == matched_count(records@),
{
    let mut r: usize = 0;
    let mut i: usize = 0;
    while i < records.len()
        invariant
            i <= records@.len(),
            r == matched_count(records@.subrange(0, i as int)),
            r <= i,
        decreases records@.len() - i,
    {
        assert(records@.subrange(0, i + 1).drop_last() =~= records@.subrange(0, i as int));
        if records[i].verifikat.is_some() {
            r = r + 1;
        }
        i = i + 1;
    }
    assert(records@.subrange(0, i as int) =~= records@);
    r
}

proof fn lemma_count_split(records: Seq<ReconciliationRecord>)
    ensures
        eligible_numbers(records).len() + matched_count(records) == records.len(),
    decreases records.len(),
{
    if records.len() > 0 {
        lemma_count_split(records.drop_last());
    }
}

/// Every structured report is either eligible for import or booked by a
/// ledger entry that has not been reversed, never both: the eligible
/// numbers and the booked records together count the structured reports.
pub proof fn lemma_partition(
    records: Seq<ReconciliationRecord>,
    sies: Seq<SIEReportListItem>,
    reports: Seq<ZReportListItem>,
    journal: Seq<JournalEntry>,
)
    requires
        reconciled(records, sies, reports, journal),
    ensures
        eligible_numbers(records).len() + matched_count(records) == sies.len(),
        forall|i: int| 0 <= i < records.len() && (#[trigger] records[i]).verifikat.is_some()
            ==> records[i].verifikat.unwrap().reversed_by_journal_entry_id.is_none(),
{
    lemma_count_split(records);
    assert forall|i: int| 0 <= i < records.len() && (#[trigger] records[i]).verifikat.is_some()
        implies records[i].verifikat.unwrap().reversed_by_journal_entry_id.is_none() by {
        lemma_no_reversed_match(records, sies, reports, journal, i);
    };
}

/// No record that reconciliation makes is booked by a reversed ledger entry.
pub proof fn lemma_no_reversed_match(
    records: Seq<ReconciliationRecord>,
    sies: Seq<SIEReportListItem>,
    reports: Seq<ZReportListItem>,
    journal: Seq<JournalEntry>,
    i: int,
)
    requires
        reconciled(records, sies, reports, journal),
        0 <= i < records.len(),
        records[i].verifikat.is_some(),
    ensures
        records[i].verifikat.unwrap().reversed_by_journal_entry_id.is_none(),
{
    assert(record_for(records[i], sies[i], reports, journal));
}

proof fn lemma_same_status_same_eligible(a: Seq<ReconciliationRecord>, b: Seq<ReconciliationRecord>)
    requires
        a.len() == b.len(),
        forall|i: int| 0 <= i < a.len() ==> (#[trigger] a[i]).verifikat.is_some() == b[i].verifikat.is_some()
            && a[i].report.number == b[i].report.number,
    ensures
        eligible_numbers(a) == eligible_numbers(b),
        matched_count(a) == matched_count(b),
    decreases a.len(),
{
    if a.len() > 0 {
        let (a1, b1) = (a.drop_last(), b.drop_last());
        assert forall|i: int| 0 <= i < a1.len() implies (#[trigger] a1[i]).verifikat.is_some() == b1[i].verifikat.is_some()
            && a1[i].report.number == b1[i].report.number by {
            assert(a1[i] == a[i] && b1[i] == b[i]);
        };
        lemma_same_status_same_eligible(a1, b1);
        assert(a.last() == a[a.len() - 1]);
    }
}

/// Reconciling twice with nothing imported in between gives the same
/// eligible reports and the same booked ones, record for record.
pub proof fn lemma_reconcile_idempotent(
    first: Seq<ReconciliationRecord>,
    second: Seq<ReconciliationRecord>,
    sies: Seq<SIEReportListItem>,
    reports: Seq<ZReportListItem>,
    journal: Seq<JournalEntry>,
)
    requires
        reconciled(first, sies, reports, journal),
        reconciled(second, sies, reports, journal),
    ensures
        eligible_numbers(first) == eligible_numbers(second),
        matched_count(first) == matched_count(second),
        forall|i: int| 0 <= i < first.len() ==> (#[trigger] first[i]).verifikat.is_some() == second[i].verifikat.is_some(),
{
    assert forall|i: int| 0 <= i < first.len() implies (#[trigger] first[i]).verifikat.is_some() == second[i].verifikat.is_some()
        && first[i].report.number == second[i].report.number by {
        assert(record_for(first[i], sies[i], reports, journal));
        assert(record_for(second[i], sies[i], reports, journal));
        let n = report_number(sies[i].zreport@).unwrap();
        let k1 = choose|k: int| is_first_report(reports, n, k) && first[i].report == reports[k];
        let k2 = choose|k: int| is_first_report(reports, n, k) && second[i].report == reports[k];
        assert(k1 == k2) by {
            if k1 < k2 {
                assert(reports[k1].number == n);
            } else if k2 < k1 {
                assert(reports[k2].number == n);
            }
        };
        let title = report_title(sies[i].zreport@);
        if first[i].verifikat.is_some() && second[i].verifikat.is_none() {
            let k = choose|k: int| is_first_match(journal, title, k) && first[i].verifikat.unwrap()@ == journal[k]@;
            assert(!entry_matches(journal[k]@, title));
        }
        if second[i].verifikat.is_some() && first[i].verifikat.is_none() {
            let k = choose|k: int| is_first_match(journal, title, k) && second[i].verifikat.unwrap()@ == journal[k]@;
            assert(!entry_matches(journal[k]@, title));
        }
    };
    lemma_same_status_same_eligible(first, second);
}

/// Records that a ledger entry now books the first report with sequence
/// number `number`; the other records stay as they are.
pub fn mark_imported(records: &mut Vec<ReconciliationRecord>, number: u32, entry: JournalEntry)
    ensures
        final(records)@.len() == old(records)@.len(),
        match first_record_of(old(records)@, number) {
            Some(i) => final(records)@ == old(records)@.update(i, ReconciliationRecord {
                sie: old(records)@[i].sie,
                report: old(records)@[i].report,
                verifikat: Some(entry),
            }),
            None => final(records)@ == old(records)@,
        },
{
    let mut i: usize = 0;
    while i < records.len()
        invariant
            i <= records@.len(),
            records@ == old(records)@,
            forall|j: int| 0 <= j < i ==> (#[trigger] records@[j]).report.number != number,
        decreases records@.len() - i,
    {
        if records[i].report.number == number {
            proof { lemma_first_record_of(records@, number, i as int); }
            let rec = records.remove(i);
            let updated = ReconciliationRecord { sie: rec.sie, report: rec.report, verifikat: Some(entry) };
            records.insert(i, updated);
            assert(records@ =~= old(records)@.update(i as int, updated));
            return;
        }
        i = i + 1;
    }
    proof { lemma_first_record_none(records@, number); }
}

/// The position of the first record with sequence number `number`.
pub open spec fn first_record_of(records: Seq<ReconciliationRecord>, number: u32) -> Option<int> {
    if exists|i: int| 0 <= i < records.len() && (#[trigger] records[i]).report.number == number {
        Some(choose|i: int|
            0 <= i < records.len() && (#[trigger] records[i]).report.number == number
                && forall|j: int| 0 <= j < i ==> (#[trigger] records[j]).report.number != number)
    } else {
        None
    }
}

proof fn lemma_first_record_of(records: Seq<ReconciliationRecord>, number: u32, i: int)
    requires
        0 <= i < records.len(),
        records[i].report.number == number,
        forall|j: int| 0 <= j < i ==> (#[trigger] records[j]).report.number != number,
    ensures
        first_record_of(records, number) == Some(i),
{
    let k = choose|k: int|
        0 <= k < records.len() && (#[trigger] records[k]).report.number == number
            && forall|j: int| 0 <= j < k ==> (#[trigger] records[j]).report.number != number;
    assert(0 <= k < records.len() && records[k].report.number == number
        && forall|j: int| 0 <= j < k ==> (#[trigger] records[j]).report.number != number);
    if k < i {
        assert(records[k].report.number != number);
    } else if i < k {
        assert(records[i].report.number != number);
    }
}

proof fn lemma_first_record_none(records: Seq<ReconciliationRecord>, number: u32)
    requires
        forall|j: int| 0 <= j < records.len() ==> (#[trigger] records[j]).report.number != number,
    ensures
        first_record_of(records, number).is_none(),
{
}

} // verus!
