use vstd::prelude::*;
use crate::amount::{Amount, credit_of, debit_of};
use crate::bokio::{CreateJournal, CreateJournalAccount};
use crate::eskassa::{SIEReportAccount, SIEReportListItem, report_date, report_title};
use crate::text::{i32_text_value, parse_i32};

verus! {

/// Why a structured report cannot be turned into a ledger entry.
#[derive(Debug)]
pub enum BuildError {
    /// The account code of a line is not an integer.
    InvalidAccountNumber { number: String },
}

impl SIEReportListItem {
    /// Every amount of the report lies in the range of a decimal.
    pub open spec fn wf(&self) -> bool {
        forall|i: int| 0 <= i < self.accounts@.len() ==> (#[trigger] self.accounts@[i]).amount.wf()
    }
}

/// The ledger line for a report line: its account code read as an integer,
/// and its amount split into a debit and a credit.
pub open spec fn ledger_line(a: SIEReportAccount) -> Option<CreateJournalAccount> {
    match i32_text_value(a.number@) {
        Some(n) => Some(CreateJournalAccount { account: n, debit: debit_of(a.amount), credit: credit_of(a.amount) }),
        None => None,
    }
}

/// Every line of the report has an integer account code.
pub open spec fn accounts_valid(accounts: Seq<SIEReportAccount>) -> bool {
    forall|i: int| 0 <= i < accounts.len() ==> (#[trigger] ledger_line(accounts[i])).is_some()
}

/// Maps a structured report to the ledger entry that books it: its title,
/// its date, and one line per report line, in order.
pub fn create_journal_entry(rapport: &SIEReportListItem) -> (r: Result<CreateJournal, BuildError>)
    requires
        rapport.wf(),
    ensures
        r.is_ok() <==> accounts_valid(rapport.accounts@),
        match r {
            Ok(j) => {
                &&& j.title@ == report_title(rapport.zreport@)
                &&& j.date@ == report_date(rapport.report_date_time@)
                &&& j.items@.len() == rapport.accounts@.len()
                &&& forall|i: int| 0 <= i < j.items@.len()
                    ==> Some(#[trigger] j.items@[i]) == ledger_line(rapport.accounts@[i])
            },
            Err(BuildError::InvalidAccountNumber { number }) => exists|i: int|
                0 <= i < rapport.accounts@.len() && #[trigger] rapport.accounts@[i].number@ == number@
                    && ledger_line(rapport.accounts@[i]).is_none()
                    && forall|j: int| 0 <= j < i ==> ledger_line(#[trigger] rapport.accounts@[j]).is_some(),
        },
{
    let title = rapport.verifikatnamn();
    let date = rapport.datum();
    let mut items: Vec<CreateJournalAccount> = Vec::with_capacity(rapport.accounts.len());
    let mut i: usize = 0;
    while i < rapport.accounts.len()
        invariant
            i <= rapport.accounts@.len(),
            rapport.wf(),
            items@.len() == i,
            forall|j: int| 0 <= j < i ==> Some(#[trigger] items@[j]) == ledger_line(rapport.accounts@[j]),
        decreases rapport.accounts@.len() - i,
    {
        let tr = &rapport.accounts[i];
        assert(tr.amount.wf());
        let account = match parse_i32(tr.number.as_str()) {
            Some(n) => n,
            None => {
                assert(ledger_line(rapport.accounts@[i as int]).is_none());
                assert forall|j: int| 0 <= j < i implies ledger_line(#[trigger] rapport.accounts@[j]).is_some() by {
                    assert(Some(items@[j]) == ledger_line(rapport.accounts@[j]));
                };
                return Err(BuildError::InvalidAccountNumber { number: tr.number.clone() });
            },
        };
        let debit = tr.amount.debit_part();
        let credit = tr.amount.credit_part();
        items.push(CreateJournalAccount { account, debit, credit });
        i = i + 1;
    }
    assert forall|j: int| 0 <= j < rapport.accounts@.len() implies (#[trigger] ledger_line(rapport.accounts@[j])).is_some() by {
        assert(Some(items@[j]) == ledger_line(rapport.accounts@[j]));
    };
    Ok(CreateJournal { title, date, items })
}

/// Recombining a built line as debit minus credit gives back the signed
/// amount of its report line exactly, at the same scale; both parts are
/// non-negative and at most one is non-zero.
pub proof fn lemma_ledger_line_round_trip(a: SIEReportAccount)
    requires
        a.amount.wf(),
        ledger_line(a).is_some(),
    ensures
        ({
            let l = ledger_line(a).unwrap();
            &&& l.debit.mantissa - l.credit.mantissa == a.amount.mantissa
            &&& l.debit.scale == a.amount.scale
            &&& l.credit.scale == a.amount.scale
            &&& l.debit.mantissa >= 0
            &&& l.credit.mantissa >= 0
            &&& (l.debit.mantissa == 0 || l.credit.mantissa == 0)
        }),
{
}

/// For every line of a built ledger entry, zero-amount lines included,
/// debit minus credit is the signed amount of the report line it came from.
pub proof fn lemma_request_round_trip(rapport: SIEReportListItem, items: Seq<CreateJournalAccount>)
    requires
        rapport.wf(),
        items.len() == rapport.accounts@.len(),
        forall|i: int| 0 <= i < items.len() ==> Some(#[trigger] items[i]) == ledger_line(rapport.accounts@[i]),
    ensures
        forall|i: int| 0 <= i < items.len() ==> (#[trigger] items[i]).debit.mantissa - items[i].credit.mantissa
            == rapport.accounts@[i].amount.mantissa && items[i].debit.scale == rapport.accounts@[i].amount.scale
            && items[i].credit.scale == rapport.accounts@[i].amount.scale,
{
    assert forall|i: int| 0 <= i < items.len() implies (#[trigger] items[i]).debit.mantissa - items[i].credit.mantissa
        == rapport.accounts@[i].amount.mantissa && items[i].debit.scale == rapport.accounts@[i].amount.scale
        && items[i].credit.scale == rapport.accounts@[i].amount.scale by {
        assert(Some(items[i]) == ledger_line(rapport.accounts@[i]));
        assert(rapport.accounts@[i].amount.wf());
        lemma_ledger_line_round_trip(rapport.accounts@[i]);
    };
}

} // verus!
