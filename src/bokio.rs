use vstd::prelude::*;
use crate::amount::Amount;
use crate::date::{Date, date_days_of_text, parse_date};
use crate::text::{decimal_text, has_prefix, u32_text};

verus! {

/// One line of a ledger entry.
#[derive(Clone, Copy, Debug)]
pub struct JournalEntryAccount {
    pub id: i64,
    pub account: i32,
    pub debit: Amount,
    pub credit: Amount,
}

/// A ledger entry of the accounting service.
#[derive(Clone, Debug)]
pub struct JournalEntry {
    pub id: String,
    pub title: String,
    pub journal_entry_number: String,
    pub date: String,
    pub items: Vec<JournalEntryAccount>,
    pub reversing_journal_entry_id: Option<String>,
    pub reversed_by_journal_entry_id: Option<String>,
}

/// A ledger entry as plain values.
pub struct JournalEntryView {
    pub id: Seq<char>,
    pub title: Seq<char>,
    pub journal_entry_number: Seq<char>,
    pub date: Seq<char>,
    pub items: Seq<JournalEntryAccount>,
    pub reversing_journal_entry_id: Option<Seq<char>>,
    pub reversed_by_journal_entry_id: Option<Seq<char>>,
}

pub open spec fn opt_text(o: Option<String>) -> Option<Seq<char>> {
    match o {
        Some(t) => Some(t@),
        None => None,
    }
}

impl View for JournalEntry {
    type V = JournalEntryView;

    open spec fn view(&self) -> JournalEntryView {
        JournalEntryView {
            id: self.id@,
            title: self.title@,
            journal_entry_number: self.journal_entry_number@,
            date: self.date@,
            items: self.items@,
            reversing_journal_entry_id: opt_text(self.reversing_journal_entry_id),
            reversed_by_journal_entry_id: opt_text(self.reversed_by_journal_entry_id),
        }
    }
}

/// The entries of a list as plain values.
pub open spec fn entries_view(s: Seq<JournalEntry>) -> Seq<JournalEntryView> {
    s.map_values(|e: JournalEntry| e@)
}

/// One page of the service's listing of ledger entries.
#[derive(Debug)]
pub struct JournalEntryListing {
    pub total_items: u32,
    pub total_pages: u32,
    pub current_page: u32,
    pub items: Vec<JournalEntry>,
}

/// One line of a ledger entry to create.
#[derive(Clone, Copy, Debug)]
pub struct CreateJournalAccount {
    pub account: i32,
    pub debit: Amount,
    pub credit: Amount,
}

/// A ledger entry to create.
#[derive(Debug)]
pub struct CreateJournal {
    pub title: String,
    pub date: String,
    pub items: Vec<CreateJournalAccount>,
}

/// What the service answers to an uploaded attachment.
#[derive(Debug)]
pub struct UploadResponse {
    pub id: String,
    pub description: String,
    pub content_type: String,
    pub journal_entry_id: String,
}

/// A page of a paginated listing.
#[derive(Debug)]
pub struct PageReq {
    pub page: u32,
    pub size: u32,
}

fn copy_text(s: &Option<String>) -> (r: Option<String>)
    ensures
        r == *s,
{
    match s {
        Some(t) => Some(t.clone()),
        None => None,
    }
}

/// A copy of a ledger entry.
pub(crate) fn copy_entry(e: &JournalEntry) -> (r: JournalEntry)
    ensures
        r@ == e@,
{
    let mut items: Vec<JournalEntryAccount> = Vec::new();
    let mut i: usize = 0;
    while i < e.items.len()
        invariant
            i <= e.items@.len(),
            items@ == e.items@.subrange(0, i as int),
        decreases e.items@.len() - i,
    {
        items.push(e.items[i]);
        i = i + 1;
    }
    assert(items@ == e.items@);
    JournalEntry {
        id: e.id.clone(),
        title: e.title.clone(),
        journal_entry_number: e.journal_entry_number.clone(),
        date: e.date.clone(),
        items,
        reversing_journal_entry_id: copy_text(&e.reversing_journal_entry_id),
        reversed_by_journal_entry_id: copy_text(&e.reversed_by_journal_entry_id),
    }
}

/// The prefix of the titles of the ledger entries that this integration books.
pub open spec fn is_register_title(t: Seq<char>) -> bool {
    "Kassa"@.len() <= t.len() && t.subrange(0, "Kassa"@.len() as int) == "Kassa"@
}

/// Reads one page of the listing, newest first, from position `i` on: the
/// entries kept, in order, and whether an entry older than the start was
/// met; `None` where a date that had to be read is not a date. With both
/// bounds given the scan stops at the first entry older than the start.
pub open spec fn page_scan(
    items: Seq<JournalEntry>,
    i: int,
    start: Option<Date>,
    end: Option<Date>,
) -> Option<(Seq<JournalEntryView>, bool)>
    decreases items.len() - i,
{
    if i < 0 || i >= items.len() {
        Some((Seq::empty(), false))
    } else {
        let e = items[i];
        let keep_title = is_register_title(e.title@);
        if start.is_none() && end.is_none() {
            prepend_scan(keep_title, e, false, page_scan(items, i + 1, start, end))
        } else {
            match date_days_of_text(e.date@) {
                None => None,
                Some(d) => {
                    if start.is_some() && d < start.unwrap().days {
                        if end.is_some() {
                            Some((Seq::empty(), true))
                        } else {
                            prepend_scan(false, e, true, page_scan(items, i + 1, start, end))
                        }
                    } else {
                        let keep = keep_title && (end.is_none() || d <= end.unwrap().days);
                        prepend_scan(keep, e, false, page_scan(items, i + 1, start, end))
                    }
                },
            }
        }
    }
}

pub open spec fn prepend_scan(
    keep: bool,
    e: JournalEntry,
    older: bool,
    rest: Option<(Seq<JournalEntryView>, bool)>,
) -> Option<(Seq<JournalEntryView>, bool)> {
    match rest {
        None => None,
        Some((k, r)) => Some((if keep { seq![e@] + k } else { k }, older || r)),
    }
}

/// What one page of the listing contributes.
pub struct JournalPage {
    pub kept: Vec<JournalEntry>,
    pub reached_end: bool,
}

/// Filters one page of the listing of ledger entries to those of this
/// integration within the given bounds, and tells whether the listing has
/// gone past the start.
pub fn scan_journal_page(items: &Vec<JournalEntry>, start: Option<Date>, end: Option<Date>) -> (r:
    Option<JournalPage>)
    ensures
        match r {
            Some(p) => page_scan(items@, 0, start, end) == Some((entries_view(p.kept@), p.reached_end)),
            None => page_scan(items@, 0, start, end).is_none(),
        },
{
    let mut kept: Vec<JournalEntry> = Vec::new();
    let mut reached_end = false;
    let mut i: usize = 0;
    while i < items.len()
        invariant
            i <= items@.len(),
            page_scan(items@, 0, start, end) == prepend_all(entries_view(kept@), reached_end, page_scan(items@, i as int, start, end)),
        decreases items@.len() - i,
    {
        let e = &items[i];
        let keep_title = has_prefix(e.title.as_str(), "Kassa");
        let ghost kv = entries_view(kept@);
        proof { lemma_prepend_all_step(kv, reached_end, items@, i as int, start, end); }
        if start.is_none() && end.is_none() {
            if keep_title {
                kept.push(copy_entry(e));
                assert(entries_view(kept@) =~= kv.push(e@));
            }
        } else {
            match parse_date(e.date.as_str()) {
                None => {
                    return None;
                },
                Some(d) => {
                    if start.is_some() && d.days < start.unwrap().days {
                        reached_end = true;
                        if end.is_some() {
                            return Some(JournalPage { kept, reached_end });
                        }
                    } else if keep_title && (end.is_none() || d.days <= end.unwrap().days) {
                        kept.push(copy_entry(e));
                        assert(entries_view(kept@) =~= kv.push(e@));
                    }
                },
            }
        }
        i = i + 1;
    }
    Some(JournalPage { kept, reached_end })
}

pub open spec fn prepend_all(
    k: Seq<JournalEntryView>,
    older: bool,
    rest: Option<(Seq<JournalEntryView>, bool)>,
) -> Option<(Seq<JournalEntryView>, bool)> {
    match rest {
        None => None,
        Some((k2, r)) => Some((k + k2, older || r)),
    }
}

proof fn lemma_prepend_all_step(
    k: Seq<JournalEntryView>,
    older: bool,
    items: Seq<JournalEntry>,
    i: int,
    start: Option<Date>,
    end: Option<Date>,
)
    requires
        0 <= i < items.len(),
    ensures
        forall|keep: bool, e: JournalEntry, o: bool|
            #[trigger] prepend_all(k, older, prepend_scan(keep, e, o, page_scan(items, i + 1, start, end)))
                == prepend_all(if keep { k.push(e@) } else { k }, older || o, page_scan(items, i + 1, start, end)),
{
    assert forall|keep: bool, e: JournalEntry, o: bool|
        #[trigger] prepend_all(k, older, prepend_scan(keep, e, o, page_scan(items, i + 1, start, end)))
            == prepend_all(if keep { k.push(e@) } else { k }, older || o, page_scan(items, i + 1, start, end)) by {
        match page_scan(items, i + 1, start, end) {
            None => {},
            Some((k2, r)) => {
                if keep {
                    assert(k + (seq![e@] + k2) =~= k.push(e@) + k2);
                }
            },
        }
    };
}

/// The page of the listing to read after `page`: none once a page came
/// back empty, once the listing has gone past the start of the window, or
/// after the last page that can be numbered.
pub fn next_journal_page(page: &PageReq, page_was_empty: bool, reached_end: bool) -> (r: Option<PageReq>)
    ensures
        r.is_none() <==> page_was_empty || reached_end || page.page == u32::MAX,
        match r {
            Some(p) => p.page == page.page + 1 && p.size == page.size,
            None => true,
        },
{
    if page_was_empty || reached_end || page.page == u32::MAX {
        None
    } else {
        Some(PageReq { page: page.page + 1, size: page.size })
    }
}

/// The accounting service as seen by the library: its address, the company
/// booked for and the authorisation header of its token.
pub struct Bokio {
    pub base_url: String,
    pub company_id: String,
    pub auth_header: String,
}

impl Bokio {
    pub fn new(base_url: &str, company_id: &str, token: &str) -> (r: Self)
        ensures
            r.base_url@ == base_url@,
            r.company_id@ == company_id@,
            r.auth_header@ == "Bearer "@ + token@,
    {
        let mut auth_header = String::from_str("Bearer ");
        auth_header.append(token);
        Bokio {
            base_url: String::from_str(base_url),
            company_id: String::from_str(company_id),
            auth_header,
        }
    }

    pub open spec fn company_url(&self) -> Seq<char> {
        self.base_url@ + "/companies/"@ + self.company_id@
    }

    fn company_path(&self) -> (r: String)
        ensures
            r@ == self.company_url(),
    {
        let mut r = self.base_url.clone();
        r.append("/companies/");
        r.append(self.company_id.as_str());
        r
    }

    /// Where ledger entries are created.
    pub fn journal_entries_url(&self) -> (r: String)
        ensures
            r@ == self.company_url() + "/journal-entries"@,
    {
        let mut r = self.company_path();
        r.append("/journal-entries");
        r
    }

    /// Where attachments are uploaded.
    pub fn uploads_url(&self) -> (r: String)
        ensures
            r@ == self.company_url() + "/uploads"@,
    {
        let mut r = self.company_path();
        r.append("/uploads");
        r
    }

    /// Where one page of the listing of ledger entries is read.
    pub fn journal_page_url(&self, page: &PageReq) -> (r: String)
        ensures
            r@ == self.company_url() + "/journal-entries?page="@ + decimal_text(page.page as nat)
                + "&pageSize="@ + decimal_text(page.size as nat),
    {
        let mut r = self.company_path();
        r.append("/journal-entries?page=");
        let p = u32_text(page.page);
        r.append(p.as_str());
        r.append("&pageSize=");
        let s = u32_text(page.size);
        r.append(s.as_str());
        r
    }
}

} // verus!
