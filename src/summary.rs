use vstd::prelude::*;
use crate::amount::Amount;
use crate::eskassa::{SIEReportAccount, SIEReportListItem};
use crate::reconcile::ReconciliationRecord;

verus! {

/// What `str::to_uppercase` gives for a text.
pub uninterp spec fn upper_of(s: Seq<char>) -> Seq<char>;

/// Relies on `str::to_uppercase`: the result depends on the characters alone.
#[verifier::external_body]
fn uppercase(s: &str) -> (r: String)
    ensures
        r@ == upper_of(s@),
{
    s.to_uppercase()
}

/// Texts in lexicographic order of their characters, as `String`'s order
/// compares them.
pub open spec fn text_less(a: Seq<char>, b: Seq<char>) -> bool
    decreases a.len(),
{
    if a.len() == 0 {
        b.len() > 0
    } else if b.len() == 0 {
        false
    } else if a[0] != b[0] {
        a[0] < b[0]
    } else {
        text_less(a.drop_first(), b.drop_first())
    }
}

proof fn lemma_text_less_total(a: Seq<char>, b: Seq<char>)
    ensures
        a == b || text_less(a, b) || text_less(b, a),
        !(text_less(a, b) && text_less(b, a)),
        !text_less(a, a),
    decreases a.len(),
{
    if a.len() > 0 && b.len() > 0 {
        lemma_text_less_total(a.drop_first(), b.drop_first());
        if a[0] == b[0] && a.drop_first() == b.drop_first() {
            assert(a =~= seq![a[0]] + a.drop_first());
            assert(b =~= seq![b[0]] + b.drop_first());
        }
    } else if a.len() == 0 && b.len() == 0 {
        assert(a =~= b);
    }
    if a.len() > 0 {
        lemma_text_less_total(a.drop_first(), a.drop_first());
    }
}

proof fn lemma_text_less_transitive(a: Seq<char>, b: Seq<char>, c: Seq<char>)
    requires
        text_less(a, b),
        text_less(b, c),
    ensures
        text_less(a, c),
    decreases a.len(),
{
    if a.len() > 0 && b.len() > 0 && c.len() > 0 && a[0] == b[0] && b[0] == c[0] {
        lemma_text_less_transitive(a.drop_first(), b.drop_first(), c.drop_first());
    }
}

fn less_than(a: &str, b: &str) -> (r: bool)
    ensures
        r == text_less(a@, b@),
{
    let n = a.unicode_len();
    let m = b.unicode_len();
    let mut i: usize = 0;
    assert(a@.subrange(0, n as int) =~= a@);
    assert(b@.subrange(0, m as int) =~= b@);
    while i < n && i < m && a.get_char(i) == b.get_char(i)
        invariant
            i <= n,
            i <= m,
            n == a@.len(),
            m == b@.len(),
            text_less(a@, b@) == text_less(a@.subrange(i as int, n as int), b@.subrange(i as int, m as int)),
        decreases n - i,
    {
        proof {
            let (x, y) = (a@.subrange(i as int, n as int), b@.subrange(i as int, m as int));
            assert(x.drop_first() =~= a@.subrange(i + 1, n as int));
            assert(y.drop_first() =~= b@.subrange(i + 1, m as int));
        }
        i = i + 1;
    }
    if i == n {
        i < m
    } else if i == m {
        false
    } else {
        a.get_char(i) < b.get_char(i)
    }
}

/// The account lines of the reports of a list of records, record by record.
pub open spec fn all_lines(records: Seq<ReconciliationRecord>) -> Seq<SIEReportAccount>
    decreases records.len(),
{
    if records.len() == 0 {
        Seq::empty()
    } else {
        all_lines(records.drop_last()) + records.last().sie.accounts@
    }
}

/// An asset account: its number begins with `1`.
pub open spec fn is_asset_account(number: Seq<char>) -> bool {
    number.len() > 0 && number[0] == '1'
}

/// A column of the summary: an asset account and its name.
pub struct SummaryColumn {
    pub number: String,
    pub description: String,
}

/// `k` is the first of the lines on account `number`.
pub open spec fn first_line_of(lines: Seq<SIEReportAccount>, number: Seq<char>, k: int) -> bool {
    &&& 0 <= k < lines.len()
    &&& lines[k].number@ == number
    &&& forall|j: int| 0 <= j < k ==> (#[trigger] lines[j]).number@ != number
}

/// A column is an asset account that the lines book on, named by the
/// upper-cased description of its first line.
pub open spec fn column_named(c: SummaryColumn, lines: Seq<SIEReportAccount>) -> bool {
    is_asset_account(c.number@)
        && exists|k: int| first_line_of(lines, c.number@, k) && c.description@ == upper_of(lines[k].description@)
}

/// Some column stands for account `number`.
pub open spec fn has_column(cols: Seq<SummaryColumn>, number: Seq<char>) -> bool {
    exists|i: int| 0 <= i < cols.len() && (#[trigger] cols[i]).number@ == number
}

/// The columns are sorted by account number, with no account twice.
pub open spec fn columns_sorted(cols: Seq<SummaryColumn>) -> bool {
    forall|i: int, j: int| 0 <= i < j < cols.len() ==> text_less(#[trigger] cols[i].number@, #[trigger] cols[j].number@)
}

/// The columns of the summary of some account lines: one for each asset
/// account that the lines book on, in order of account number, named by
/// the upper-cased description of its first line.
pub open spec fn summary_columns(cols: Seq<SummaryColumn>, lines: Seq<SIEReportAccount>) -> bool {
    &&& columns_sorted(cols)
    &&& forall|i: int| 0 <= i < cols.len() ==> column_named(#[trigger] cols[i], lines)
    &&& forall|k: int| 0 <= k < lines.len() && is_asset_account((#[trigger] lines[k]).number@)
        ==> has_column(cols, lines[k].number@)
}

proof fn lemma_named_push(c: SummaryColumn, lines: Seq<SIEReportAccount>, line: SIEReportAccount)
    requires
        column_named(c, lines),
    ensures
        column_named(c, lines.push(line)),
{
    let k = choose|k: int| first_line_of(lines, c.number@, k) && c.description@ == upper_of(lines[k].description@);
    let ext = lines.push(line);
    assert forall|j: int| 0 <= j < k implies (#[trigger] ext[j]).number@ != c.number@ by {
        assert(ext[j] == lines[j]);
    };
    assert(ext[k] == lines[k]);
    assert(first_line_of(ext, c.number@, k));
}

proof fn lemma_summary_extend(cols: Seq<SummaryColumn>, lines: Seq<SIEReportAccount>, line: SIEReportAccount)
    requires
        summary_columns(cols, lines),
        !is_asset_account(line.number@) || has_column(cols, line.number@),
    ensures
        summary_columns(cols, lines.push(line)),
{
    let ext = lines.push(line);
    assert forall|i: int| 0 <= i < cols.len() implies column_named(#[trigger] cols[i], ext) by {
        lemma_named_push(cols[i], lines, line);
    };
    assert forall|k: int| 0 <= k < ext.len() && is_asset_account((#[trigger] ext[k]).number@)
        implies has_column(cols, ext[k].number@) by {
        if k < lines.len() {
            assert(ext[k] == lines[k]);
        }
    };
}

proof fn lemma_summary_insert(
    cols: Seq<SummaryColumn>,
    lines: Seq<SIEReportAccount>,
    line: SIEReportAccount,
    p: int,
    col: SummaryColumn,
)
    requires
        summary_columns(cols, lines),
        is_asset_account(line.number@),
        0 <= p <= cols.len(),
        col.number@ == line.number@,
        col.description@ == upper_of(line.description@),
        forall|i: int| 0 <= i < p ==> text_less((#[trigger] cols[i]).number@, line.number@),
        p < cols.len() ==> text_less(line.number@, cols[p].number@),
    ensures
        summary_columns(cols.insert(p, col), lines.push(line)),
{
    let ext = lines.push(line);
    let nc = cols.insert(p, col);
    assert forall|i: int| 0 <= i < cols.len() implies (#[trigger] cols[i]).number@ != line.number@ by {
        if i < p {
            lemma_text_less_total(cols[i].number@, line.number@);
        } else {
            if i > p {
                lemma_text_less_transitive(line.number@, cols[p].number@, cols[i].number@);
            }
            lemma_text_less_total(cols[i].number@, line.number@);
        }
    };
    assert forall|i: int, j: int| 0 <= i < j < nc.len() implies text_less(#[trigger] nc[i].number@, #[trigger] nc[j].number@) by {
        if j < p {
            assert(nc[i] == cols[i] && nc[j] == cols[j]);
        } else if j == p {
            assert(nc[i] == cols[i]);
        } else if i < p {
            assert(nc[i] == cols[i] && nc[j] == cols[j - 1]);
            if j - 1 > p {
                lemma_text_less_transitive(line.number@, cols[p].number@, cols[j - 1].number@);
            }
            lemma_text_less_transitive(cols[i].number@, line.number@, cols[j - 1].number@);
        } else if i == p {
            assert(nc[j] == cols[j - 1]);
            if j - 1 > p {
                lemma_text_less_transitive(line.number@, cols[p].number@, cols[j - 1].number@);
            }
        } else {
            assert(nc[i] == cols[i - 1] && nc[j] == cols[j - 1]);
        }
    };
    assert forall|i: int| 0 <= i < nc.len() implies column_named(#[trigger] nc[i], ext) by {
        if i == p {
            let k = lines.len() as int;
            assert forall|j: int| 0 <= j < k implies (#[trigger] ext[j]).number@ != line.number@ by {
                assert(ext[j] == lines[j]);
                if is_asset_account(lines[j].number@) {
                    assert(has_column(cols, lines[j].number@));
                }
            };
            assert(ext[k] == line);
            assert(first_line_of(ext, nc[i].number@, k));
        } else if i < p {
            assert(nc[i] == cols[i]);
            lemma_named_push(cols[i], lines, line);
        } else {
            assert(nc[i] == cols[i - 1]);
            lemma_named_push(cols[i - 1], lines, line);
        }
    };
    assert forall|k: int| 0 <= k < ext.len() && is_asset_account((#[trigger] ext[k]).number@)
        implies has_column(nc, ext[k].number@) by {
        if k < lines.len() {
            assert(ext[k] == lines[k]);
            assert(has_column(cols, lines[k].number@));
            let c = choose|c: int| 0 <= c < cols.len() && (#[trigger] cols[c]).number@ == lines[k].number@;
            if c < p {
                assert(nc[c] == cols[c]);
            } else {
                assert(nc[c + 1] == cols[c]);
            }
        } else {
            assert(nc[p] == col);
        }
    };
}

/// The columns of the summary table: the asset accounts that the reports
/// book on, sorted by number, each named by the upper-cased description of
/// its first line.
pub fn summary_accounts(records: &Vec<ReconciliationRecord>) -> (r: Vec<SummaryColumn>)
    ensures
        summary_columns(r@, all_lines(records@)),
{
    let mut cols: Vec<SummaryColumn> = Vec::new();
    let mut i: usize = 0;
    while i < records.len()
        invariant
            i <= records@.len(),
            summary_columns(cols@, all_lines(records@.subrange(0, i as int))),
        decreases records@.len() - i,
    {
        let accounts = &records[i].sie.accounts;
        let ghost before = all_lines(records@.subrange(0, i as int));
        let mut j: usize = 0;
        while j < accounts.len()
            invariant
                i < records@.len(),
                *accounts == records@[i as int].sie.accounts,
                j <= accounts@.len(),
                summary_columns(cols@, before + accounts@.subrange(0, j as int)),
            decreases accounts@.len() - j,
        {
            let line = &accounts[j];
            let ghost lines = before + accounts@.subrange(0, j as int);
            assert(before + accounts@.subrange(0, j + 1) =~= lines.push(*line));
            let number = line.number.as_str();
            if number.unicode_len() > 0 && number.get_char(0) == '1' {
                let mut p: usize = 0;
                while p < cols.len() && less_than(cols[p].number.as_str(), number)
                    invariant
                        p <= cols@.len(),
                        forall|q: int| 0 <= q < p ==> text_less((#[trigger] cols@[q]).number@, number@),
                    decreases cols@.len() - p,
                {
                    p = p + 1;
                }
                if p < cols.len() && cols[p].number == line.number {
                    proof {
                        assert(cols@[p as int].number@ == line.number@);
                        lemma_summary_extend(cols@, lines, *line);
                    }
                } else {
                    proof {
                        if p < cols@.len() {
                            lemma_text_less_total(cols@[p as int].number@, number@);
                        }
                    }
                    let col = SummaryColumn { number: line.number.clone(), description: uppercase(line.description.as_str()) };
                    proof { lemma_summary_insert(cols@, lines, *line, p as int, col); }
                    cols.insert(p, col);
                }
            } else {
                proof { lemma_summary_extend(cols@, lines, *line); }
            }
            j = j + 1;
        }
        assert(accounts@.subrange(0, j as int) =~= accounts@);
        assert(records@.subrange(0, i + 1).drop_last() =~= records@.subrange(0, i as int));
        i = i + 1;
    }
    assert(records@.subrange(0, i as int) =~= records@);
    cols
}

/// The amounts of one report under the summary's columns: the amount of the
/// first line on each account, or zero where the report has none.
pub fn summary_row(report: &SIEReportListItem, cols: &Vec<SummaryColumn>) -> (r: Vec<Amount>)
    ensures
        r@.len() == cols@.len(),
        forall|i: int| 0 <= i < cols@.len() ==> match #[trigger] first_amount(report.accounts@, cols@[i].number@) {
            Some(a) => r@[i] == a,
            None => r@[i] == Amount { mantissa: 0, scale: 0 },
        },
{
    let mut r: Vec<Amount> = Vec::new();
    let mut i: usize = 0;
    while i < cols.len()
        invariant
            i <= cols@.len(),
            r@.len() == i,
            forall|k: int| 0 <= k < i ==> match #[trigger] first_amount(report.accounts@, cols@[k].number@) {
                Some(a) => r@[k] == a,
                None => r@[k] == Amount { mantissa: 0, scale: 0 },
            },
        decreases cols@.len() - i,
    {
        let found = report.konto(cols[i].number.as_str());
        proof { lemma_first_amount(report.accounts@, cols@[i as int].number@, found); }
        match found {
            Some(a) => r.push(a),
            None => r.push(Amount::zero(0)),
        }
        i = i + 1;
    }
    r
}

/// The amount of the first line on account `number`.
pub open spec fn first_amount(lines: Seq<SIEReportAccount>, number: Seq<char>) -> Option<Amount> {
    if exists|k: int| first_line_of(lines, number, k) {
        Some(lines[choose|k: int| first_line_of(lines, number, k)].amount)
    } else {
        None
    }
}

proof fn lemma_first_amount(lines: Seq<SIEReportAccount>, number: Seq<char>, found: Option<Amount>)
    requires
        match found {
            Some(a) => exists|i: int|
                0 <= i < lines.len() && #[trigger] lines[i].number@ == number && lines[i].amount == a
                    && forall|j: int| 0 <= j < i ==> lines[j].number@ != number,
            None => forall|i: int| 0 <= i < lines.len() ==> #[trigger] lines[i].number@ != number,
        },
    ensures
        found == first_amount(lines, number),
{
    match found {
        Some(a) => {
            let i = choose|i: int|
                0 <= i < lines.len() && #[trigger] lines[i].number@ == number && lines[i].amount == a
                    && forall|j: int| 0 <= j < i ==> lines[j].number@ != number;
            assert(first_line_of(lines, number, i));
            let k = choose|k: int| first_line_of(lines, number, k);
            if k < i {
                assert(lines[k].number@ != number);
            } else if i < k {
                assert(lines[i].number@ != number);
            }
        },
        None => {},
    }
}

} // verus!
