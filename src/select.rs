use vstd::prelude::*;
use crate::text::{lowercase, lower_of, parse_u32, u32_text_value};

verus! {

/// The characters of Unicode's `White_Space` property.
pub open spec fn is_white_space(c: char) -> bool {
    ('\u{9}' <= c && c <= '\u{d}') || c == ' ' || c == '\u{85}' || c == '\u{a0}' || c == '\u{1680}'
        || ('\u{2000}' <= c && c <= '\u{200a}') || c == '\u{2028}' || c == '\u{2029}' || c == '\u{202f}'
        || c == '\u{205f}' || c == '\u{3000}'
}

pub fn white_space(c: char) -> (r: bool)
    ensures
        r == is_white_space(c),
{
    ('\u{9}' <= c && c <= '\u{d}') || c == ' ' || c == '\u{85}' || c == '\u{a0}' || c == '\u{1680}'
        || ('\u{2000}' <= c && c <= '\u{200a}') || c == '\u{2028}' || c == '\u{2029}' || c == '\u{202f}'
        || c == '\u{205f}' || c == '\u{3000}'
}

/// The words of `s` from position `i` on, a word being a maximal run of
/// characters that are not white space; `start` is where the word under way
/// began, if one is.
pub open spec fn scan_words(s: Seq<char>, i: int, start: Option<int>) -> Seq<Seq<char>>
    decreases s.len() - i,
{
    if i >= s.len() {
        match start {
            Some(b) => seq![s.subrange(b, s.len() as int)],
            None => Seq::empty(),
        }
    } else if is_white_space(s[i]) {
        match start {
            Some(b) => seq![s.subrange(b, i)] + scan_words(s, i + 1, None),
            None => scan_words(s, i + 1, None),
        }
    } else {
        scan_words(s, i + 1, if start.is_some() { start } else { Some(i) })
    }
}

/// The words of a text, in order.
pub open spec fn words(s: Seq<char>) -> Seq<Seq<char>> {
    scan_words(s, 0, None)
}

pub open spec fn texts_view(v: Seq<String>) -> Seq<Seq<char>> {
    v.map_values(|t: String| t@)
}

/// Splits a text into its words.
pub fn split_words(s: &str) -> (r: Vec<String>)
    ensures
        texts_view(r@) == words(s@),
{
    let n = s.unicode_len();
    let mut done: Vec<String> = Vec::new();
    let mut start: Option<usize> = None;
    let mut i: usize = 0;
    while i < n
        invariant
            i <= n,
            n == s@.len(),
            match start {
                Some(b) => b < i,
                None => true,
            },
            words(s@) == texts_view(done@) + scan_words(s@, i as int, match start {
                Some(b) => Some(b as int),
                None => None,
            }),
        decreases n - i,
    {
        let ghost before = texts_view(done@);
        let c = s.get_char(i);
        if white_space(c) {
            match start {
                Some(b) => {
                    let w = String::from_str(s.substring_char(b, i));
                    done.push(w);
                    assert(texts_view(done@) =~= before.push(w@));
                    assert(before + (seq![s@.subrange(b as int, i as int)] + scan_words(s@, i + 1, None))
                        =~= before.push(w@) + scan_words(s@, i + 1, None));
                },
                None => {},
            }
            start = None;
        } else if start.is_none() {
            start = Some(i);
        }
        i = i + 1;
    }
    match start {
        Some(b) => {
            let ghost before = texts_view(done@);
            let w = String::from_str(s.substring_char(b, n));
            done.push(w);
            assert(texts_view(done@) =~= before.push(w@));
            assert(before + seq![s@.subrange(b as int, n as int)] =~= before.push(w@));
        },
        None => {
            assert(texts_view(done@) + Seq::<Seq<char>>::empty() =~= texts_view(done@));
        },
    }
    done
}

/// The numbers that a list of words selects from `eligible`, each once, in
/// the order of their first appearance; `None` where a word is not a
/// number of `eligible`.
pub open spec fn select_words(ws: Seq<Seq<char>>, eligible: Seq<u32>, acc: Option<Seq<u32>>) -> Option<Seq<u32>>
    decreases ws.len(),
{
    if ws.len() == 0 {
        acc
    } else {
        match acc {
            None => None,
            Some(a) => match u32_text_value(ws[0]) {
                Some(n) => if eligible.contains(n) {
                    select_words(ws.drop_first(), eligible, Some(if a.contains(n) { a } else { a.push(n) }))
                } else {
                    None
                },
                None => None,
            },
        }
    }
}

/// Each number appears once, and each is eligible.
pub open spec fn eligible_once(v: Seq<u32>, eligible: Seq<u32>) -> bool {
    v.no_duplicates() && forall|i: int| 0 <= i < v.len() ==> eligible.contains(#[trigger] v[i])
}

/// A list of numbers that an answer selects names only eligible reports,
/// each once: no report is offered for import twice, and none that a
/// ledger entry already books.
pub proof fn lemma_selection_eligible_once(ws: Seq<Seq<char>>, eligible: Seq<u32>, acc: Seq<u32>)
    requires
        eligible_once(acc, eligible),
    ensures
        match select_words(ws, eligible, Some(acc)) {
            Some(v) => eligible_once(v, eligible),
            None => true,
        },
    decreases ws.len(),
{
    if ws.len() > 0 {
        match u32_text_value(ws[0]) {
            Some(n) => {
                if eligible.contains(n) {
                    let next = if acc.contains(n) { acc } else { acc.push(n) };
                    if !acc.contains(n) {
                        assert forall|i: int, j: int| 0 <= i < next.len() && 0 <= j < next.len() && i != j
                            implies next[i] != next[j] by {
                            if i == acc.len() as int {
                                assert(acc[j] == next[j]);
                            } else if j == acc.len() as int {
                                assert(acc[i] == next[i]);
                            }
                        };
                        assert forall|i: int| 0 <= i < next.len() implies eligible.contains(#[trigger] next[i]) by {
                            if i < acc.len() {
                                assert(next[i] == acc[i]);
                            }
                        };
                    }
                    lemma_selection_eligible_once(ws.drop_first(), eligible, next);
                }
            },
            None => {},
        }
    }
}

pub open spec fn is_yes_word(w: Seq<char>) -> bool {
    w == "y"@ || w == "yes"@ || w == "j"@
}

pub open spec fn is_no_word(w: Seq<char>) -> bool {
    w == "n"@ || w == "no"@ || w == "q"@
}

/// The answer is empty or a single affirmative word.
pub open spec fn answers_all(ws: Seq<Seq<char>>) -> bool {
    ws.len() == 0 || (ws.len() == 1 && is_yes_word(ws[0]))
}

/// The answer is a single negative word.
pub open spec fn answers_none(ws: Seq<Seq<char>>) -> bool {
    ws.len() == 1 && is_no_word(ws[0])
}

/// The operator's decision on which eligible reports to import.
#[derive(Debug, PartialEq, Eq)]
pub enum SelectionOutcome {
    /// Import every eligible report.
    All,
    /// Import none.
    Nothing,
    /// Import these, in this order.
    Subset(Vec<u32>),
    /// The answer names something that is not an eligible report: ask again.
    Invalid,
}

fn contains_number(v: &Vec<u32>, n: u32) -> (r: bool)
    ensures
        r == v@.contains(n),
{
    let mut i: usize = 0;
    while i < v.len()
        invariant
            i <= v@.len(),
            forall|j: int| 0 <= j < i ==> v@[j] != n,
        decreases v@.len() - i,
    {
        if v[i] == n {
            assert(v@[i as int] == n);
            return true;
        }
        i = i + 1;
    }
    false
}

fn is_one_of(w: &String, a: &str, b: &str, c: &str) -> (r: bool)
    ensures
        r == (w@ == a@ || w@ == b@ || w@ == c@),
{
    *w == String::from_str(a) || *w == String::from_str(b) || *w == String::from_str(c)
}

/// Resolves an answer, already lower-cased: empty or `y`, `yes`, `j` selects
/// all; `n`, `no`, `q` selects none; otherwise the answer must be a list of
/// eligible numbers, which are selected once each in order of appearance,
/// and any other word rejects the whole answer.
pub fn resolve_lowered_selection(lowered: &str, eligible: &Vec<u32>) -> (r: SelectionOutcome)
    ensures
        answers_all(words(lowered@)) ==> r == SelectionOutcome::All,
        !answers_all(words(lowered@)) && answers_none(words(lowered@)) ==> r == SelectionOutcome::Nothing,
        !answers_all(words(lowered@)) && !answers_none(words(lowered@)) ==> match select_words(
            words(lowered@),
            eligible@,
            Some(Seq::empty()),
        ) {
            Some(v) => r matches SelectionOutcome::Subset(w) && w@ == v,
            None => r == SelectionOutcome::Invalid,
        },
{
    let ws = split_words(lowered);
    let ghost wv = words(lowered@);
    assert(ws@.len() == wv.len());
    if ws.len() == 0 {
        return SelectionOutcome::All;
    }
    if ws.len() == 1 {
        assert(ws@[0]@ == wv[0]);
        if is_one_of(&ws[0], "y", "yes", "j") {
            return SelectionOutcome::All;
        }
        if is_one_of(&ws[0], "n", "no", "q") {
            return SelectionOutcome::Nothing;
        }
    }
    let mut chosen: Vec<u32> = Vec::new();
    let mut i: usize = 0;
    assert(wv.subrange(0, wv.len() as int) =~= wv);
    while i < ws.len()
        invariant
            i <= ws@.len(),
            wv == texts_view(ws@),
            wv == words(lowered@),
            !answers_all(wv) && !answers_none(wv),
            select_words(wv, eligible@, Some(Seq::empty()))
                == select_words(wv.subrange(i as int, wv.len() as int), eligible@, Some(chosen@)),
        decreases ws@.len() - i,
    {
        let ghost rest = wv.subrange(i as int, wv.len() as int);
        assert(rest[0] == ws@[i as int]@);
        assert(rest.drop_first() =~= wv.subrange(i + 1, wv.len() as int));
        match parse_u32(ws[i].as_str()) {
            Some(n) => {
                if !contains_number(eligible, n) {
                    return SelectionOutcome::Invalid;
                }
                if !contains_number(&chosen, n) {
                    chosen.push(n);
                }
            },
            None => {
                return SelectionOutcome::Invalid;
            },
        }
        i = i + 1;
    }
    assert(wv.subrange(i as int, wv.len() as int).len() == 0);
    SelectionOutcome::Subset(chosen)
}

/// Resolves an operator's answer: it is lower-cased, then read as
/// `resolve_lowered_selection` reads it.
pub fn resolve_selection(input: &str, eligible: &Vec<u32>) -> (r: SelectionOutcome)
    ensures
        answers_all(words(lower_of(input@))) ==> r == SelectionOutcome::All,
        !answers_all(words(lower_of(input@))) && answers_none(words(lower_of(input@))) ==> r
            == SelectionOutcome::Nothing,
        !answers_all(words(lower_of(input@))) && !answers_none(words(lower_of(input@))) ==> match select_words(
            words(lower_of(input@)),
            eligible@,
            Some(Seq::empty()),
        ) {
            Some(v) => r matches SelectionOutcome::Subset(w) && w@ == v,
            None => r == SelectionOutcome::Invalid,
        },
{
    let lowered = lowercase(input);
    resolve_lowered_selection(lowered.as_str(), eligible)
}

} // verus!
