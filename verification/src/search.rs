//! Searching message contents for every non-overlapping occurrence of a query.
use vstd::prelude::*;
use crate::actions::{msgs_view, Message, MessageView};
use crate::input::{byte_len_fits, byte_pos, prefix_bytes};
use crate::text::{byte_len, chars_of, lemma_byte_len_concat, lowercase, str_to_lowercase};

verus! {

broadcast use vstd::seq::group_seq_axioms;

/// A match of the search query inside a message.
#[derive(Debug, Clone, PartialEq, Eq, Structural)]
pub struct SearchMatch {
    /// Index of the message.
    pub message_index: usize,
    /// Byte offset where the match starts in the searched text.
    pub start: usize,
    /// Byte offset just past the match in the searched text.
    pub end: usize,
}

/// `pat` occurs in `text` at character index `p`.
pub open spec fn occurs_at(text: Seq<char>, pat: Seq<char>, p: int) -> bool {
    0 <= p && p + pat.len() <= text.len() && text.subrange(p, p + pat.len()) == pat
}

/// The first character index at or after `from` where `pat` occurs.
pub open spec fn first_occurrence(text: Seq<char>, pat: Seq<char>, from: int) -> Option<int>
    decreases text.len() + 1 - from,
{
    if from < 0 || from + pat.len() > text.len() {
        None
    } else if occurs_at(text, pat, from) {
        Some(from)
    } else {
        first_occurrence(text, pat, from + 1)
    }
}

/// What the first occurrence is.
pub proof fn lemma_first_occurrence(text: Seq<char>, pat: Seq<char>, from: int)
    requires
        from >= 0,
    ensures
        first_occurrence(text, pat, from) matches Some(p) ==> from <= p && occurs_at(text, pat, p),
        first_occurrence(text, pat, from) matches Some(p) ==> forall|q: int|
            from <= q < p ==> !occurs_at(text, pat, q),
        first_occurrence(text, pat, from) is None ==> forall|q: int|
            from <= q ==> !occurs_at(text, pat, q),
    decreases text.len() + 1 - from,
{
    if from < 0 || from + pat.len() > text.len() {
    } else if occurs_at(text, pat, from) {
    } else {
        lemma_first_occurrence(text, pat, from + 1);
    }
}

/// The matches of `pat` in `text` found by scanning from character index
/// `from`, each search resuming just past the previous match.
pub open spec fn matches_from(text: Seq<char>, pat: Seq<char>, from: int, msg: usize) -> Seq<SearchMatch>
    decreases text.len() - from,
{
    if pat.len() == 0 || from < 0 {
        Seq::empty()
    } else {
        match first_occurrence(text, pat, from) {
            None => Seq::empty(),
            Some(p) => {
                proof {
                    lemma_first_occurrence(text, pat, from);
                }
                seq![
                    SearchMatch {
                        message_index: msg,
                        start: byte_pos(text, p) as usize,
                        end: (byte_pos(text, p) + byte_len(pat)) as usize,
                    },
                ] + matches_from(text, pat, p + pat.len(), msg)
            },
        }
    }
}

/// The text that is searched in a message.
pub open spec fn searched_text(m: MessageView, case_sensitive: bool) -> Seq<char> {
    if case_sensitive {
        m.content
    } else {
        lowercase(m.content)
    }
}

/// The pattern searched for.
pub open spec fn search_pattern(query: Seq<char>, case_sensitive: bool) -> Seq<char> {
    if case_sensitive {
        query
    } else {
        lowercase(query)
    }
}

/// All matches in the first `n` messages, in message order.
pub open spec fn matches_upto(msgs: Seq<MessageView>, pat: Seq<char>, cs: bool, n: int) -> Seq<SearchMatch>
    decreases n,
{
    if n <= 0 {
        Seq::empty()
    } else {
        matches_upto(msgs, pat, cs, n - 1) + matches_from(searched_text(msgs[n - 1], cs), pat, 0, (n - 1) as usize)
    }
}

/// All matches of `query` in `msgs`.
pub open spec fn search_spec(msgs: Seq<MessageView>, query: Seq<char>, cs: bool) -> Seq<SearchMatch> {
    matches_upto(msgs, search_pattern(query, cs), cs, msgs.len() as int)
}

/// The matches come in message order; within one message each match ends
/// no later than the next one starts, so none overlaps another.
pub open spec fn results_ordered(r: Seq<SearchMatch>) -> bool {
    &&& forall|k: int| 0 <= k < r.len() ==> (#[trigger] r[k]).start <= r[k].end
    &&& forall|i: int, j: int| 0 <= i < j < r.len() ==> (#[trigger] r[i]).message_index <= (#[trigger] r[j]).message_index
        && (r[i].message_index == r[j].message_index ==> r[i].end <= r[j].start)
}

/// The matches found in one text from `from` on: all of message `msg`, each
/// starting at or after `from`'s byte offset and ending within the text, in
/// order and apart.
proof fn lemma_matches_from_ordered(text: Seq<char>, pat: Seq<char>, from: int, msg: usize)
    requires
        0 <= from <= text.len(),
        byte_len(text) <= usize::MAX,
    ensures
        results_ordered(matches_from(text, pat, from, msg)),
        forall|k: int| 0 <= k < matches_from(text, pat, from, msg).len() ==> {
            let m = #[trigger] matches_from(text, pat, from, msg)[k];
            m.message_index == msg && byte_len(text.take(from)) <= m.start && m.end <= byte_len(text)
        },
    decreases text.len() - from,
{
    let r = matches_from(text, pat, from, msg);
    if pat.len() > 0 {
        lemma_first_occurrence(text, pat, from);
        if let Some(p) = first_occurrence(text, pat, from) {
            let q = p + pat.len();
            assert(text.take(q) =~= text.take(p) + pat);
            lemma_byte_len_concat(text.take(p), pat);
            crate::text::lemma_byte_len_take_mono(text, from, p);
            crate::text::lemma_byte_len_take_mono(text, q, text.len() as int);
            assert(text.take(text.len() as int) =~= text);
            lemma_matches_from_ordered(text, pat, q, msg);
            let tail = matches_from(text, pat, q, msg);
            let h = SearchMatch {
                message_index: msg,
                start: byte_pos(text, p) as usize,
                end: (byte_pos(text, p) + byte_len(pat)) as usize,
            };
            assert(r == seq![h] + tail);
            assert forall|k: int| 0 <= k < r.len() implies {
                let m = #[trigger] r[k];
                m.message_index == msg && byte_len(text.take(from)) <= m.start && m.end <= byte_len(text)
            } by {
                if k > 0 {
                    assert(r[k] == tail[k - 1]);
                }
            }
            assert forall|i: int, j: int| 0 <= i < j < r.len() implies (#[trigger] r[i]).message_index
                <= (#[trigger] r[j]).message_index && (r[i].message_index == r[j].message_index
                ==> r[i].end <= r[j].start) by {
                assert(r[j] == tail[j - 1]);
                if i > 0 {
                    assert(r[i] == tail[i - 1]);
                }
            }
            assert forall|k: int| 0 <= k < r.len() implies (#[trigger] r[k]).start <= r[k].end by {
                if k > 0 {
                    assert(r[k] == tail[k - 1]);
                }
            }
        }
    }
}

/// The matches in the first `n` messages: each in one of them, in order and
/// apart.
proof fn lemma_matches_upto_ordered(msgs: Seq<MessageView>, pat: Seq<char>, cs: bool, n: int)
    requires
        0 <= n <= msgs.len() <= usize::MAX,
        forall|i: int| 0 <= i < n ==> byte_len(#[trigger] searched_text(msgs[i], cs)) <= usize::MAX,
    ensures
        results_ordered(matches_upto(msgs, pat, cs, n)),
        forall|k: int| 0 <= k < matches_upto(msgs, pat, cs, n).len()
            ==> (#[trigger] matches_upto(msgs, pat, cs, n)[k]).message_index < n,
    decreases n,
{
    if n > 0 {
        lemma_matches_upto_ordered(msgs, pat, cs, n - 1);
        let a = matches_upto(msgs, pat, cs, n - 1);
        let t = searched_text(msgs[n - 1], cs);
        assert(byte_len(t) <= usize::MAX);
        lemma_matches_from_ordered(t, pat, 0, (n - 1) as usize);
        let b = matches_from(t, pat, 0, (n - 1) as usize);
        let r = matches_upto(msgs, pat, cs, n);
        assert(r == a + b);
        assert forall|k: int| 0 <= k < r.len() implies (#[trigger] r[k]).message_index < n && r[k].start <= r[k].end by {
            if k >= a.len() {
                assert(r[k] == b[k - a.len()]);
            }
        }
        assert forall|i: int, j: int| 0 <= i < j < r.len() implies (#[trigger] r[i]).message_index
            <= (#[trigger] r[j]).message_index && (r[i].message_index == r[j].message_index
            ==> r[i].end <= r[j].start) by {
            if j >= a.len() {
                assert(r[j] == b[j - a.len()]);
                if i >= a.len() {
                    assert(r[i] == b[i - a.len()]);
                }
            }
        }
    }
}

/// The first occurrence of `pat` at or after `from`.
fn find_from(text: &Vec<char>, pat: &Vec<char>, from: usize) -> (r: Option<usize>)
    requires
        from <= text@.len(),
    ensures
        r == (match first_occurrence(text@, pat@, from as int) {
            Some(p) => Some(p as usize),
            None => None::<usize>,
        }),
        r matches Some(p) ==> p + pat@.len() <= text@.len(),
{
    let n = text.len();
    let m = pat.len();
    let mut i: usize = from;
    while i <= n && m <= n - i
        invariant
            n == text@.len(),
            m == pat@.len(),
            from <= i,
            first_occurrence(text@, pat@, from as int) == first_occurrence(text@, pat@, i as int),
        decreases n - i + 1,
    {
        let mut j: usize = 0;
        let mut ok = true;
        while j < m
            invariant
                n == text@.len(),
                m == pat@.len(),
                i + m <= n,
                j <= m,
                ok == (forall|t: int| 0 <= t < j ==> text@[i + t] == pat@[t]),
            decreases m - j,
        {
            if text[i + j] != pat[j] {
                ok = false;
            }
            j = j + 1;
        }
        if ok {
            assert(text@.subrange(i as int, i + m) =~= pat@);
            return Some(i);
        }
        assert(!occurs_at(text@, pat@, i as int)) by {
            if occurs_at(text@, pat@, i as int) {
                assert forall|t: int| 0 <= t < m implies text@[i + t] == pat@[t] by {
                    assert(text@.subrange(i as int, i + m)[t] == text@[i + t]);
                }
            }
        }
        i = i + 1;
    }
    None
}

/// Searches `msgs` for every non-overlapping occurrence of `query`; without
/// case sensitivity both sides are lowercased first. The matches come in
/// message order and, within a message, in text order and apart.
pub fn search_messages(msgs: &Vec<Message>, query: &str, case_sensitive: bool) -> (r: Vec<SearchMatch>)
    requires
        query@.len() > 0,
    ensures
        r@ == search_spec(msgs_view(msgs@), query@, case_sensitive),
        results_ordered(r@),
{
    let ghost views = msgs_view(msgs@);
    let pattern = if case_sensitive {
        query.to_owned()
    } else {
        str_to_lowercase(query)
    };
    let pat = chars_of(pattern.as_str());
    byte_len_fits(pattern.as_str());
    let ghost pv = search_pattern(query@, case_sensitive);
    assert(pat@ == pv);
    assert(pv.len() > 0);
    let mut results: Vec<SearchMatch> = Vec::new();
    let mut i: usize = 0;
    while i < msgs.len()
        invariant
            views == msgs_view(msgs@),
            pat@ == pv,
            pv.len() > 0,
            byte_len(pv) <= usize::MAX,
            i <= msgs@.len(),
            results@ == matches_upto(views, pv, case_sensitive, i as int),
            forall|k: int| 0 <= k < i ==> byte_len(#[trigger] searched_text(views[k], case_sensitive)) <= usize::MAX,
        decreases msgs@.len() - i,
    {
        let text_string = if case_sensitive {
            msgs[i].content.clone()
        } else {
            str_to_lowercase(msgs[i].content.as_str())
        };
        let text = chars_of(text_string.as_str());
        let tlen = text.len();
        byte_len_fits(text_string.as_str());
        let ghost tv = searched_text(views[i as int], case_sensitive);
        assert(text@ == tv);
        let mut start: usize = 0;
        let ghost base = results@;
        loop
            invariant
                pat@ == pv,
                pv.len() > 0,
                text@ == tv,
                tlen == text@.len(),
                byte_len(tv) <= usize::MAX,
                start <= text@.len(),
                results@ + matches_from(tv, pv, start as int, i) == base + matches_from(tv, pv, 0, i),
            ensures
                results@ == base + matches_from(tv, pv, 0, i),
            decreases text@.len() - start,
        {
            match find_from(&text, &pat, start) {
                None => {
                    assert(matches_from(tv, pv, start as int, i) =~= Seq::<SearchMatch>::empty());
                    assert(results@ + Seq::<SearchMatch>::empty() =~= results@);
                    break;
                },
                Some(p) => {
                    proof {
                        lemma_first_occurrence(tv, pv, start as int);
                    }
                    let s = prefix_bytes(&text, p);
                    let e = prefix_bytes(&text, p + pat.len());
                    proof {
                        assert(tv.take(p + pv.len()) =~= tv.take(p as int) + pv);
                        lemma_byte_len_concat(tv.take(p as int), pv);
                    }
                    let item = SearchMatch { message_index: i, start: s, end: e };
                    let ghost old_results = results@;
                    results.push(item);
                    assert(results@ + matches_from(tv, pv, (p + pat.len()) as int, i) =~= old_results
                        + matches_from(tv, pv, start as int, i));
                    start = p + pat.len();
                },
            }
        }
        assert(results@ =~= matches_upto(views, pv, case_sensitive, i + 1));
        i = i + 1;
    }
    proof {
        lemma_matches_upto_ordered(views, pv, case_sensitive, views.len() as int);
    }
    results
}

} // verus!
