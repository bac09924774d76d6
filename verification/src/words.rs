//! Trimming, splitting into words and joining, with whitespace as
//! `char::is_whitespace` defines it.
use vstd::prelude::*;
use crate::reducers::texts_view;
use crate::text::{char_is_whitespace, chars_of, is_white_space, push_char, push_str, string_of};

verus! {

/// `s` without leading whitespace.
pub open spec fn trim_start(s: Seq<char>) -> Seq<char>
    decreases s.len(),
{
    if s.len() > 0 && is_white_space(s[0]) {
        trim_start(s.drop_first())
    } else {
        s
    }
}

/// `s` without trailing whitespace.
pub open spec fn trim_end(s: Seq<char>) -> Seq<char>
    decreases s.len(),
{
    if s.len() > 0 && is_white_space(s.last()) {
        trim_end(s.drop_last())
    } else {
        s
    }
}

/// `s` without leading and trailing whitespace.
pub open spec fn trimmed(s: Seq<char>) -> Seq<char> {
    trim_start(trim_end(s))
}

/// The maximal runs of characters that are not whitespace, in order.
pub open spec fn words(s: Seq<char>) -> Seq<Seq<char>>
    decreases s.len(),
{
    if s.len() == 0 {
        Seq::empty()
    } else {
        let w = words(s.drop_last());
        let c = s.last();
        if is_white_space(c) {
            w
        } else if s.len() >= 2 && !is_white_space(s[s.len() - 2]) {
            w.update(w.len() - 1, w.last().push(c))
        } else {
            w.push(seq![c])
        }
    }
}

/// The words joined with `sep` between each two.
pub open spec fn join(ws: Seq<Seq<char>>, sep: Seq<char>) -> Seq<char>
    decreases ws.len(),
{
    if ws.len() == 0 {
        Seq::empty()
    } else if ws.len() == 1 {
        ws[0]
    } else {
        join(ws.drop_last(), sep) + sep + ws.last()
    }
}

/// A text that ends in a character that is not whitespace has a word.
proof fn lemma_words_nonempty(s: Seq<char>)
    requires
        s.len() > 0,
        !is_white_space(s.last()),
    ensures
        words(s).len() > 0,
    decreases s.len(),
{
    if s.len() >= 2 && !is_white_space(s[s.len() - 2]) {
        let t = s.drop_last();
        assert(t.last() == s[s.len() - 2]);
        lemma_words_nonempty(t);
    }
}

/// `s` without leading and trailing whitespace (`str::trim`).
pub fn trim(s: &str) -> (r: String)
    ensures
        r@ == trimmed(s@),
{
    let v = chars_of(s);
    let n = v.len();
    let mut j: usize = n;
    assert(v@.take(n as int) =~= v@);
    while j > 0 && char_is_whitespace(v[j - 1])
        invariant
            v@ == s@,
            n == v@.len(),
            j <= n,
            trim_end(s@) == trim_end(v@.take(j as int)),
        decreases j,
    {
        assert(v@.take(j as int).drop_last() =~= v@.take(j - 1));
        j = j - 1;
    }
    let ghost t = v@.take(j as int);
    assert(trim_end(t) == t);
    let mut i: usize = 0;
    assert(t.skip(0) =~= t);
    while i < j && char_is_whitespace(v[i])
        invariant
            v@ == s@,
            n == v@.len(),
            j <= n,
            i <= j,
            t == v@.take(j as int),
            trim_start(t) == trim_start(t.skip(i as int)),
        decreases j - i,
    {
        assert(t.skip(i as int).drop_first() =~= t.skip(i + 1));
        i = i + 1;
    }
    assert(trim_start(t.skip(i as int)) == t.skip(i as int));
    let mut out: Vec<char> = Vec::new();
    let mut k: usize = i;
    while k < j
        invariant
            v@ == s@,
            n == v@.len(),
            i <= k <= j <= n,
            out@ =~= v@.subrange(i as int, k as int),
        decreases j - k,
    {
        out.push(v[k]);
        k = k + 1;
    }
    assert(out@ =~= t.skip(i as int));
    string_of(&out)
}

/// The words of `s` (`str::split_whitespace`).
pub fn split_words(s: &str) -> (r: Vec<String>)
    ensures
        texts_view(r@) == words(s@),
{
    let v = chars_of(s);
    let mut out: Vec<String> = Vec::new();
    let mut i: usize = 0;
    assert(v@.take(0) =~= Seq::<char>::empty());
    assert(texts_view(out@) =~= words(v@.take(0)));
    while i < v.len()
        invariant
            v@ == s@,
            i <= v@.len(),
            texts_view(out@) == words(v@.take(i as int)),
        decreases v@.len() - i,
    {
        let c = v[i];
        let ghost t = v@.take(i + 1);
        assert(t.drop_last() =~= v@.take(i as int));
        assert(t.last() == c);
        if char_is_whitespace(c) {
        } else if i >= 1 && !char_is_whitespace(v[i - 1]) {
            assert(t[t.len() - 2] == v@[i - 1]);
            proof {
                let p = v@.take(i as int);
                assert(p.last() == v@[i - 1]);
                lemma_words_nonempty(p);
            }
            let ghost before = texts_view(out@);
            let mut last = out.pop().unwrap();
            push_char(&mut last, c);
            out.push(last);
            assert(texts_view(out@) =~= before.update(before.len() - 1, before.last().push(c)));
        } else {
            let ghost before = texts_view(out@);
            let mut w = String::new();
            push_char(&mut w, c);
            out.push(w);
            assert(texts_view(out@) =~= before.push(seq![c]));
        }
        i = i + 1;
    }
    assert(v@.take(v@.len() as int) =~= v@);
    out
}

/// The strings of `v` from index `start` on, joined with `sep` (`[String]::join`).
pub fn join_from(v: &Vec<String>, start: usize, sep: &str) -> (r: String)
    requires
        start <= v@.len(),
    ensures
        r@ == join(texts_view(v@).skip(start as int), sep@),
{
    let ghost tv = texts_view(v@);
    let mut r = String::new();
    let mut i: usize = start;
    assert(tv.subrange(start as int, start as int) =~= Seq::<Seq<char>>::empty());
    while i < v.len()
        invariant
            tv == texts_view(v@),
            start <= i <= v@.len(),
            r@ == join(tv.subrange(start as int, i as int), sep@),
        decreases v@.len() - i,
    {
        let ghost part = tv.subrange(start as int, i + 1);
        assert(part.drop_last() =~= tv.subrange(start as int, i as int));
        assert(part.last() == v@[i as int]@);
        if i > start {
            push_str(&mut r, sep);
        }
        push_str(&mut r, v[i].as_str());
        i = i + 1;
        proof {
            if part.len() == 1 {
                assert(r@ =~= part[0]);
            } else {
                assert(r@ =~= join(part.drop_last(), sep@) + sep@ + part.last());
            }
        }
    }
    assert(tv.subrange(start as int, v@.len() as int) =~= tv.skip(start as int));
    r
}

} // verus!
