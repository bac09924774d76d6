//! Editing of the input line: a character sequence with a cursor that is a
//! byte offset into the line's UTF-8 encoding.
use vstd::prelude::*;
use crate::actions::InputAction;
use crate::text::{
    byte_len, char_is_whitespace, char_len_utf8, char_width, chars_of, is_white_space,
    lemma_byte_len_encode, lemma_byte_len_take_injective,
    lemma_byte_len_take_mono, lemma_byte_len_take_step, string_of,
};

verus! {

broadcast use vstd::seq::group_seq_axioms;

/// `pos` is a byte offset at which a character of `s` starts, or the end of `s`.
pub open spec fn is_boundary(s: Seq<char>, pos: int) -> bool {
    exists|k: int| 0 <= k <= s.len() && byte_len(s.take(k)) == pos
}

/// The index of the character that starts at byte offset `pos`.
pub open spec fn char_pos(s: Seq<char>, pos: int) -> int {
    choose|k: int| 0 <= k <= s.len() && byte_len(s.take(k)) == pos
}

/// The byte offset of character index `k`.
pub open spec fn byte_pos(s: Seq<char>, k: int) -> int {
    byte_len(s.take(k)) as int
}

/// Moves left over whitespace, stopping at index 0.
pub open spec fn skip_space_back(s: Seq<char>, pos: int) -> int
    decreases pos,
{
    if pos > 0 && pos < s.len() && is_white_space(s[pos]) {
        skip_space_back(s, pos - 1)
    } else {
        pos
    }
}

/// Moves left over non-whitespace, stopping at index 0.
pub open spec fn skip_word_back(s: Seq<char>, pos: int) -> int
    decreases pos,
{
    if pos > 0 && pos < s.len() && !is_white_space(s[pos]) {
        skip_word_back(s, pos - 1)
    } else {
        pos
    }
}

/// Moves right over non-whitespace, stopping at the end.
pub open spec fn skip_word_fwd(s: Seq<char>, pos: int) -> int
    decreases s.len() - pos,
{
    if 0 <= pos < s.len() && !is_white_space(s[pos]) {
        skip_word_fwd(s, pos + 1)
    } else {
        pos
    }
}

/// Moves right over whitespace, stopping at the end.
pub open spec fn skip_space_fwd(s: Seq<char>, pos: int) -> int
    decreases s.len() - pos,
{
    if 0 <= pos < s.len() && is_white_space(s[pos]) {
        skip_space_fwd(s, pos + 1)
    } else {
        pos
    }
}

/// Where a backward word deletion or movement stops, from the character before index `k`.
pub open spec fn word_start_before(s: Seq<char>, k: int) -> int {
    skip_word_back(s, skip_space_back(s, k - 1))
}

/// Where a forward word deletion or movement stops, from index `k`.
pub open spec fn word_end_after(s: Seq<char>, k: int) -> int {
    skip_space_fwd(s, skip_word_fwd(s, k))
}

/// The actions that only edit the line and its cursor.
pub open spec fn is_line_edit(a: InputAction) -> bool {
    !(a is SubmitInput || a is HistoryUp || a is HistoryDown)
}

/// When a line edit can run: the cursor must be a character boundary wherever
/// the edit reads the text before or after it.
pub open spec fn line_edit_pre(s: Seq<char>, cursor: int, a: InputAction) -> bool {
    let ok = is_boundary(s, cursor);
    match a {
        InputAction::InsertChar(_) => ok,
        InputAction::DeleteChar => cursor > 0 ==> ok,
        InputAction::DeleteCharForward => cursor < byte_len(s) ==> ok,
        InputAction::DeleteWordBackward => cursor > 0 ==> ok,
        InputAction::DeleteWordForward => ok,
        InputAction::MoveCursorLeft => cursor > 0 ==> ok,
        InputAction::MoveCursorRight => cursor < byte_len(s) ==> ok,
        InputAction::MoveCursorWordLeft => ok,
        InputAction::MoveCursorWordRight => ok,
        _ => true,
    }
}

/// The line and cursor after a line edit.
pub open spec fn line_edit(s: Seq<char>, cursor: int, a: InputAction) -> (Seq<char>, int) {
    let k = char_pos(s, cursor);
    match a {
        InputAction::InsertChar(c) => (
            s.take(k) + seq![c] + s.skip(k),
            cursor + char_width(c),
        ),
        InputAction::DeleteChar => if cursor > 0 {
            (s.take(k - 1) + s.skip(k), byte_pos(s, k - 1))
        } else {
            (s, cursor)
        },
        InputAction::DeleteCharForward => if cursor < byte_len(s) {
            (s.take(k) + s.skip(k + 1), cursor)
        } else {
            (s, cursor)
        },
        InputAction::DeleteWordBackward => if cursor > 0 {
            let p = word_start_before(s, k);
            let p = if p > 0 { p + 1 } else { p };
            (s.take(p) + s.skip(k), byte_pos(s, p))
        } else {
            (s, cursor)
        },
        InputAction::DeleteWordForward => {
            let p = word_end_after(s, k);
            (s.take(k) + s.skip(p), cursor)
        },
        InputAction::MoveCursorLeft => if cursor > 0 {
            (s, byte_pos(s, k - 1))
        } else {
            (s, cursor)
        },
        InputAction::MoveCursorRight => if cursor < byte_len(s) {
            (s, byte_pos(s, k + 1))
        } else {
            (s, cursor)
        },
        InputAction::MoveCursorStart => (s, 0),
        InputAction::MoveCursorEnd => (s, byte_len(s) as int),
        InputAction::MoveCursorWordLeft => if k == 0 {
            (s, cursor)
        } else {
            let p = word_start_before(s, k);
            (s, if p > 0 { byte_pos(s, p + 1) } else { 0 })
        },
        InputAction::MoveCursorWordRight => if k >= s.len() {
            (s, cursor)
        } else {
            (s, byte_pos(s, word_end_after(s, k)))
        },
        InputAction::ClearInput => (Seq::empty(), 0),
        InputAction::SetInput(t) => (t@, byte_len(t@) as int),
        _ => (s, cursor),
    }
}

/// The byte length of any string fits in `usize`.
pub fn byte_len_fits(s: &str)
    ensures
        byte_len(s@) <= usize::MAX,
{
    let b = s.as_bytes();
    let _n = b.len();
    proof {
        lemma_byte_len_encode(s@);
    }
}

/// The byte offset of character index `k`.
pub fn prefix_bytes(chars: &Vec<char>, k: usize) -> (n: usize)
    requires
        k <= chars@.len(),
        byte_len(chars@) <= usize::MAX,
    ensures
        n == byte_pos(chars@, k as int),
{
    let mut acc: usize = 0;
    let mut i: usize = 0;
    while i < k
        invariant
            k <= chars@.len(),
            byte_len(chars@) <= usize::MAX,
            i <= k,
            acc == byte_len(chars@.take(i as int)),
        decreases k - i,
    {
        proof {
            lemma_byte_len_take_step(chars@, i as int);
            lemma_byte_len_take_mono(chars@, i as int + 1, chars@.len() as int);
            assert(chars@.take(chars@.len() as int) =~= chars@);
        }
        let w = char_len_utf8(chars[i]);
        acc = acc + w;
        i = i + 1;
    }
    acc
}

/// The character index at byte offset `cursor`.
pub fn char_index_at(chars: &Vec<char>, cursor: usize) -> (k: usize)
    requires
        is_boundary(chars@, cursor as int),
    ensures
        k == char_pos(chars@, cursor as int),
        0 <= k <= chars@.len(),
        byte_len(chars@.take(k as int)) == cursor,
{
    let ghost k0 = choose|k: int| 0 <= k <= chars@.len() && byte_len(chars@.take(k)) == cursor;
    let len = chars.len();
    let mut acc: usize = 0;
    let mut i: usize = 0;
    while acc < cursor
        invariant
            0 <= k0 <= chars@.len(),
            len == chars@.len(),
            byte_len(chars@.take(k0)) == cursor,
            i <= k0,
            acc == byte_len(chars@.take(i as int)),
        decreases k0 - i,
    {
        proof {
            if i == k0 {
                assert(false);
            }
            lemma_byte_len_take_step(chars@, i as int);
            lemma_byte_len_take_mono(chars@, i as int + 1, k0);
        }
        let w = char_len_utf8(chars[i]);
        acc = acc + w;
        i = i + 1;
    }
    proof {
        lemma_byte_len_take_mono(chars@, i as int, k0);
        lemma_byte_len_take_injective(chars@, i as int, k0);
    }
    i
}

/// `chars[from..]` followed by nothing: the characters of `chars` outside `from..to`.
fn without_range(chars: &Vec<char>, from: usize, to: usize) -> (v: Vec<char>)
    requires
        from <= to <= chars@.len(),
    ensures
        v@ == chars@.take(from as int) + chars@.skip(to as int),
{
    let mut v: Vec<char> = Vec::new();
    let mut i: usize = 0;
    while i < from
        invariant
            from <= to <= chars@.len(),
            i <= from,
            v@ =~= chars@.take(i as int),
        decreases from - i,
    {
        v.push(chars[i]);
        i = i + 1;
    }
    let mut j: usize = to;
    while j < chars.len()
        invariant
            from <= to <= j <= chars@.len(),
            v@ =~= chars@.take(from as int) + chars@.subrange(to as int, j as int),
        decreases chars@.len() - j,
    {
        v.push(chars[j]);
        j = j + 1;
    }
    assert(chars@.subrange(to as int, chars@.len() as int) =~= chars@.skip(to as int));
    v
}

/// `chars` with `c` inserted at index `k`.
fn with_inserted(chars: &Vec<char>, k: usize, c: char) -> (v: Vec<char>)
    requires
        k <= chars@.len(),
    ensures
        v@ == chars@.take(k as int) + seq![c] + chars@.skip(k as int),
{
    let mut v: Vec<char> = Vec::new();
    let mut i: usize = 0;
    while i < k
        invariant
            k <= chars@.len(),
            i <= k,
            v@ =~= chars@.take(i as int),
        decreases k - i,
    {
        v.push(chars[i]);
        i = i + 1;
    }
    v.push(c);
    let mut j: usize = k;
    while j < chars.len()
        invariant
            k <= j <= chars@.len(),
            v@ =~= chars@.take(k as int) + seq![c] + chars@.subrange(k as int, j as int),
        decreases chars@.len() - j,
    {
        v.push(chars[j]);
        j = j + 1;
    }
    assert(chars@.subrange(k as int, chars@.len() as int) =~= chars@.skip(k as int));
    v
}

fn space_back(chars: &Vec<char>, pos: usize) -> (p: usize)
    requires
        pos < chars@.len() || pos == 0,
    ensures
        p == skip_space_back(chars@, pos as int),
    decreases pos,
{
    if pos > 0 && pos < chars.len() && char_is_whitespace(chars[pos]) {
        space_back(chars, pos - 1)
    } else {
        pos
    }
}

fn word_back(chars: &Vec<char>, pos: usize) -> (p: usize)
    requires
        pos < chars@.len() || pos == 0,
    ensures
        p == skip_word_back(chars@, pos as int),
    decreases pos,
{
    if pos > 0 && pos < chars.len() && !char_is_whitespace(chars[pos]) {
        word_back(chars, pos - 1)
    } else {
        pos
    }
}

fn word_fwd(chars: &Vec<char>, pos: usize) -> (p: usize)
    requires
        pos <= chars@.len(),
    ensures
        p == skip_word_fwd(chars@, pos as int),
        pos <= p <= chars@.len(),
    decreases chars@.len() - pos,
{
    if pos < chars.len() && !char_is_whitespace(chars[pos]) {
        word_fwd(chars, pos + 1)
    } else {
        pos
    }
}

fn space_fwd(chars: &Vec<char>, pos: usize) -> (p: usize)
    requires
        pos <= chars@.len(),
    ensures
        p == skip_space_fwd(chars@, pos as int),
        pos <= p <= chars@.len(),
    decreases chars@.len() - pos,
{
    if pos < chars.len() && char_is_whitespace(chars[pos]) {
        space_fwd(chars, pos + 1)
    } else {
        pos
    }
}

/// Backward skips stay between the start and where they begin.
pub proof fn lemma_skip_back_bounds(s: Seq<char>, pos: int)
    requires
        0 <= pos < s.len() || pos == 0,
    ensures
        0 <= skip_space_back(s, pos) <= pos,
        0 <= skip_word_back(s, pos) <= pos,
    decreases pos,
{
    if pos > 0 {
        lemma_skip_back_bounds(s, pos - 1);
    }
}

/// Applies a line edit to the input line and its cursor.
pub fn edit_line(input: &String, cursor: usize, a: &InputAction) -> (r: (String, usize))
    requires
        is_line_edit(*a),
        line_edit_pre(input@, cursor as int, *a),
    ensures
        (r.0@, r.1 as int) == line_edit(input@, cursor as int, *a),
{
    let chars = chars_of(input.as_str());
    byte_len_fits(input.as_str());
    assert(chars@ == input@);
    match a {
        InputAction::InsertChar(c) => {
            let k = char_index_at(&chars, cursor);
            let v = with_inserted(&chars, k, *c);
            let s = string_of(&v);
            let _vl = v.len();
            proof {
                assert(v@.take(k as int + 1) =~= chars@.take(k as int) + seq![*c]);
                lemma_byte_len_take_step(v@, k as int);
                assert(v@.take(k as int) =~= chars@.take(k as int));
            }
            byte_len_fits(s.as_str());
            proof {
                lemma_byte_len_take_mono(v@, k as int + 1, v@.len() as int);
                assert(v@.take(v@.len() as int) =~= v@);
            }
            let n = prefix_bytes(&v, k + 1);
            (s, n)
        },
        InputAction::DeleteChar => {
            if cursor > 0 {
                let k = char_index_at(&chars, cursor);
                assert(k > 0) by {
                    if k == 0 {
                        assert(chars@.take(0) =~= Seq::<char>::empty());
                    }
                }
                let v = without_range(&chars, k - 1, k);
                let n = prefix_bytes(&chars, k - 1);
                (string_of(&v), n)
            } else {
                (string_of(&chars), cursor)
            }
        },
        InputAction::DeleteCharForward => {
            let total = prefix_bytes(&chars, chars.len());
            assert(chars@.take(chars@.len() as int) =~= chars@);
            if cursor < total {
                let k = char_index_at(&chars, cursor);
                assert(k < chars@.len());
                let v = without_range(&chars, k, k + 1);
                (string_of(&v), cursor)
            } else {
                (string_of(&chars), cursor)
            }
        },
        InputAction::DeleteWordBackward => {
            if cursor > 0 {
                let k = char_index_at(&chars, cursor);
                assert(k > 0) by {
                    if k == 0 {
                        assert(chars@.take(0) =~= Seq::<char>::empty());
                    }
                }
                let p1 = space_back(&chars, k - 1);
                proof {
                    lemma_skip_back_bounds(chars@, k - 1);
                }
                let p2 = word_back(&chars, p1);
                proof {
                    lemma_skip_back_bounds(chars@, p1 as int);
                }
                let p = if p2 > 0 { p2 + 1 } else { p2 };
                let v = without_range(&chars, p, k);
                let n = prefix_bytes(&chars, p);
                (string_of(&v), n)
            } else {
                (string_of(&chars), cursor)
            }
        },
        InputAction::DeleteWordForward => {
            let k = char_index_at(&chars, cursor);
            let p1 = word_fwd(&chars, k);
            let p = space_fwd(&chars, p1);
            let v = without_range(&chars, k, p);
            (string_of(&v), cursor)
        },
        InputAction::MoveCursorLeft => {
            if cursor > 0 {
                let k = char_index_at(&chars, cursor);
                assert(k > 0) by {
                    if k == 0 {
                        assert(chars@.take(0) =~= Seq::<char>::empty());
                    }
                }
                let n = prefix_bytes(&chars, k - 1);
                (string_of(&chars), n)
            } else {
                (string_of(&chars), cursor)
            }
        },
        InputAction::MoveCursorRight => {
            let total = prefix_bytes(&chars, chars.len());
            assert(chars@.take(chars@.len() as int) =~= chars@);
            if cursor < total {
                let k = char_index_at(&chars, cursor);
                assert(k < chars@.len());
                let n = prefix_bytes(&chars, k + 1);
                (string_of(&chars), n)
            } else {
                (string_of(&chars), cursor)
            }
        },
        InputAction::MoveCursorStart => (string_of(&chars), 0),
        InputAction::MoveCursorEnd => {
            let total = prefix_bytes(&chars, chars.len());
            assert(chars@.take(chars@.len() as int) =~= chars@);
            (string_of(&chars), total)
        },
        InputAction::MoveCursorWordLeft => {
            let k = char_index_at(&chars, cursor);
            if k == 0 {
                (string_of(&chars), cursor)
            } else {
                let p1 = space_back(&chars, k - 1);
                proof {
                    lemma_skip_back_bounds(chars@, k - 1);
                }
                let p2 = word_back(&chars, p1);
                proof {
                    lemma_skip_back_bounds(chars@, p1 as int);
                }
                let n = if p2 > 0 {
                    prefix_bytes(&chars, p2 + 1)
                } else {
                    0
                };
                (string_of(&chars), n)
            }
        },
        InputAction::MoveCursorWordRight => {
            let k = char_index_at(&chars, cursor);
            if k >= chars.len() {
                (string_of(&chars), cursor)
            } else {
                let p1 = word_fwd(&chars, k);
                let p = space_fwd(&chars, p1);
                let n = prefix_bytes(&chars, p);
                (string_of(&chars), n)
            }
        },
        InputAction::ClearInput => (String::new(), 0),
        InputAction::SetInput(t) => {
            let tc = chars_of(t.as_str());
            byte_len_fits(t.as_str());
            let n = prefix_bytes(&tc, tc.len());
            assert(tc@.take(tc@.len() as int) =~= tc@);
            (t.clone(), n)
        },
        _ => (string_of(&chars), cursor),
    }
}

} // verus!
