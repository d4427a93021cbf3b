//! What holds of the counts of every byte sequence.

use vstd::prelude::*;
use crate::classify::{
    char_count, closes_word, in_word_after, is_continuation, is_space, last_character_at, line_count,
    one_if, word_count, word_end_at, word_ends,
};

verus! {

/// The characters of `s` are at most its bytes, and as many exactly when no
/// byte of `s` is a continuation byte.
pub proof fn lemma_char_count_bounds(s: Seq<u8>)
    ensures
        char_count(s) <= s.len(),
        char_count(s) == s.len() <==> forall|i: int|
            0 <= i < s.len() ==> !is_continuation(#[trigger] s[i]),
    decreases s.len(),
{
    if s.len() > 0 {
        let t = s.drop_last();
        lemma_char_count_bounds(t);
        if char_count(s) == s.len() {
            assert forall|i: int| 0 <= i < s.len() implies !is_continuation(#[trigger] s[i]) by {
                if i < t.len() {
                    assert(s[i] == t[i]);
                }
            }
        }
        if forall|i: int| 0 <= i < s.len() ==> !is_continuation(#[trigger] s[i]) {
            assert forall|i: int| 0 <= i < t.len() implies !is_continuation(#[trigger] t[i]) by {
                assert(t[i] == s[i]);
            }
        }
    }
}

/// The characters of `s` are the bytes that a filter for non-continuation
/// bytes keeps.
pub proof fn lemma_char_count_is_filter_len(s: Seq<u8>)
    ensures
        char_count(s) == s.filter(|b: u8| !is_continuation(b)).len(),
    decreases s.len(),
{
    reveal(Seq::filter);
    if s.len() > 0 {
        lemma_char_count_is_filter_len(s.drop_last());
    }
}

/// The lines of `s` are its bytes `0x0A`, whatever stands around them: no
/// other byte class and no state of the pass enters the count.
pub proof fn lemma_line_count_is_filter_len(s: Seq<u8>)
    ensures
        line_count(s) == s.filter(|b: u8| b == 0x0A).len(),
    decreases s.len(),
{
    reveal(Seq::filter);
    if s.len() > 0 {
        lemma_line_count_is_filter_len(s.drop_last());
    }
}

/// After a run `t` without whitespace the pass is inside a word if it was so
/// before the run, or if the run holds a byte that starts a character.
pub proof fn lemma_in_word_after_run(s: Seq<u8>, t: Seq<u8>)
    requires
        forall|i: int| 0 <= i < t.len() ==> !is_space(#[trigger] t[i]),
    ensures
        in_word_after(s + t) == (in_word_after(s) || exists|i: int|
            0 <= i < t.len() && !is_continuation(#[trigger] t[i])),
    decreases t.len(),
{
    if t.len() == 0 {
        assert(s + t =~= s);
    } else {
        let u = t.drop_last();
        assert((s + t).drop_last() =~= s + u);
        assert((s + t).last() == t.last());
        assert forall|i: int| 0 <= i < u.len() implies !is_space(#[trigger] u[i]) by {
            assert(u[i] == t[i]);
        }
        lemma_in_word_after_run(s, u);
        if exists|i: int| 0 <= i < u.len() && !is_continuation(#[trigger] u[i]) {
            let i = choose|i: int| 0 <= i < u.len() && !is_continuation(#[trigger] u[i]);
            assert(t[i] == u[i]);
        }
        if exists|i: int| 0 <= i < t.len() && !is_continuation(#[trigger] t[i]) {
            let i = choose|i: int| 0 <= i < t.len() && !is_continuation(#[trigger] t[i]);
            if i < u.len() {
                assert(u[i] == t[i]);
            }
        }
    }
}

/// A run of bytes without whitespace at the end of the input closes no word:
/// the count is that of the input before the run. Only a whitespace byte `b`
/// behind the run counts it, once, where the run holds a byte that starts a
/// character.
pub proof fn lemma_trailing_run_not_counted(s: Seq<u8>, t: Seq<u8>, b: u8)
    requires
        forall|i: int| 0 <= i < t.len() ==> !is_space(#[trigger] t[i]),
    ensures
        word_count(s + t) == word_count(s),
        is_space(b) && (exists|i: int| 0 <= i < t.len() && !is_continuation(#[trigger] t[i]))
            ==> word_count((s + t).push(b)) == word_count(s) + 1,
    decreases t.len(),
{
    if t.len() == 0 {
        assert(s + t =~= s);
    } else {
        let u = t.drop_last();
        assert((s + t).drop_last() =~= s + u);
        assert((s + t).last() == t.last());
        assert forall|i: int| 0 <= i < u.len() implies !is_space(#[trigger] u[i]) by {
            assert(u[i] == t[i]);
        }
        lemma_trailing_run_not_counted(s, u, b);
    }
    lemma_in_word_after_run(s, t);
    let closed = (s + t).push(b);
    assert(closed.drop_last() =~= s + t);
    assert(closed.last() == b);
    assert(word_count(closed) == word_count(s + t) + one_if(
        closes_word(in_word_after(s + t), b),
    ));
}

/// The pass is inside a word after `s` exactly when the last byte of `s` that
/// is no continuation byte exists and is no whitespace.
pub proof fn lemma_in_word_after_iff(s: Seq<u8>)
    ensures
        in_word_after(s) <==> exists|j: int| #[trigger] last_character_at(s, j) && !is_space(s[j]),
    decreases s.len(),
{
    if s.len() > 0 {
        let t = s.drop_last();
        let n = t.len() as int;
        lemma_in_word_after_iff(t);
        if is_continuation(s.last()) {
            if in_word_after(t) {
                let j = choose|j: int| #[trigger] last_character_at(t, j) && !is_space(t[j]);
                assert(last_character_at(s, j)) by {
                    assert forall|k: int| j < k < s.len() implies is_continuation(
                        #[trigger] s[k],
                    ) by {
                        if k < n {
                            assert(s[k] == t[k]);
                        }
                    }
                }
                assert(!is_space(s[j]));
            }
            if exists|j: int| #[trigger] last_character_at(s, j) && !is_space(s[j]) {
                let j = choose|j: int| #[trigger] last_character_at(s, j) && !is_space(s[j]);
                assert(last_character_at(t, j)) by {
                    assert forall|k: int| j < k < t.len() implies is_continuation(
                        #[trigger] t[k],
                    ) by {
                        assert(t[k] == s[k]);
                    }
                }
                assert(!is_space(t[j]));
            }
        } else {
            assert(last_character_at(s, n));
            if exists|j: int| #[trigger] last_character_at(s, j) && !is_space(s[j]) {
                let j = choose|j: int| #[trigger] last_character_at(s, j) && !is_space(s[j]);
                if j < n {
                    assert(is_continuation(s[n]));
                }
            }
        }
    }
}

/// The words of `s` are as many as the positions of `s` that close a word.
pub proof fn lemma_word_count_is_word_ends(s: Seq<u8>)
    ensures
        word_ends(s).finite(),
        word_ends(s).len() == word_count(s),
    decreases s.len(),
{
    if s.len() == 0 {
        assert(word_ends(s) =~= Set::<int>::empty());
    } else {
        let t = s.drop_last();
        let n = t.len() as int;
        lemma_word_count_is_word_ends(t);
        assert(s.take(n) =~= t);
        assert forall|i: int| 0 <= i < n implies word_end_at(s, i) == word_end_at(t, i) by {
            assert(s.take(i) =~= t.take(i));
            assert(s[i] == t[i]);
        }
        assert(!word_ends(t).contains(n));
        if word_end_at(s, n) {
            assert(word_ends(s) =~= word_ends(t).insert(n));
        } else {
            assert(word_ends(s) =~= word_ends(t));
        }
    }
}

} // verus!
