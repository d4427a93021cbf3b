//! Byte classes and the counts they induce on a byte sequence.

use vstd::prelude::*;

verus! {

/// A byte whose two most significant bits are `10`: it continues a multi-byte
/// UTF-8 character and starts none.
pub open spec fn is_continuation(b: u8) -> bool {
    0x80 <= b <= 0xBF
}

/// ASCII whitespace: space, horizontal tab, line feed, form feed, carriage
/// return. The vertical tab (`0x0B`) is not among them.
pub open spec fn is_space(b: u8) -> bool {
    b == 0x20 || b == 0x09 || b == 0x0A || b == 0x0C || b == 0x0D
}

/// The line terminator.
pub open spec fn is_newline(b: u8) -> bool {
    b == 0x0A
}

/// Whether the pass is inside a word once it has seen `b`, having been in
/// state `in_word` before. A continuation byte leaves the state as it was.
pub open spec fn next_in_word(in_word: bool, b: u8) -> bool {
    if is_continuation(b) {
        in_word
    } else {
        !is_space(b)
    }
}

/// Whether `b`, seen in state `in_word`, closes a word.
pub open spec fn closes_word(in_word: bool, b: u8) -> bool {
    in_word && is_space(b)
}

/// One if `c` holds, zero otherwise.
pub open spec fn one_if(c: bool) -> nat {
    if c {
        1
    } else {
        0
    }
}

/// Whether a pass that starts outside a word is inside one after `s`: the
/// last byte of `s` that is no continuation byte exists and is no whitespace.
pub open spec fn in_word_after(s: Seq<u8>) -> bool
    decreases s.len(),
{
    if s.len() == 0 {
        false
    } else {
        next_in_word(in_word_after(s.drop_last()), s.last())
    }
}

/// The number of bytes of `s` that are no continuation bytes.
pub open spec fn char_count(s: Seq<u8>) -> nat
    decreases s.len(),
{
    if s.len() == 0 {
        0
    } else {
        char_count(s.drop_last()) + one_if(!is_continuation(s.last()))
    }
}

/// The number of line terminators in `s`.
pub open spec fn line_count(s: Seq<u8>) -> nat
    decreases s.len(),
{
    if s.len() == 0 {
        0
    } else {
        line_count(s.drop_last()) + one_if(is_newline(s.last()))
    }
}

/// The number of words that `s` closes: the positions that hold a whitespace
/// byte while the pass over the bytes before them is inside a word. A run of
/// word bytes that reaches the end of `s` is not among them.
pub open spec fn word_count(s: Seq<u8>) -> nat
    decreases s.len(),
{
    if s.len() == 0 {
        0
    } else {
        word_count(s.drop_last()) + one_if(closes_word(in_word_after(s.drop_last()), s.last()))
    }
}

/// Position `j` of `s` holds the last byte of `s` that is no continuation
/// byte.
pub open spec fn last_character_at(s: Seq<u8>, j: int) -> bool {
    &&& 0 <= j < s.len()
    &&& !is_continuation(s[j])
    &&& forall|k: int| j < k < s.len() ==> is_continuation(#[trigger] s[k])
}

/// Position `i` of `s` closes a word: it holds a whitespace byte, and the
/// pass over the bytes before it is inside a word.
pub open spec fn word_end_at(s: Seq<u8>, i: int) -> bool {
    &&& 0 <= i < s.len()
    &&& closes_word(in_word_after(s.take(i)), s[i])
}

/// The positions of `s` that close a word.
pub open spec fn word_ends(s: Seq<u8>) -> Set<int> {
    Set::new(|i: int| word_end_at(s, i))
}

} // verus!
