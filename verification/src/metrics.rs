//! The four counters and the single pass that fills them.

use vstd::prelude::*;
use crate::render::{field, push_count, push_space};
use vstd::string::StringExecFns;
use crate::classify::{
    char_count, closes_word, in_word_after, is_continuation, is_newline,
    is_space, line_count, next_in_word, one_if, word_count,
};
use crate::laws::lemma_char_count_bounds;

verus! {

/// `u8::is_ascii_whitespace` of std, taken on trust: it answers `true` for
/// exactly the five bytes space, horizontal tab, line feed, form feed and
/// carriage return, as its documentation lists them.
pub assume_specification[ u8::is_ascii_whitespace ](b: &u8) -> (r: bool)
    ensures
        r == is_space(*b),
;

/// The counts of one pass over a byte sequence.
#[derive(Clone, Copy, Debug, PartialEq, Eq, Structural)]
pub struct FileMetrics {
    pub words: u64,
    pub bytes: u64,
    pub characters: u64,
    pub lines: u64,
}

impl FileMetrics {
    /// The characters are at most the bytes, and the words and the lines are
    /// each at most the characters: the byte that closes a word or a line is
    /// a character.
    pub open spec fn wf(&self) -> bool {
        &&& self.characters <= self.bytes
        &&& self.words <= self.characters
        &&& self.lines <= self.characters
    }

    /// The counters are those of a pass over the whole of `s`.
    pub open spec fn describes(&self, s: Seq<u8>) -> bool {
        &&& self.bytes == s.len()
        &&& self.characters == char_count(s)
        &&& self.lines == line_count(s)
        &&& self.words == word_count(s)
    }

    /// The counters are those of `before`, advanced by a pass over `s` that
    /// starts outside a word.
    pub open spec fn extends(&self, before: FileMetrics, s: Seq<u8>) -> bool {
        &&& self.bytes == before.bytes + s.len()
        &&& self.characters == before.characters + char_count(s)
        &&& self.lines == before.lines + line_count(s)
        &&& self.words == before.words + word_count(s)
    }

    /// Counts the bytes, characters, words and lines of `input`.
    pub fn new(input: &[u8]) -> (r: FileMetrics)
        ensures
            r.describes(input@),
            r.wf(),
            r.characters == r.bytes <==> forall|i: int|
                0 <= i < input@.len() ==> !is_continuation(#[trigger] input@[i]),
    {
        let mut metrics = FileMetrics { words: 0, bytes: 0, characters: 0, lines: 0 };
        assert(input@.len() == input.len() <= usize::MAX <= u64::MAX);
        metrics.analyze(input);
        proof {
            lemma_char_count_bounds(input@);
        }
        metrics
    }

    /// The text that `stringFromArgs` gives for these counters and switches.
    pub open spec fn rendered(&self, cbytes: bool, lines: bool, mchars: bool, words: bool) -> Seq<
        char,
    > {
        let no_flags = !cbytes && !lines && !mchars && !words;
        field(cbytes || no_flags, self.bytes) + field(lines || no_flags, self.lines) + field(
            words || no_flags,
            self.words,
        ) + field(mchars, self.characters)
    }

    /// The selected counts as one piece of text, in the order bytes, lines,
    /// words, characters, each with a space before it. With no switch set the
    /// first three are shown; the characters only where `mchars` asks for them.
    #[allow(non_snake_case)]
    pub fn stringFromArgs(&self, cbytes: bool, lines: bool, mchars: bool, words: bool) -> (r:
        String)
        ensures
            r@ == self.rendered(cbytes, lines, mchars, words),
    {
        let no_flags = !cbytes && !lines && !mchars && !words;
        let mut output = String::new();
        if cbytes || no_flags {
            push_count(&mut output, self.bytes);
        }
        if lines || no_flags {
            push_count(&mut output, self.lines);
        }
        if words || no_flags {
            push_count(&mut output, self.words);
        }
        if mchars {
            push_count(&mut output, self.characters);
        }
        assert(output@ =~= self.rendered(cbytes, lines, mchars, words));
        output
    }

    /// The line that reports these counters: the selected counts as
    /// `stringFromArgs` gives them, then a space and the file's name where the
    /// input was a named file. The line terminator is not part of it.
    pub fn output_line(
        &self,
        cbytes: bool,
        lines: bool,
        mchars: bool,
        words: bool,
        filename: Option<&str>,
    ) -> (r: String)
        ensures
            r@ == self.rendered(cbytes, lines, mchars, words) + match filename {
                Some(name) => seq![' '] + name@,
                None => Seq::empty(),
            },
    {
        let mut output = self.stringFromArgs(cbytes, lines, mchars, words);
        match filename {
            Some(name) => {
                push_space(&mut output);
                output.append(name);
                assert(output@ =~= self.rendered(cbytes, lines, mchars, words) + (seq![' ']
                    + name@));
            },
            None => {
                assert(output@ =~= self.rendered(cbytes, lines, mchars, words) + Seq::empty());
            },
        }
        output
    }

    /// Two passes over the same input agree in every counter.
    pub proof fn lemma_same_input_same_counts(a: FileMetrics, b: FileMetrics, s: Seq<u8>, t: Seq<u8>)
        requires
            a.describes(s),
            b.describes(t),
            s == t,
        ensures
            a == b,
    {
    }

    /// Runs one pass over `input`, from outside a word, and adds what it
    /// finds to the counters.
    pub fn analyze(&mut self, input: &[u8])
        requires
            old(self).wf(),
            old(self).bytes + input@.len() <= u64::MAX,
        ensures
            final(self).wf(),
            final(self).extends(*old(self), input@),
    {
        let mut in_word = false;
        let mut i: usize = 0;
        while i < input.len()
            invariant
                i <= input@.len(),
                old(self).bytes + input@.len() <= u64::MAX,
                self.wf(),
                self.extends(*old(self), input@.take(i as int)),
                in_word == in_word_after(input@.take(i as int)),
            decreases input@.len() - i,
        {
            proof {
                assert(input@.take(i + 1).drop_last() =~= input@.take(i as int));
            }
            in_word = self.process_byte(input[i], in_word);
            i += 1;
        }
        proof {
            assert(input@.take(i as int) =~= input@);
        }
    }

    /// Takes one byte into the counters. `in_word` says whether the pass was
    /// inside a word before the byte; the result says whether it is after it.
    pub fn process_byte(&mut self, byte: u8, in_word: bool) -> (r: bool)
        requires
            old(self).wf(),
            old(self).bytes < u64::MAX,
        ensures
            final(self).wf(),
            final(self).bytes == old(self).bytes + 1,
            final(self).characters == old(self).characters + one_if(!is_continuation(byte)),
            final(self).lines == old(self).lines + one_if(is_newline(byte)),
            final(self).words == old(self).words + one_if(closes_word(in_word, byte)),
            r == next_in_word(in_word, byte),
    {
        self.bytes += 1;
        assert((byte >> 6 == 2) == (0x80 <= byte && byte <= 0xBF)) by (bit_vector);
        if byte >> 6 == 2 {
            return in_word;
        }
        self.characters += 1;
        let mut now = in_word;
        if !byte.is_ascii_whitespace() {
            now = true;
        } else if in_word {
            self.words += 1;
            now = false;
        }
        if byte == 0x0A {
            self.lines += 1;
            now = false;
        }
        now
    }
}

} // verus!
