//! A stream of characters with a cursor.

use vstd::prelude::*;
use crate::error::{Errors, ErrorsView};

verus! {

/// The mathematical model of a stream: its text and the cursor's position.
pub struct InputView {
    pub text: Seq<char>,
    pub position: nat,
}

/// A stream of characters read from left to right.
pub struct Input {
    text: Vec<char>,
    position: usize,
}

impl View for Input {
    type V = InputView;

    closed spec fn view(&self) -> InputView {
        InputView { text: self.text@, position: self.position as nat }
    }
}

impl Input {
    /// The cursor never passes the end of the text.
    pub closed spec fn wf(&self) -> bool {
        self.position <= self.text.len()
    }

    /// A stream over `s`, with the cursor at its start.
    pub fn new(s: &str) -> (r: Input)
        ensures
            r.wf(),
            r@.text == s@,
            r@.position == 0,
    {
        let n = s.unicode_len();
        let mut text: Vec<char> = Vec::new();
        let mut i: usize = 0;
        while i < n
            invariant
                i <= n,
                n == s@.len(),
                text@ == s@.subrange(0, i as int),
            decreases n - i,
        {
            text.push(s.get_char(i));
            i = i + 1;
            assert(text@ =~= s@.subrange(0, i as int));
        }
        assert(s@.subrange(0, n as int) =~= s@);
        Input { text, position: 0 }
    }

    /// A stream over `text`, with the cursor at its start.
    pub fn from_chars(text: Vec<char>) -> (r: Input)
        ensures
            r.wf(),
            r@.text == text@,
            r@.position == 0,
    {
        Input { text, position: 0 }
    }

    pub fn position(&self) -> (r: usize)
        ensures
            r == self@.position,
            self.wf() ==> r <= self@.text.len(),
    {
        self.position
    }

    /// Takes the next character, or returns `None` at the end of the text.
    pub fn uncons(&mut self) -> (r: Option<char>)
        requires
            old(self).wf(),
        ensures
            final(self).wf(),
            final(self)@.text == old(self)@.text,
            old(self)@.position < old(self)@.text.len() ==> r == Some(old(self)@.text[old(self)@.position as int])
                && final(self)@.position == old(self)@.position + 1,
            old(self)@.position >= old(self)@.text.len() ==> r is None && final(self)@ == old(self)@,
    {
        if self.position < self.text.len() {
            let c = self.text[self.position];
            self.position = self.position + 1;
            Some(c)
        } else {
            None
        }
    }

    /// Moves the cursor to `position`, a place in the text.
    pub fn reset(&mut self, position: usize)
        requires
            old(self).wf(),
            position <= old(self)@.text.len(),
        ensures
            final(self).wf(),
            final(self)@ == (InputView { text: old(self)@.text, position: position as nat }),
    {
        self.position = position;
    }

    /// An error at the cursor's position, with no entries.
    pub fn empty_error(&self) -> (r: Errors)
        ensures
            r@ == (ErrorsView { position: self@.position, entries: Seq::empty() }),
    {
        Errors::empty(self.position)
    }
}

} // verus!
