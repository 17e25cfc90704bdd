//! The per-sentence typing model: the sentence as bytes, one progress mark
//! per byte position, and the cursor that walks over them.

use vstd::prelude::*;
use vstd::utf8::*;

verus! {

/// Typing progress of one byte position of the sentence.
#[derive(Clone, Copy, Debug, PartialEq, Eq, Structural)]
pub enum CharState {
    /// Not reached yet.
    Pending,
    /// The position the cursor rests on, with no keystroke spent on it so far.
    Current,
    /// Typed right at the first attempt.
    Correct,
    /// Mistyped, and still waiting for the right key.
    Wrong,
    /// Mistyped at least once, then typed right.
    Corrected,
}

/// One event of the keystroke stream.
#[derive(Clone, Copy, Debug, PartialEq, Eq, Structural)]
pub enum KeyEvent {
    /// A printable character.
    Char(char),
    /// The signal that abandons the rest of the sentence.
    Cancel,
    /// Any other key; it changes nothing.
    Other,
}

/// What a keystroke did to the position under the cursor.
#[derive(Clone, Copy, Debug, PartialEq, Eq, Structural)]
pub enum Keystroke {
    /// The character matched the expected byte; the cursor moved on.
    Hit,
    /// The character did not match; the cursor stayed.
    Miss,
    /// The rest of the sentence was abandoned.
    Cancelled,
    /// Nothing happened: another kind of key, or a character after the end.
    Ignored,
}

/// The character that must be typed for byte `b`: the one whose code point is `b`.
pub open spec fn key_for(b: u8) -> char {
    b as char
}

/// The mathematical model of a [`TypingState`].
pub struct TypingView {
    /// The UTF-8 bytes of the sentence.
    pub bytes: Seq<u8>,
    /// One mark per byte.
    pub states: Seq<CharState>,
    /// Index of the byte that awaits a correct keystroke; `bytes.len()` when done.
    pub cursor: int,
}

impl TypingView {
    /// The invariant of the model.
    pub open spec fn wf(self) -> bool {
        &&& self.states.len() == self.bytes.len()
        &&& 0 <= self.cursor <= self.bytes.len()
        &&& forall|i: int|
            0 <= i < self.states.len() && self.states[i] == CharState::Current ==> i == self.cursor
        &&& self.cursor < self.bytes.len() ==> (self.states[self.cursor] == CharState::Current
            || self.states[self.cursor] == CharState::Wrong)
        &&& forall|i: int| self.cursor < i < self.states.len() ==> self.states[i] == CharState::Pending
    }

    /// The round is over: every position was typed, or the rest was abandoned.
    pub open spec fn is_complete(self) -> bool {
        self.cursor == self.bytes.len()
    }

    /// A freshly loaded sentence: everything pending, the cursor on position 0.
    pub open spec fn loaded(bytes: Seq<u8>) -> TypingView {
        TypingView {
            bytes,
            states: Seq::new(
                bytes.len(),
                |i: int| if i == 0 { CharState::Current } else { CharState::Pending },
            ),
            cursor: 0,
        }
    }

    /// A message shown in place of a sentence: every position wrong, nothing left to type.
    pub open spec fn failed(bytes: Seq<u8>) -> TypingView {
        TypingView {
            bytes,
            states: Seq::new(bytes.len(), |i: int| CharState::Wrong),
            cursor: bytes.len() as int,
        }
    }

    /// `c` is the character expected at the cursor.
    pub open spec fn expects(self, c: char) -> bool {
        self.cursor < self.bytes.len() && c == key_for(self.bytes[self.cursor])
    }

    /// What `input` does, by kind.
    pub open spec fn classify(self, input: KeyEvent) -> Keystroke {
        match input {
            KeyEvent::Cancel => Keystroke::Cancelled,
            KeyEvent::Char(c) => if self.is_complete() {
                Keystroke::Ignored
            } else if self.expects(c) {
                Keystroke::Hit
            } else {
                Keystroke::Miss
            },
            KeyEvent::Other => Keystroke::Ignored,
        }
    }

    /// The state after a matching character.
    pub open spec fn hit(self) -> TypingView {
        let mark = if self.states[self.cursor] == CharState::Wrong {
            CharState::Corrected
        } else {
            CharState::Correct
        };
        let marked = self.states.update(self.cursor, mark);
        let next = self.cursor + 1;
        TypingView {
            bytes: self.bytes,
            states: if next < self.bytes.len() {
                marked.update(next, CharState::Current)
            } else {
                marked
            },
            cursor: next,
        }
    }

    /// The state after a character that does not match.
    pub open spec fn miss(self) -> TypingView {
        TypingView { states: self.states.update(self.cursor, CharState::Wrong), ..self }
    }

    /// The state after a cancel: the cursor jumps to the end, and the position
    /// it rested on goes back to pending if no keystroke was spent on it.
    pub open spec fn cancelled(self) -> TypingView {
        TypingView {
            bytes: self.bytes,
            states: if self.cursor < self.bytes.len() && self.states[self.cursor]
                == CharState::Current {
                self.states.update(self.cursor, CharState::Pending)
            } else {
                self.states
            },
            cursor: self.bytes.len() as int,
        }
    }

    /// The state after one input event.
    pub open spec fn step(self, input: KeyEvent) -> TypingView {
        match self.classify(input) {
            Keystroke::Hit => self.hit(),
            Keystroke::Miss => self.miss(),
            Keystroke::Cancelled => self.cancelled(),
            Keystroke::Ignored => self,
        }
    }

    /// The state after a sequence of input events, applied first to last.
    pub open spec fn run(self, inputs: Seq<KeyEvent>) -> TypingView
        decreases inputs.len(),
    {
        if inputs.len() == 0 {
            self
        } else {
            self.step(inputs[0]).run(inputs.drop_first())
        }
    }
}

/// The sentence of one round with its progress marks and cursor.
#[derive(Debug)]
pub struct TypingState {
    sentence: String,
    states: Vec<CharState>,
    cursor: usize,
}

impl View for TypingState {
    type V = TypingView;

    closed spec fn view(&self) -> TypingView {
        TypingView {
            bytes: encode_utf8(self.sentence@),
            states: self.states@,
            cursor: self.cursor as int,
        }
    }
}

impl TypingState {
    /// The sentence as text.
    pub closed spec fn text(&self) -> Seq<char> {
        self.sentence@
    }

    /// The invariant: the model's, and the bytes are those of the text.
    pub open spec fn wf(&self) -> bool {
        &&& self@.wf()
        &&& self@.bytes == encode_utf8(self.text())
    }

    /// Starts a round on `sentence`. An empty sentence is complete at once.
    pub fn load(sentence: String) -> (r: TypingState)
        ensures
            r.wf(),
            r.text() == sentence@,
            r@ == TypingView::loaded(encode_utf8(sentence@)),
    {
        let n: usize = sentence.as_str().as_bytes().len();
        let mut states: Vec<CharState> = Vec::new();
        let mut i: usize = 0;
        while i < n
            invariant
                i <= n,
                states@.len() == i,
                forall|j: int|
                    0 <= j < i ==> states@[j] == if j == 0 {
                        CharState::Current
                    } else {
                        CharState::Pending
                    },
            decreases n - i,
        {
            states.push(if i == 0 { CharState::Current } else { CharState::Pending });
            i += 1;
        }
        let r = TypingState { sentence, states, cursor: 0 };
        assert(r@.states =~= TypingView::loaded(encode_utf8(sentence@)).states);
        r
    }

    /// Shows `message` in place of a sentence: all of it marked wrong, and
    /// nothing left to type.
    pub fn failed(message: String) -> (r: TypingState)
        ensures
            r.wf(),
            r.text() == message@,
            r@ == TypingView::failed(encode_utf8(message@)),
    {
        let n: usize = message.as_str().as_bytes().len();
        let mut states: Vec<CharState> = Vec::new();
        let mut i: usize = 0;
        while i < n
            invariant
                i <= n,
                states@.len() == i,
                forall|j: int| 0 <= j < i ==> states@[j] == CharState::Wrong,
            decreases n - i,
        {
            states.push(CharState::Wrong);
            i += 1;
        }
        let r = TypingState { sentence: message, states, cursor: n };
        assert(r@.states =~= TypingView::failed(encode_utf8(message@)).states);
        r
    }

    /// The sentence being typed.
    pub fn sentence(&self) -> (r: &str)
        ensures
            r@ == self.text(),
    {
        self.sentence.as_str()
    }

    /// Number of byte positions.
    pub fn len(&self) -> (r: usize)
        ensures
            r == self@.bytes.len(),
    {
        self.sentence.as_str().as_bytes().len()
    }

    /// Index of the position that awaits a correct keystroke.
    pub fn cursor(&self) -> (r: usize)
        ensures
            r == self@.cursor,
    {
        self.cursor
    }

    /// The progress marks, one per byte position.
    pub fn states(&self) -> (r: &Vec<CharState>)
        ensures
            r@ == self@.states,
    {
        &self.states
    }

    /// Whether the round is over.
    pub fn is_complete(&self) -> (r: bool)
        ensures
            r == self@.is_complete(),
    {
        self.cursor == self.len()
    }

    /// What `input` would do, without doing it.
    pub fn classify(&self, input: KeyEvent) -> (r: Keystroke)
        requires
            self.wf(),
        ensures
            r == self@.classify(input),
    {
        match input {
            KeyEvent::Cancel => Keystroke::Cancelled,
            KeyEvent::Char(c) => {
                if self.cursor >= self.states.len() {
                    Keystroke::Ignored
                } else {
                    let expected: u8 = self.sentence.as_str().as_bytes()[self.cursor];
                    if c as u32 == expected as u32 {
                        Keystroke::Hit
                    } else {
                        Keystroke::Miss
                    }
                }
            },
            KeyEvent::Other => Keystroke::Ignored,
        }
    }

    /// Applies one input event to the sentence and says what it did.
    pub fn apply(&mut self, input: KeyEvent) -> (r: Keystroke)
        requires
            old(self).wf(),
        ensures
            final(self).wf(),
            final(self).text() == old(self).text(),
            r == old(self)@.classify(input),
            final(self)@ == old(self)@.step(input),
    {
        let n: usize = self.states.len();
        match input {
            KeyEvent::Cancel => {
                if self.cursor < n && self.states[self.cursor] == CharState::Current {
                    self.states.set(self.cursor, CharState::Pending);
                }
                self.cursor = n;
                Keystroke::Cancelled
            },
            KeyEvent::Char(c) => {
                if self.cursor >= n {
                    return Keystroke::Ignored;
                }
                let expected: u8 = self.sentence.as_str().as_bytes()[self.cursor];
                if c as u32 == expected as u32 {
                    let mark = if self.states[self.cursor] == CharState::Wrong {
                        CharState::Corrected
                    } else {
                        CharState::Correct
                    };
                    self.states.set(self.cursor, mark);
                    self.cursor += 1;
                    if self.cursor < n {
                        self.states.set(self.cursor, CharState::Current);
                    }
                    Keystroke::Hit
                } else {
                    self.states.set(self.cursor, CharState::Wrong);
                    Keystroke::Miss
                }
            },
            KeyEvent::Other => Keystroke::Ignored,
        }
    }
}

} // verus!
