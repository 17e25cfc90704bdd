//! How the sentence is to be shown: one look per progress mark. The
//! colouring itself is left to whoever draws the prompt.

use crate::text::chars_of;
use crate::typing::{CharState, TypingState};
use vstd::prelude::*;
use vstd::utf8::*;

verus! {

/// The colour of a character.
#[derive(Clone, Copy, Debug, PartialEq, Eq, Structural)]
pub enum Tint {
    /// The terminal's own colour.
    Plain,
    Green,
    Red,
    BrightRed,
}

/// The look of a character.
#[derive(Clone, Copy, Debug, PartialEq, Eq, Structural)]
pub struct Markup {
    pub bold: bool,
    pub reversed: bool,
    pub underline: bool,
    pub tint: Tint,
}

/// One character of the sentence with its look.
#[derive(Clone, Copy, Debug, PartialEq, Eq, Structural)]
pub struct StyledChar {
    pub ch: char,
    pub markup: Markup,
}

/// The look of a position with mark `state`. The five marks look different.
pub open spec fn markup_of(state: CharState) -> Markup {
    match state {
        CharState::Pending => Markup {
            bold: false,
            reversed: false,
            underline: false,
            tint: Tint::Plain,
        },
        CharState::Current => Markup {
            bold: false,
            reversed: true,
            underline: false,
            tint: Tint::Plain,
        },
        CharState::Correct => Markup {
            bold: true,
            reversed: false,
            underline: false,
            tint: Tint::Green,
        },
        CharState::Wrong => Markup { bold: true, reversed: true, underline: false, tint: Tint::Red },
        CharState::Corrected => Markup {
            bold: true,
            reversed: false,
            underline: true,
            tint: Tint::BrightRed,
        },
    }
}

/// The look of a position with mark `state`.
pub fn markup(state: CharState) -> (r: Markup)
    ensures
        r == markup_of(state),
{
    match state {
        CharState::Pending => Markup {
            bold: false,
            reversed: false,
            underline: false,
            tint: Tint::Plain,
        },
        CharState::Current => Markup {
            bold: false,
            reversed: true,
            underline: false,
            tint: Tint::Plain,
        },
        CharState::Correct => Markup {
            bold: true,
            reversed: false,
            underline: false,
            tint: Tint::Green,
        },
        CharState::Wrong => Markup { bold: true, reversed: true, underline: false, tint: Tint::Red },
        CharState::Corrected => Markup {
            bold: true,
            reversed: false,
            underline: true,
            tint: Tint::BrightRed,
        },
    }
}

/// Two marks that differ look different.
pub proof fn law_marks_look_different(a: CharState, b: CharState)
    requires
        a != b,
    ensures
        markup_of(a) != markup_of(b),
{
}

/// A text has at least as many bytes as characters.
pub proof fn lemma_bytes_cover_chars(text: Seq<char>)
    ensures
        text.len() <= encode_utf8(text).len(),
    decreases text.len(),
{
    if text.len() > 0 {
        lemma_bytes_cover_chars(text.drop_first());
    }
}

/// `c` again. A character read out of a vector comes without the
/// knowledge that it is a valid `char`; as the result of a call it has it.
fn same_char(c: char) -> (r: char)
    ensures
        r == c,
{
    c
}

/// The sentence for display: its characters in order, the one at index `i`
/// with the look of the mark at position `i`.
pub fn styled_chars(state: &TypingState) -> (r: Vec<StyledChar>)
    requires
        state.wf(),
    ensures
        r@.len() == state.text().len(),
        forall|i: int|
            0 <= i < r@.len() ==> #[trigger] r@[i] == (StyledChar {
                ch: state.text()[i],
                markup: markup_of(state@.states[i]),
            }),
{
    let chars = chars_of(state.sentence());
    let marks = state.states();
    proof {
        lemma_bytes_cover_chars(state.text());
    }
    let mut out: Vec<StyledChar> = Vec::new();
    let mut i: usize = 0;
    while i < chars.len()
        invariant
            i <= chars@.len() <= marks@.len(),
            chars@ == state.text(),
            marks@ == state@.states,
            out@.len() == i,
            forall|j: int|
                0 <= j < i ==> #[trigger] out@[j] == (StyledChar {
                    ch: chars@[j],
                    markup: markup_of(marks@[j]),
                }),
        decreases chars@.len() - i,
    {
        let ch = same_char(chars[i]);
        let look = markup(marks[i]);
        out.push(StyledChar { ch, markup: look });
        i += 1;
    }
    out
}

} // verus!
