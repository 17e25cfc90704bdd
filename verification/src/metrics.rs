//! The counters of a session and the figures derived from them: accuracy,
//! words per minute and the closing verdict.

use crate::clock::millis_since;
use crate::typing::{KeyEvent, Keystroke, TypingState, TypingView};
use std::time::Instant;
use vstd::prelude::*;

verus! {

/// The mathematical model of [`SessionCounters`].
pub struct CountersView {
    /// Keystrokes that did not match.
    pub errors: nat,
    /// Keystrokes that matched.
    pub typed_chars: nat,
    /// Matching keystrokes that were a space.
    pub typed_words: nat,
}

impl CountersView {
    /// The counters of a session that has not seen a keystroke.
    pub open spec fn zero() -> CountersView {
        CountersView { errors: 0, typed_chars: 0, typed_words: 0 }
    }

    /// The counters can count a keystroke `input` that did `stroke`: the
    /// ones that it raises are below their limits.
    pub open spec fn can_record(self, stroke: Keystroke, input: KeyEvent) -> bool {
        match stroke {
            Keystroke::Hit => self.typed_chars < u32::MAX && (input == KeyEvent::Char(' ')
                ==> self.typed_words < u16::MAX),
            Keystroke::Miss => self.errors < u32::MAX,
            Keystroke::Cancelled => true,
            Keystroke::Ignored => true,
        }
    }

    /// The counters after the input events `inputs`, applied first to last
    /// to the sentence in state `state`.
    pub open spec fn tally(self, state: TypingView, inputs: Seq<KeyEvent>) -> CountersView
        decreases inputs.len(),
    {
        if inputs.len() == 0 {
            self
        } else {
            self.record(state.classify(inputs[0]), inputs[0]).tally(
                state.step(inputs[0]),
                inputs.drop_first(),
            )
        }
    }

    /// The counters after a keystroke `input` that did `stroke`.
    pub open spec fn record(self, stroke: Keystroke, input: KeyEvent) -> CountersView {
        match stroke {
            Keystroke::Hit => CountersView {
                errors: self.errors,
                typed_chars: self.typed_chars + 1,
                typed_words: if input == KeyEvent::Char(' ') {
                    self.typed_words + 1
                } else {
                    self.typed_words
                },
            },
            Keystroke::Miss => CountersView { errors: self.errors + 1, ..self },
            Keystroke::Cancelled => self,
            Keystroke::Ignored => self,
        }
    }
}

/// Accuracy in percent: `100 - errors * 100 / typed_chars`, not below 0; no
/// figure before the first matching keystroke.
pub open spec fn accuracy_of(errors: nat, typed_chars: nat) -> Option<nat> {
    if typed_chars == 0 {
        None
    } else if errors * 100 / typed_chars >= 100 {
        Some(0)
    } else {
        Some((100 - errors * 100 / typed_chars) as nat)
    }
}

/// Words per minute after `elapsed_millis` milliseconds:
/// `60_000 * typed_words / elapsed_millis`; no figure at time 0.
pub open spec fn words_per_minute_of(typed_words: nat, elapsed_millis: nat) -> Option<nat> {
    if elapsed_millis == 0 {
        None
    } else {
        Some(60_000 * typed_words / elapsed_millis)
    }
}

/// Accuracy in hundredths of a percent:
/// `10_000 - errors * 10_000 / typed_chars`, not below 0; no figure before
/// the first matching keystroke.
pub open spec fn accuracy_hundredths_of(errors: nat, typed_chars: nat) -> Option<nat> {
    if typed_chars == 0 {
        None
    } else if errors * 10_000 / typed_chars >= 10_000 {
        Some(0)
    } else {
        Some((10_000 - errors * 10_000 / typed_chars) as nat)
    }
}

/// Words per minute in hundredths after `elapsed_millis` milliseconds:
/// `6_000_000 * typed_words / elapsed_millis`; no figure at time 0.
pub open spec fn words_per_minute_hundredths_of(typed_words: nat, elapsed_millis: nat) -> Option<
    nat,
> {
    if elapsed_millis == 0 {
        None
    } else {
        Some(6_000_000 * typed_words / elapsed_millis)
    }
}

/// Accuracy in percent from the two counters it depends on.
pub fn accuracy(errors: u32, typed_chars: u32) -> (r: Option<u32>)
    ensures
        r.is_some() <==> typed_chars != 0,
        r matches Some(a) ==> a <= 100 && accuracy_of(errors as nat, typed_chars as nat) == Some(
            a as nat,
        ),
        r is None ==> accuracy_of(errors as nat, typed_chars as nat) is None,
{
    if typed_chars == 0 {
        return None;
    }
    let lost: u64 = (errors as u64 * 100) / (typed_chars as u64);
    if lost >= 100 {
        Some(0)
    } else {
        Some((100 - lost) as u32)
    }
}

/// Words per minute from the word counter and the time spent, in milliseconds.
pub fn words_per_minute(typed_words: u16, elapsed_millis: u128) -> (r: Option<u32>)
    ensures
        r.is_some() <==> elapsed_millis != 0,
        r matches Some(w) ==> words_per_minute_of(typed_words as nat, elapsed_millis as nat)
            == Some(w as nat),
        r is None ==> words_per_minute_of(typed_words as nat, elapsed_millis as nat) is None,
{
    if elapsed_millis == 0 {
        return None;
    }
    let per_minute: u128 = 60_000 * (typed_words as u128);
    let w: u128 = per_minute / elapsed_millis;
    assert(w <= per_minute) by (nonlinear_arith)
        requires
            w == per_minute / elapsed_millis,
            elapsed_millis >= 1,
    ;
    Some(w as u32)
}

/// Accuracy in hundredths of a percent from the two counters it depends
/// on.
pub fn accuracy_hundredths(errors: u32, typed_chars: u32) -> (r: Option<u32>)
    ensures
        r.is_some() <==> typed_chars != 0,
        r matches Some(a) ==> a <= 10_000 && accuracy_hundredths_of(
            errors as nat,
            typed_chars as nat,
        ) == Some(a as nat),
        r is None ==> accuracy_hundredths_of(errors as nat, typed_chars as nat) is None,
{
    if typed_chars == 0 {
        return None;
    }
    let lost: u64 = (errors as u64 * 10_000) / (typed_chars as u64);
    if lost >= 10_000 {
        Some(0)
    } else {
        Some((10_000 - lost) as u32)
    }
}

/// Words per minute in hundredths from the word counter and the time
/// spent, in milliseconds.
pub fn words_per_minute_hundredths(typed_words: u16, elapsed_millis: u128) -> (r: Option<u64>)
    ensures
        r.is_some() <==> elapsed_millis != 0,
        r matches Some(w) ==> words_per_minute_hundredths_of(
            typed_words as nat,
            elapsed_millis as nat,
        ) == Some(w as nat),
        r is None ==> words_per_minute_hundredths_of(typed_words as nat, elapsed_millis as nat)
            is None,
{
    if elapsed_millis == 0 {
        return None;
    }
    let per_minute: u128 = 6_000_000 * (typed_words as u128);
    let w: u128 = per_minute / elapsed_millis;
    assert(w <= per_minute) by (nonlinear_arith)
        requires
            w == per_minute / elapsed_millis,
            elapsed_millis >= 1,
    ;
    Some(w as u64)
}

/// The closing verdict on a session, from worst to best.
#[derive(Clone, Copy, Debug, PartialEq, Eq, Structural)]
pub enum Feedback {
    /// Accuracy of at most 20 percent.
    Poor,
    /// Above 20, at most 40 percent.
    Weak,
    /// Above 40, at most 60 percent.
    Fair,
    /// Above 60, at most 80 percent.
    Good,
    /// Above 80, at most 95 percent.
    Great,
    /// Above 95 percent, with at least one error.
    AlmostPerfect,
    /// No error at all.
    Perfect,
}

/// The verdict for exact accuracy `100 - 100 * errors / typed_chars`, taken
/// as a fraction and without rounding; none before the first matching keystroke.
pub open spec fn feedback_of(errors: nat, typed_chars: nat) -> Option<Feedback> {
    if typed_chars == 0 {
        None
    } else if 5 * errors >= 4 * typed_chars {
        Some(Feedback::Poor)
    } else if 5 * errors >= 3 * typed_chars {
        Some(Feedback::Weak)
    } else if 5 * errors >= 2 * typed_chars {
        Some(Feedback::Fair)
    } else if 5 * errors >= typed_chars {
        Some(Feedback::Good)
    } else if 20 * errors >= typed_chars {
        Some(Feedback::Great)
    } else if errors > 0 {
        Some(Feedback::AlmostPerfect)
    } else {
        Some(Feedback::Perfect)
    }
}

/// The closing verdict from the two counters it depends on.
pub fn feedback(errors: u32, typed_chars: u32) -> (r: Option<Feedback>)
    ensures
        r == feedback_of(errors as nat, typed_chars as nat),
{
    let e: u64 = errors as u64;
    let c: u64 = typed_chars as u64;
    if c == 0 {
        None
    } else if 5 * e >= 4 * c {
        Some(Feedback::Poor)
    } else if 5 * e >= 3 * c {
        Some(Feedback::Weak)
    } else if 5 * e >= 2 * c {
        Some(Feedback::Fair)
    } else if 5 * e >= c {
        Some(Feedback::Good)
    } else if 20 * e >= c {
        Some(Feedback::Great)
    } else if e > 0 {
        Some(Feedback::AlmostPerfect)
    } else {
        Some(Feedback::Perfect)
    }
}

/// The counters of one session, with the time it started. They run over
/// all its sentences and are never reset between two of them.
#[derive(Debug)]
pub struct SessionCounters {
    errors: u32,
    typed_chars: u32,
    typed_words: u16,
    start_time: Instant,
}

impl View for SessionCounters {
    type V = CountersView;

    closed spec fn view(&self) -> CountersView {
        CountersView {
            errors: self.errors as nat,
            typed_chars: self.typed_chars as nat,
            typed_words: self.typed_words as nat,
        }
    }
}

impl SessionCounters {
    /// The clock reading taken when the session started. Nothing that
    /// counts a keystroke changes it.
    pub closed spec fn started(&self) -> Instant {
        self.start_time
    }

    /// Counters at zero, for a session that starts now.
    pub fn new() -> (r: SessionCounters)
        ensures
            r@ == CountersView::zero(),
    {
        SessionCounters { errors: 0, typed_chars: 0, typed_words: 0, start_time: Instant::now() }
    }

    /// The clock reading taken when the session started.
    pub fn start_time(&self) -> (r: &Instant)
        ensures
            *r == self.started(),
    {
        &self.start_time
    }

    /// Milliseconds gone by since the session started: the time that the
    /// clock gives for the reading `started()`.
    pub fn elapsed_millis(&self) -> u128 {
        millis_since(self.start_time())
    }

    /// Keystrokes that did not match.
    pub fn errors(&self) -> (r: u32)
        ensures
            r == self@.errors,
    {
        self.errors
    }

    /// Keystrokes that matched.
    pub fn typed_chars(&self) -> (r: u32)
        ensures
            r == self@.typed_chars,
    {
        self.typed_chars
    }

    /// Matching keystrokes that were a space.
    pub fn typed_words(&self) -> (r: u16)
        ensures
            r == self@.typed_words,
    {
        self.typed_words
    }

    /// Whether the counters can count a keystroke `input` that did `stroke`.
    pub fn can_record(&self, stroke: Keystroke, input: KeyEvent) -> (r: bool)
        ensures
            r == self@.can_record(stroke, input),
    {
        match stroke {
            Keystroke::Hit => {
                let is_space = match input {
                    KeyEvent::Char(c) => c == ' ',
                    _ => false,
                };
                self.typed_chars < u32::MAX && (!is_space || self.typed_words < u16::MAX)
            },
            Keystroke::Miss => self.errors < u32::MAX,
            _ => true,
        }
    }

    /// Counts a keystroke `input` that did `stroke`.
    pub fn record(&mut self, stroke: Keystroke, input: KeyEvent)
        requires
            old(self)@.can_record(stroke, input),
        ensures
            final(self)@ == old(self)@.record(stroke, input),
            final(self).started() == old(self).started(),
    {
        match stroke {
            Keystroke::Hit => {
                self.typed_chars += 1;
                match input {
                    KeyEvent::Char(c) => {
                        if c == ' ' {
                            self.typed_words += 1;
                        }
                    },
                    _ => {},
                }
            },
            Keystroke::Miss => {
                self.errors += 1;
            },
            _ => {},
        }
    }

    /// Accuracy in percent; none before the first matching keystroke.
    pub fn accuracy(&self) -> (r: Option<u32>)
        ensures
            r.is_some() <==> self@.typed_chars != 0,
            r matches Some(a) ==> a <= 100 && accuracy_of(self@.errors, self@.typed_chars)
                == Some(a as nat),
    {
        accuracy(self.errors, self.typed_chars)
    }

    /// Words per minute after `elapsed_millis` milliseconds; none at time 0.
    pub fn words_per_minute(&self, elapsed_millis: u128) -> (r: Option<u32>)
        ensures
            r.is_some() <==> elapsed_millis != 0,
            r matches Some(w) ==> words_per_minute_of(self@.typed_words, elapsed_millis as nat)
                == Some(w as nat),
    {
        words_per_minute(self.typed_words, elapsed_millis)
    }

    /// Accuracy in hundredths of a percent; none before the first matching
    /// keystroke.
    pub fn accuracy_hundredths(&self) -> (r: Option<u32>)
        ensures
            r.is_some() <==> self@.typed_chars != 0,
            r matches Some(a) ==> a <= 10_000 && accuracy_hundredths_of(
                self@.errors,
                self@.typed_chars,
            ) == Some(a as nat),
    {
        accuracy_hundredths(self.errors, self.typed_chars)
    }

    /// Words per minute in hundredths after `elapsed_millis` milliseconds;
    /// none at time 0.
    pub fn words_per_minute_hundredths(&self, elapsed_millis: u128) -> (r: Option<u64>)
        ensures
            r.is_some() <==> elapsed_millis != 0,
            r matches Some(w) ==> words_per_minute_hundredths_of(
                self@.typed_words,
                elapsed_millis as nat,
            ) == Some(w as nat),
    {
        words_per_minute_hundredths(self.typed_words, elapsed_millis)
    }

    /// Words per minute in hundredths as of now, by the clock and the
    /// reading `started()`; none within the first millisecond.
    pub fn live_words_per_minute_hundredths(&self) -> (r: Option<u64>)
        ensures
            r matches Some(w) ==> exists|elapsed_millis: nat|
                #[trigger] words_per_minute_hundredths_of(self@.typed_words, elapsed_millis)
                    == Some(w as nat),
    {
        let elapsed_millis = self.elapsed_millis();
        self.words_per_minute_hundredths(elapsed_millis)
    }

    /// Words per minute as of now, by the clock and the reading
    /// `started()`; none within the first millisecond.
    pub fn live_words_per_minute(&self) -> (r: Option<u32>)
        ensures
            r matches Some(w) ==> exists|elapsed_millis: nat|
                #[trigger] words_per_minute_of(self@.typed_words, elapsed_millis) == Some(
                    w as nat,
                ),
    {
        let elapsed_millis = self.elapsed_millis();
        self.words_per_minute(elapsed_millis)
    }

    /// The closing verdict; none before the first matching keystroke.
    pub fn feedback(&self) -> (r: Option<Feedback>)
        ensures
            r == feedback_of(self@.errors, self@.typed_chars),
    {
        feedback(self.errors, self.typed_chars)
    }
}

/// Applies one input event to the sentence and counts it.
pub fn apply_keystroke(state: &mut TypingState, counters: &mut SessionCounters, input: KeyEvent)
    requires
        old(state).wf(),
        old(counters)@.can_record(old(state)@.classify(input), input),
    ensures
        final(state).wf(),
        final(state).text() == old(state).text(),
        final(state)@ == old(state)@.step(input),
        final(counters)@ == old(counters)@.record(old(state)@.classify(input), input),
        final(counters).started() == old(counters).started(),
{
    let stroke = state.apply(input);
    counters.record(stroke, input);
}

} // verus!
