//! What holds of the typing model and its metrics on every input.

use crate::metrics::{accuracy_hundredths_of, accuracy_of, CountersView};
use crate::sentence_typer::{SessionPhase, TyperView};
use crate::source::Sourceable;
use crate::typing::{key_for, CharState, KeyEvent, Keystroke, TypingView};
use vstd::arithmetic::div_mod::lemma_div_is_ordered;
use vstd::prelude::*;

verus! {

/// The keystrokes that type `bytes` without a mistake.
pub open spec fn keys_for(bytes: Seq<u8>) -> Seq<KeyEvent> {
    bytes.map_values(|b: u8| KeyEvent::Char(key_for(b)))
}

/// Whether `later` may follow `earlier` as the mark of one position: a
/// mark stays, or moves on from pending over current to correct or wrong,
/// and from wrong to corrected.
pub open spec fn may_follow(earlier: CharState, later: CharState) -> bool {
    ||| later == earlier
    ||| earlier == CharState::Pending && later == CharState::Current
    ||| earlier == CharState::Current && later == CharState::Correct
    ||| earlier == CharState::Current && later == CharState::Wrong
    ||| earlier == CharState::Wrong && later == CharState::Corrected
}

/// Every input event leaves a well-formed sentence well-formed, with the
/// same bytes.
pub proof fn law_step_keeps_invariant(state: TypingView, input: KeyEvent)
    requires
        state.wf(),
    ensures
        state.step(input).wf(),
        state.step(input).bytes == state.bytes,
        state.cursor <= state.step(input).cursor,
{
}

/// A run of input events leaves a well-formed sentence well-formed, with
/// the same bytes, and never moves the cursor back.
pub proof fn law_run_keeps_invariant(state: TypingView, inputs: Seq<KeyEvent>)
    requires
        state.wf(),
    ensures
        state.run(inputs).wf(),
        state.run(inputs).bytes == state.bytes,
        state.cursor <= state.run(inputs).cursor,
    decreases inputs.len(),
{
    if inputs.len() > 0 {
        law_step_keeps_invariant(state, inputs[0]);
        law_run_keeps_invariant(state.step(inputs[0]), inputs.drop_first());
    }
}

/// At most one position is current, and none once the round is over.
pub proof fn law_current_is_under_the_cursor(state: TypingView, i: int, j: int)
    requires
        state.wf(),
        0 <= i < state.bytes.len(),
        0 <= j < state.bytes.len(),
        state.states[i] == CharState::Current,
    ensures
        !state.is_complete(),
        i == state.cursor,
        state.states[j] == CharState::Current ==> j == i,
{
}

/// How the mark of a position changes. A character or another key moves
/// it along `may_follow` or leaves it; a cancel changes one mark at most,
/// that under the cursor, from current back to pending. A position that
/// is correct or corrected stays so, whatever comes.
pub proof fn law_marks_change_in_order(state: TypingView, input: KeyEvent, i: int)
    requires
        state.wf(),
        0 <= i < state.bytes.len(),
    ensures
        input != KeyEvent::Cancel ==> may_follow(state.states[i], state.step(input).states[i]),
        input == KeyEvent::Cancel ==> state.step(input).states[i] == state.states[i] || (i
            == state.cursor && state.states[i] == CharState::Current && state.step(
            input,
        ).states[i] == CharState::Pending),
        state.states[i] == CharState::Correct || state.states[i] == CharState::Corrected
            ==> state.step(input).states[i] == state.states[i],
{
}

/// Typing from the cursor on exactly what the sentence holds there ends
/// the round: the cursor is at the end, no error was counted, and every
/// position typed is correct, or corrected where it had been wrong.
pub proof fn lemma_exact_typing_from(state: TypingView, counters: CountersView)
    requires
        state.wf(),
    ensures
        ({
            let rest = state.bytes.skip(state.cursor);
            let end = state.run(keys_for(rest));
            let counted = counters.tally(state, keys_for(rest));
            &&& end.cursor == state.bytes.len()
            &&& end.bytes == state.bytes
            &&& counted.errors == counters.errors
            &&& counted.typed_chars == counters.typed_chars + rest.len()
            &&& forall|i: int|
                state.cursor <= i < state.bytes.len() ==> end.states[i] == if state.states[i]
                    == CharState::Wrong {
                    CharState::Corrected
                } else {
                    CharState::Correct
                }
            &&& forall|i: int| 0 <= i < state.cursor ==> end.states[i] == state.states[i]
        }),
    decreases state.bytes.len() - state.cursor,
{
    let rest = state.bytes.skip(state.cursor);
    let keys = keys_for(rest);
    if state.cursor < state.bytes.len() {
        let key = keys[0];
        assert(key == KeyEvent::Char(key_for(state.bytes[state.cursor])));
        assert(state.classify(key) == Keystroke::Hit);
        let next = state.step(key);
        assert(keys.drop_first() =~= keys_for(next.bytes.skip(next.cursor)));
        lemma_exact_typing_from(next, counters.record(Keystroke::Hit, key));
    } else {
        assert(keys =~= Seq::<KeyEvent>::empty());
    }
}

/// Typing a sentence that is not empty exactly as it is written ends the
/// round with the cursor at its length, all positions correct, no error,
/// and an accuracy of 100.
pub proof fn law_exact_typing(bytes: Seq<u8>)
    requires
        bytes.len() > 0,
    ensures
        ({
            let end = TypingView::loaded(bytes).run(keys_for(bytes));
            let counted = CountersView::zero().tally(TypingView::loaded(bytes), keys_for(bytes));
            &&& end.cursor == bytes.len()
            &&& end.is_complete()
            &&& forall|i: int| 0 <= i < bytes.len() ==> end.states[i] == CharState::Correct
            &&& counted.errors == 0
            &&& counted.typed_chars == bytes.len()
            &&& accuracy_of(counted.errors, counted.typed_chars) == Some(100nat)
        }),
{
    let start = TypingView::loaded(bytes);
    assert(bytes.skip(0) =~= bytes);
    lemma_exact_typing_from(start, CountersView::zero());
    assert(0nat * 100 / bytes.len() == 0) by (nonlinear_arith)
        requires
            bytes.len() > 0,
    ;
}

/// A session in its last round, left with exactly the keystrokes that the
/// rest of its sentence asks for, types it to the end and finishes.
pub proof fn lemma_exact_round_from<S: Sourceable>(session: TyperView<S>)
    requires
        session.state.wf(),
        session.rounds_left == 1,
        session.loaded,
    ensures
        ({
            let keys = keys_for(session.state.bytes.skip(session.state.cursor));
            let end = session.driven(Seq::empty(), keys);
            &&& end.phase() == SessionPhase::Finished
            &&& end.state == session.state.run(keys)
            &&& end.counters == session.counters.tally(session.state, keys)
            &&& end.providers == session.providers
        }),
    decreases session.state.bytes.len() - session.state.cursor,
{
    let state = session.state;
    let keys = keys_for(state.bytes.skip(state.cursor));
    if state.cursor < state.bytes.len() {
        let key = keys[0];
        assert(key == KeyEvent::Char(key_for(state.bytes[state.cursor])));
        assert(state.classify(key) == Keystroke::Hit);
        let next = session.keyed(key);
        assert(keys.drop_first() =~= keys_for(next.state.bytes.skip(next.state.cursor)));
        lemma_exact_round_from(next);
        assert(session.driven(Seq::empty(), keys) == next.driven(Seq::empty(), keys.drop_first()));
    } else {
        assert(keys =~= Seq::<KeyEvent>::empty());
        assert(session.phase() == SessionPhase::RoundComplete);
        assert(session.closed().phase() == SessionPhase::Finished);
        assert(session.driven(Seq::empty(), keys) == session.closed().driven(Seq::empty(), keys));
    }
}

/// A session of one round whose sentence is not empty and is typed exactly
/// as it is written finishes with no error more than before, that many
/// characters more, and every position correct.
pub proof fn law_exact_round<S: Sourceable>(session: TyperView<S>, bytes: Seq<u8>)
    requires
        bytes.len() > 0,
    ensures
        ({
            let end = session.begun(1).driven(seq![bytes], keys_for(bytes));
            &&& end.phase() == SessionPhase::Finished
            &&& end.state.cursor == bytes.len()
            &&& forall|i: int| 0 <= i < bytes.len() ==> end.state.states[i] == CharState::Correct
            &&& end.counters.errors == session.counters.errors
            &&& end.counters.typed_chars == session.counters.typed_chars + bytes.len()
        }),
{
    let start = session.begun(1);
    let sentences = seq![bytes];
    let loaded = start.fetched(bytes);
    assert(sentences.drop_first() =~= Seq::<Seq<u8>>::empty());
    assert(start.driven(sentences, keys_for(bytes)) == loaded.driven(
        sentences.drop_first(),
        keys_for(bytes),
    ));
    assert(bytes.skip(0) =~= bytes);
    lemma_exact_round_from(loaded);
    lemma_exact_typing_from(loaded.state, loaded.counters);
}

/// How many of `bytes` are a space.
pub open spec fn spaces_in(bytes: Seq<u8>) -> nat
    decreases bytes.len(),
{
    if bytes.len() == 0 {
        0
    } else {
        spaces_in(bytes.drop_first()) + if bytes[0] == 32u8 {
            1nat
        } else {
            0nat
        }
    }
}

/// There are no more spaces in a text than bytes.
pub proof fn lemma_spaces_are_bytes(bytes: Seq<u8>)
    ensures
        spaces_in(bytes) <= bytes.len(),
    decreases bytes.len(),
{
    if bytes.len() > 0 {
        lemma_spaces_are_bytes(bytes.drop_first());
    }
}

/// Whether the counters `counters` can hold a sentence's rest `rest` typed
/// without a mistake: its bytes as characters, its spaces as words.
pub open spec fn has_room_for(counters: CountersView, rest: Seq<u8>) -> bool {
    &&& counters.typed_chars + rest.len() <= u32::MAX
    &&& counters.typed_words + spaces_in(rest) <= u16::MAX
}

/// Typing the rest of a sentence without a mistake counts one word for
/// each of its spaces, and nothing else as a word.
pub proof fn law_exact_typing_counts_spaces(state: TypingView, counters: CountersView)
    requires
        state.wf(),
    ensures
        ({
            let rest = state.bytes.skip(state.cursor);
            counters.tally(state, keys_for(rest)).typed_words == counters.typed_words + spaces_in(
                rest,
            )
        }),
    decreases state.bytes.len() - state.cursor,
{
    let rest = state.bytes.skip(state.cursor);
    let keys = keys_for(rest);
    if state.cursor < state.bytes.len() {
        let key = keys[0];
        assert(key == KeyEvent::Char(key_for(state.bytes[state.cursor])));
        assert(state.classify(key) == Keystroke::Hit);
        assert((key == KeyEvent::Char(' ')) == (rest[0] == 32u8));
        let next = state.step(key);
        assert(keys.drop_first() =~= keys_for(next.bytes.skip(next.cursor)));
        assert(rest.drop_first() =~= next.bytes.skip(next.cursor));
        law_exact_typing_counts_spaces(next, counters.record(Keystroke::Hit, key));
    } else {
        assert(keys =~= Seq::<KeyEvent>::empty());
    }
}

/// A session in its last round, with room in its counters for the rest of
/// its sentence, can count every keystroke that the rest asks for, each at
/// its turn.
pub proof fn lemma_exact_round_has_room_from<S: Sourceable>(session: TyperView<S>, k: int)
    requires
        session.state.wf(),
        session.rounds_left == 1,
        session.loaded,
        has_room_for(session.counters, session.state.bytes.skip(session.state.cursor)),
        0 <= k < session.state.bytes.len() - session.state.cursor,
    ensures
        ({
            let keys = keys_for(session.state.bytes.skip(session.state.cursor));
            session.driven(Seq::empty(), keys.take(k)).can_take(keys[k])
        }),
    decreases k,
{
    let state = session.state;
    let rest = state.bytes.skip(state.cursor);
    let keys = keys_for(rest);
    let key = keys[0];
    assert(key == KeyEvent::Char(key_for(state.bytes[state.cursor])));
    assert(state.classify(key) == Keystroke::Hit);
    assert((key == KeyEvent::Char(' ')) == (rest[0] == 32u8));
    lemma_spaces_are_bytes(rest.drop_first());
    if k == 0 {
        assert(keys.take(0) =~= Seq::<KeyEvent>::empty());
        assert(session.driven(Seq::empty(), keys.take(0)) == session);
    } else {
        let next = session.keyed(key);
        let typed = keys.take(k);
        assert(typed[0] == key);
        assert(typed.drop_first() =~= keys.drop_first().take(k - 1));
        assert(keys.drop_first() =~= keys_for(next.state.bytes.skip(next.state.cursor)));
        assert(rest.drop_first() =~= next.state.bytes.skip(next.state.cursor));
        assert(session.driven(Seq::empty(), typed) == next.driven(
            Seq::empty(),
            typed.drop_first(),
        ));
        lemma_exact_round_has_room_from(next, k - 1);
        assert(keys[k] == keys.drop_first()[k - 1]);
    }
}

/// With room in the counters for a sentence, a session of one round can
/// count every keystroke of that sentence typed exactly as it is written:
/// it never has to stop in the middle for a counter that is full.
pub proof fn law_exact_round_has_room<S: Sourceable>(
    session: TyperView<S>,
    bytes: Seq<u8>,
    k: int,
)
    requires
        has_room_for(session.counters, bytes),
        0 <= k < bytes.len(),
    ensures
        session.begun(1).driven(seq![bytes], keys_for(bytes).take(k)).can_take(keys_for(bytes)[k]),
{
    let start = session.begun(1);
    let sentences = seq![bytes];
    let loaded = start.fetched(bytes);
    let typed = keys_for(bytes).take(k);
    assert(sentences.drop_first() =~= Seq::<Seq<u8>>::empty());
    assert(start.driven(sentences, typed) == loaded.driven(sentences.drop_first(), typed));
    assert(bytes.skip(0) =~= bytes);
    lemma_exact_round_has_room_from(loaded, k);
}

/// A sentence of no more than 65 535 bytes finds room in the counters of a
/// session that has not seen a keystroke.
pub proof fn law_fresh_counters_have_room(bytes: Seq<u8>)
    requires
        bytes.len() <= u16::MAX,
    ensures
        has_room_for(CountersView::zero(), bytes),
{
    lemma_spaces_are_bytes(bytes);
}

/// A keystroke that misses, be it a space typed where none is due or
/// another key where a space is due, counts as one error and leaves words,
/// characters and cursor alone.
pub proof fn law_miss_counts_an_error_only(
    state: TypingView,
    counters: CountersView,
    input: KeyEvent,
)
    requires
        state.wf(),
        state.classify(input) == Keystroke::Miss,
    ensures
        state.step(input).cursor == state.cursor,
        counters.record(state.classify(input), input) == (CountersView {
            errors: counters.errors + 1,
            ..counters
        }),
{
}

/// Keystrokes that miss leave the cursor where it is and the position
/// wrong, and each of them counts as one error.
pub proof fn lemma_mistakes(state: TypingView, counters: CountersView, wrong: Seq<KeyEvent>)
    requires
        state.wf(),
        wrong.len() > 0,
        forall|j: int| 0 <= j < wrong.len() ==> state.classify(wrong[j]) == Keystroke::Miss,
    ensures
        state.run(wrong) == state.miss(),
        counters.tally(state, wrong) == (CountersView {
            errors: counters.errors + wrong.len(),
            ..counters
        }),
    decreases wrong.len(),
{
    let next = state.step(wrong[0]);
    assert(next == state.miss());
    let later = wrong.drop_first();
    if later.len() > 0 {
        assert forall|j: int| 0 <= j < later.len() implies next.classify(later[j])
            == Keystroke::Miss by {
            assert(later[j] == wrong[j + 1]);
        }
        lemma_mistakes(next, counters.record(Keystroke::Miss, wrong[0]), later);
        assert(next.miss().states =~= next.states);
    } else {
        assert(next.run(later) == next);
        let counted = counters.record(Keystroke::Miss, wrong[0]);
        assert(counted.tally(next, later) == counted);
    }
}

/// After one or more keystrokes that miss at a position, the right
/// character marks it corrected, never correct, and moves the cursor on.
/// The errors have grown by the number of misses: by exactly one where
/// there was one.
pub proof fn law_corrected_after_mistakes(
    state: TypingView,
    counters: CountersView,
    wrong: Seq<KeyEvent>,
)
    requires
        state.wf(),
        wrong.len() > 0,
        forall|j: int| 0 <= j < wrong.len() ==> state.classify(wrong[j]) == Keystroke::Miss,
    ensures
        ({
            let right = KeyEvent::Char(key_for(state.bytes[state.cursor]));
            let end = state.run(wrong).step(right);
            let counted = counters.tally(state, wrong).record(
                state.run(wrong).classify(right),
                right,
            );
            &&& state.cursor < state.bytes.len()
            &&& end.states[state.cursor] == CharState::Corrected
            &&& end.cursor == state.cursor + 1
            &&& counted.errors == counters.errors + wrong.len()
            &&& counted.typed_chars == counters.typed_chars + 1
        }),
{
    lemma_mistakes(state, counters, wrong);
    assert(state.classify(wrong[0]) == Keystroke::Miss);
}

/// A cancel before the end puts the cursor at the end at once, leaves
/// every position behind the cursor as it was, and counts nothing.
pub proof fn law_cancel(state: TypingView, counters: CountersView)
    requires
        state.wf(),
        state.cursor < state.bytes.len(),
    ensures
        state.step(KeyEvent::Cancel).cursor == state.bytes.len(),
        state.step(KeyEvent::Cancel).is_complete(),
        forall|i: int|
            state.cursor < i < state.bytes.len() ==> state.step(KeyEvent::Cancel).states[i]
                == state.states[i],
        forall|i: int|
            0 <= i < state.cursor ==> state.step(KeyEvent::Cancel).states[i] == state.states[i],
        counters.record(state.classify(KeyEvent::Cancel), KeyEvent::Cancel) == counters,
{
}

/// The word counter grows by one with a space typed where a space is
/// expected, and with nothing else: not with a space typed elsewhere, and
/// not with another key where a space is expected.
pub proof fn law_words_count_typed_spaces(
    state: TypingView,
    counters: CountersView,
    input: KeyEvent,
)
    requires
        state.wf(),
    ensures
        counters.record(state.classify(input), input).typed_words == counters.typed_words + if input
            == KeyEvent::Char(' ') && state.expects(' ') {
            1nat
        } else {
            0nat
        },
{
}

/// No counter ever falls, and each grows by one at most with one input
/// event.
pub proof fn law_counters_only_grow(state: TypingView, counters: CountersView, input: KeyEvent)
    ensures
        ({
            let counted = counters.record(state.classify(input), input);
            &&& counters.errors <= counted.errors <= counters.errors + 1
            &&& counters.typed_chars <= counted.typed_chars <= counters.typed_chars + 1
            &&& counters.typed_words <= counted.typed_words <= counters.typed_words + 1
            &&& counted.typed_words - counters.typed_words <= counted.typed_chars
                - counters.typed_chars
        }),
{
}

/// A session goes from awaiting a sentence to typing it, from there to the
/// round being complete, and from there to the next round, or to the end
/// after the last. A sentence that is empty is complete as soon as it is
/// fetched. Only the closing of a round takes a round off.
pub proof fn law_phases_follow<S: Sourceable>(
    session: TyperView<S>,
    bytes: Seq<u8>,
    input: KeyEvent,
)
    requires
        session.state.wf(),
    ensures
        session.phase() == SessionPhase::AwaitingSentence ==> ({
            let next = session.fetched(bytes);
            &&& next.rounds_left == session.rounds_left
            &&& next.phase() == if bytes.len() == 0 {
                SessionPhase::RoundComplete
            } else {
                SessionPhase::InProgress
            }
        }),
        session.phase() == SessionPhase::InProgress ==> ({
            let next = session.keyed(input);
            &&& next.rounds_left == session.rounds_left
            &&& next.phase() == SessionPhase::InProgress || next.phase()
                == SessionPhase::RoundComplete
        }),
        session.phase() == SessionPhase::RoundComplete ==> ({
            let next = session.closed();
            &&& next.rounds_left == session.rounds_left - 1
            &&& next.phase() == if session.rounds_left == 1 {
                SessionPhase::Finished
            } else {
                SessionPhase::AwaitingSentence
            }
        }),
        session.phase() == SessionPhase::Finished ==> session.driven(seq![bytes], seq![input])
            == session,
{
}

/// With the typed characters fixed, more errors never give a higher
/// accuracy, and the accuracy stays within 0 and 100: it is 0, not less,
/// where the errors are as many as the characters or more.
pub proof fn law_accuracy_falls_with_errors(fewer: nat, more: nat, typed_chars: nat)
    requires
        fewer <= more,
        typed_chars > 0,
    ensures
        accuracy_of(fewer, typed_chars) is Some,
        accuracy_of(more, typed_chars) is Some,
        accuracy_of(more, typed_chars).unwrap() <= accuracy_of(fewer, typed_chars).unwrap() <= 100,
        more >= typed_chars ==> accuracy_of(more, typed_chars) == Some(0nat),
        accuracy_of(0, typed_chars) == Some(100nat),
{
    lemma_div_is_ordered(fewer as int * 100, more as int * 100, typed_chars as int);
    assert(0 <= fewer * 100 / typed_chars) by (nonlinear_arith)
        requires
            typed_chars > 0,
    ;
    assert(0nat * 100 / typed_chars == 0) by (nonlinear_arith)
        requires
            typed_chars > 0,
    ;
    if more >= typed_chars {
        lemma_div_is_ordered(typed_chars as int * 100, more as int * 100, typed_chars as int);
        assert(typed_chars * 100 / typed_chars == 100) by (nonlinear_arith)
            requires
                typed_chars > 0,
        ;
    }
}

/// In hundredths of a percent the accuracy behaves as in whole percent:
/// with the typed characters fixed, more errors never give a higher one, it
/// stays within 0 and 10 000, and it is 0 where the errors are as many as
/// the characters or more.
pub proof fn law_accuracy_hundredths_fall_with_errors(fewer: nat, more: nat, typed_chars: nat)
    requires
        fewer <= more,
        typed_chars > 0,
    ensures
        accuracy_hundredths_of(fewer, typed_chars) is Some,
        accuracy_hundredths_of(more, typed_chars) is Some,
        accuracy_hundredths_of(more, typed_chars).unwrap() <= accuracy_hundredths_of(
            fewer,
            typed_chars,
        ).unwrap() <= 10_000,
        more >= typed_chars ==> accuracy_hundredths_of(more, typed_chars) == Some(0nat),
        accuracy_hundredths_of(0, typed_chars) == Some(10_000nat),
{
    lemma_div_is_ordered(fewer as int * 10_000, more as int * 10_000, typed_chars as int);
    assert(0 <= fewer * 10_000 / typed_chars) by (nonlinear_arith)
        requires
            typed_chars > 0,
    ;
    assert(0nat * 10_000 / typed_chars == 0) by (nonlinear_arith)
        requires
            typed_chars > 0,
    ;
    if more >= typed_chars {
        lemma_div_is_ordered(typed_chars as int * 10_000, more as int * 10_000, typed_chars as int);
        assert(typed_chars * 10_000 / typed_chars == 10_000) by (nonlinear_arith)
            requires
                typed_chars > 0,
        ;
    }
}

/// The accuracy in whole percent is the accuracy in hundredths, rounded up
/// to the next whole percent.
pub proof fn law_percent_rounds_hundredths_up(errors: nat, typed_chars: nat)
    requires
        typed_chars > 0,
    ensures
        accuracy_of(errors, typed_chars) is Some,
        accuracy_hundredths_of(errors, typed_chars) is Some,
        accuracy_hundredths_of(errors, typed_chars).unwrap() <= 100 * accuracy_of(
            errors,
            typed_chars,
        ).unwrap() < accuracy_hundredths_of(errors, typed_chars).unwrap() + 100,
{
    let coarse = errors * 100 / typed_chars;
    let fine = errors * 10_000 / typed_chars;
    assert(100 * coarse <= fine < 100 * coarse + 100) by (nonlinear_arith)
        requires
            typed_chars > 0,
            coarse == errors * 100 / typed_chars,
            fine == errors * 10_000 / typed_chars,
    ;
}

} // verus!
