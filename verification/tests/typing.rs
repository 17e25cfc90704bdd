use typers::{
    apply_keystroke, CharState, KeyEvent, Keystroke, SessionCounters, TypingState,
};

fn type_all(state: &mut TypingState, counters: &mut SessionCounters, keys: &[KeyEvent]) {
    for key in keys {
        apply_keystroke(state, counters, *key);
    }
}

fn chars(text: &str) -> Vec<KeyEvent> {
    text.chars().map(KeyEvent::Char).collect()
}

#[test]
fn exact_keystrokes_complete_the_sentence() {
    let mut state = TypingState::load("cat.".to_string());
    let mut counters = SessionCounters::new();
    type_all(&mut state, &mut counters, &chars("cat."));
    assert_eq!(
        state.states(),
        &vec![CharState::Correct, CharState::Correct, CharState::Correct, CharState::Correct]
    );
    assert_eq!(state.cursor(), 4);
    assert!(state.is_complete());
    assert_eq!(counters.errors(), 0);
    assert_eq!(counters.accuracy(), Some(100));
}

#[test]
fn a_mistake_first_leaves_the_position_corrected() {
    let mut state = TypingState::load("cat.".to_string());
    let mut counters = SessionCounters::new();
    type_all(&mut state, &mut counters, &chars("xcat."));
    assert_eq!(state.states()[0], CharState::Corrected);
    assert_eq!(
        state.states(),
        &vec![CharState::Corrected, CharState::Correct, CharState::Correct, CharState::Correct]
    );
    assert_eq!(counters.errors(), 1);
    assert_eq!(state.cursor(), 4);
    assert_eq!(counters.typed_chars(), 4);
    assert_eq!(counters.accuracy(), Some(75));
}

#[test]
fn cancel_abandons_the_rest() {
    let mut state = TypingState::load("ab".to_string());
    let mut counters = SessionCounters::new();
    type_all(&mut state, &mut counters, &[KeyEvent::Char('a'), KeyEvent::Cancel]);
    assert_eq!(state.cursor(), 2);
    assert!(state.is_complete());
    assert_eq!(state.states()[1], CharState::Pending);
    assert_eq!(state.states()[0], CharState::Correct);
    assert_eq!(counters.errors(), 0);
    assert_eq!(counters.typed_chars(), 1);
}

#[test]
fn load_marks_the_first_position_current() {
    let state = TypingState::load("abc".to_string());
    assert_eq!(state.sentence(), "abc");
    assert_eq!(state.len(), 3);
    assert_eq!(state.cursor(), 0);
    assert!(!state.is_complete());
    assert_eq!(
        state.states(),
        &vec![CharState::Current, CharState::Pending, CharState::Pending]
    );
}

#[test]
fn an_empty_sentence_is_complete_at_once() {
    let mut state = TypingState::load(String::new());
    assert_eq!(state.len(), 0);
    assert_eq!(state.cursor(), 0);
    assert!(state.is_complete());
    assert!(state.states().is_empty());
    assert_eq!(state.apply(KeyEvent::Char('a')), Keystroke::Ignored);
    assert_eq!(state.apply(KeyEvent::Cancel), Keystroke::Cancelled);
    assert_eq!(state.cursor(), 0);
}

#[test]
fn a_failed_sentence_is_all_wrong_and_complete() {
    let state = TypingState::failed("oops".to_string());
    assert_eq!(state.sentence(), "oops");
    assert_eq!(state.cursor(), 4);
    assert!(state.is_complete());
    assert_eq!(state.states(), &vec![CharState::Wrong; 4]);
}

#[test]
fn the_cursor_moves_with_each_hit() {
    let mut state = TypingState::load("ab".to_string());
    assert_eq!(state.apply(KeyEvent::Char('a')), Keystroke::Hit);
    assert_eq!(state.cursor(), 1);
    assert_eq!(state.states(), &vec![CharState::Correct, CharState::Current]);
    assert_eq!(state.apply(KeyEvent::Char('b')), Keystroke::Hit);
    assert_eq!(state.cursor(), 2);
    assert_eq!(state.states(), &vec![CharState::Correct, CharState::Correct]);
    assert!(state.is_complete());
}

#[test]
fn a_miss_keeps_the_cursor_and_counts_each_time() {
    let mut state = TypingState::load("ab".to_string());
    let mut counters = SessionCounters::new();
    type_all(&mut state, &mut counters, &chars("xyz"));
    assert_eq!(state.cursor(), 0);
    assert_eq!(state.states(), &vec![CharState::Wrong, CharState::Pending]);
    assert_eq!(counters.errors(), 3);
    assert_eq!(counters.typed_chars(), 0);
    apply_keystroke(&mut state, &mut counters, KeyEvent::Char('a'));
    assert_eq!(state.states(), &vec![CharState::Corrected, CharState::Current]);
    assert_eq!(state.cursor(), 1);
    assert_eq!(counters.errors(), 3);
    assert_eq!(counters.typed_chars(), 1);
}

#[test]
fn one_mistake_counts_one_error() {
    let mut state = TypingState::load("hi".to_string());
    let mut counters = SessionCounters::new();
    type_all(&mut state, &mut counters, &chars("hxi"));
    assert_eq!(state.states(), &vec![CharState::Correct, CharState::Corrected]);
    assert_eq!(counters.errors(), 1);
    assert_eq!(counters.typed_chars(), 2);
}

#[test]
fn cancel_keeps_what_lies_behind_the_cursor() {
    let mut state = TypingState::load("abcde".to_string());
    let mut counters = SessionCounters::new();
    type_all(&mut state, &mut counters, &chars("ab"));
    apply_keystroke(&mut state, &mut counters, KeyEvent::Cancel);
    assert_eq!(state.cursor(), 5);
    assert_eq!(
        state.states(),
        &vec![
            CharState::Correct,
            CharState::Correct,
            CharState::Pending,
            CharState::Pending,
            CharState::Pending
        ]
    );
    assert_eq!(counters.errors(), 0);
    assert_eq!(counters.typed_chars(), 2);
    assert_eq!(counters.typed_words(), 0);
}

#[test]
fn cancel_on_a_wrong_position_leaves_it_wrong() {
    let mut state = TypingState::load("ab".to_string());
    let mut counters = SessionCounters::new();
    type_all(&mut state, &mut counters, &[KeyEvent::Char('x'), KeyEvent::Cancel]);
    assert_eq!(state.cursor(), 2);
    assert_eq!(state.states(), &vec![CharState::Wrong, CharState::Pending]);
    assert_eq!(counters.errors(), 1);
}

#[test]
fn cancel_at_the_first_position() {
    let mut state = TypingState::load("ab".to_string());
    assert_eq!(state.apply(KeyEvent::Cancel), Keystroke::Cancelled);
    assert_eq!(state.cursor(), 2);
    assert_eq!(state.states(), &vec![CharState::Pending, CharState::Pending]);
}

#[test]
fn other_keys_change_nothing() {
    let mut state = TypingState::load("ab".to_string());
    let mut counters = SessionCounters::new();
    apply_keystroke(&mut state, &mut counters, KeyEvent::Other);
    assert_eq!(state.cursor(), 0);
    assert_eq!(state.states(), &vec![CharState::Current, CharState::Pending]);
    assert_eq!(counters.errors(), 0);
    assert_eq!(counters.typed_chars(), 0);
}

#[test]
fn characters_after_the_end_are_ignored() {
    let mut state = TypingState::load("a".to_string());
    let mut counters = SessionCounters::new();
    type_all(&mut state, &mut counters, &chars("abc"));
    assert_eq!(state.cursor(), 1);
    assert_eq!(state.states(), &vec![CharState::Correct]);
    assert_eq!(counters.errors(), 0);
    assert_eq!(counters.typed_chars(), 1);
}

#[test]
fn spaces_count_as_words_only_when_typed_right() {
    let mut state = TypingState::load("a b c".to_string());
    let mut counters = SessionCounters::new();
    // A space where `a` is expected, then `a`, a wrong key for the space,
    // the space, and the rest.
    type_all(&mut state, &mut counters, &chars(" ax b c"));
    assert!(state.is_complete());
    assert_eq!(counters.typed_words(), 2);
    assert_eq!(counters.typed_chars(), 5);
    assert_eq!(counters.errors(), 2);
}

#[test]
fn counters_run_over_sentences() {
    let mut counters = SessionCounters::new();
    let mut first = TypingState::load("a b".to_string());
    type_all(&mut first, &mut counters, &chars("a b"));
    let mut second = TypingState::load("c d".to_string());
    type_all(&mut second, &mut counters, &chars("cx d"));
    assert_eq!(counters.typed_chars(), 6);
    assert_eq!(counters.typed_words(), 2);
    assert_eq!(counters.errors(), 1);
}

#[test]
fn positions_are_bytes() {
    // 'é' takes two bytes, 0xC3 and 0xA9; each is typed as the character
    // with that code point.
    let mut state = TypingState::load("é".to_string());
    assert_eq!(state.len(), 2);
    assert_eq!(state.apply(KeyEvent::Char('é')), Keystroke::Miss);
    assert_eq!(state.apply(KeyEvent::Char('\u{c3}')), Keystroke::Hit);
    assert_eq!(state.apply(KeyEvent::Char('\u{a9}')), Keystroke::Hit);
    assert_eq!(state.states(), &vec![CharState::Corrected, CharState::Correct]);
    assert!(state.is_complete());
}

#[test]
fn classify_says_what_apply_will_do() {
    let mut state = TypingState::load("ab".to_string());
    assert_eq!(state.classify(KeyEvent::Char('a')), Keystroke::Hit);
    assert_eq!(state.classify(KeyEvent::Char('b')), Keystroke::Miss);
    assert_eq!(state.classify(KeyEvent::Other), Keystroke::Ignored);
    assert_eq!(state.classify(KeyEvent::Cancel), Keystroke::Cancelled);
    assert_eq!(state.cursor(), 0);
    state.apply(KeyEvent::Cancel);
    assert_eq!(state.classify(KeyEvent::Char('a')), Keystroke::Ignored);
}
