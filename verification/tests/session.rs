use std::cell::Cell;
use typers::{
    relay, styled_chars, Args, CharState, KeyEvent, Markup, ProviderPool,
    SentenceTyper, SessionPhase, SourceError, Sourceable, StyledChar, TextSource, Tint,
    TypingState,
};

/// Gives the same sentence each time.
struct Fixed(&'static str);

impl Sourceable for Fixed {
    fn get_new_sentence(&self) -> Result<String, String> {
        Ok(self.0.to_string())
    }
}

/// Fails each time.
struct Broken;

impl Sourceable for Broken {
    fn get_new_sentence(&self) -> Result<String, String> {
        Err("out of order".to_string())
    }
}

/// One of several kinds of source, for a pool that mixes them.
enum Mixed {
    Fixed(Fixed),
    Broken(Broken),
    Text(TextSource),
}

impl Sourceable for Mixed {
    fn get_new_sentence(&self) -> Result<String, String> {
        match self {
            Mixed::Fixed(source) => source.get_new_sentence(),
            Mixed::Broken(source) => source.get_new_sentence(),
            Mixed::Text(source) => source.get_new_sentence(),
        }
    }
}

/// Gives its sentences in turn, and fails when they are used up.
struct InTurn {
    sentences: Vec<&'static str>,
    next: Cell<usize>,
}

impl InTurn {
    fn new(sentences: &[&'static str]) -> InTurn {
        InTurn { sentences: sentences.to_vec(), next: Cell::new(0) }
    }
}

impl Sourceable for InTurn {
    fn get_new_sentence(&self) -> Result<String, String> {
        let i = self.next.get();
        self.next.set(i + 1);
        match self.sentences.get(i) {
            Some(s) => Ok(s.to_string()),
            None => Err("used up".to_string()),
        }
    }
}

fn chars(text: &str) -> Vec<KeyEvent> {
    text.chars().map(KeyEvent::Char).collect()
}

#[test]
fn empty_pool_is_unavailable() {
    let pool: ProviderPool<Fixed> = ProviderPool::new();
    assert_eq!(pool.len(), 0);
    assert!(matches!(pool.next_sentence(), Err(SourceError::ProviderUnavailable)));

    let mut typer: SentenceTyper<Fixed> = SentenceTyper::default();
    assert!(matches!(typer.get_next_sentence(), Err(SourceError::ProviderUnavailable)));
    assert!(matches!(
        typer.type_sentences(3, &chars("abc")),
        Err(SourceError::ProviderUnavailable)
    ));
    assert_eq!(typer.rounds_left(), 3);
    assert_eq!(typer.phase(), SessionPhase::AwaitingSentence);
    assert_eq!(typer.counters().accuracy(), None);
    assert_eq!(typer.counters().words_per_minute(0), None);
    assert_eq!(typer.counters().feedback(), None);
    assert_eq!(typer.counters().errors(), 0);
}

#[test]
fn pool_passes_the_answer_on() {
    let mut pool = ProviderPool::new();
    pool.register(Fixed("same again"));
    assert_eq!(pool.len(), 1);
    assert_eq!(pool.next_sentence().unwrap(), "same again");

    let mut failing = ProviderPool::new();
    failing.register(Broken);
    match failing.next_sentence() {
        Err(SourceError::ProviderFetchFailed(reason)) => assert_eq!(reason, "out of order"),
        other => panic!("unexpected {:?}", other),
    }
}

#[test]
fn pool_asks_every_provider_in_the_long_run() {
    let mut pool = ProviderPool::new();
    pool.register(Fixed("one"));
    pool.register(Fixed("two"));
    pool.register(Fixed("one"));
    assert_eq!(pool.len(), 3);
    let mut ones = 0;
    let mut twos = 0;
    for _ in 0..300 {
        match pool.next_sentence().unwrap().as_str() {
            "one" => ones += 1,
            "two" => twos += 1,
            other => panic!("unexpected {}", other),
        }
    }
    assert!(ones > twos);
    assert!(twos > 0);
}

#[test]
fn relay_keeps_the_answer() {
    assert_eq!(relay(Ok("a sentence".to_string())).unwrap(), "a sentence");
    match relay(Err("why".to_string())) {
        Err(SourceError::ProviderFetchFailed(reason)) => assert_eq!(reason, "why"),
        other => panic!("unexpected {:?}", other),
    }
}

#[test]
fn new_loads_a_sentence_of_the_source() {
    let typer = SentenceTyper::new(&Fixed("abc"));
    assert_eq!(typer.state().sentence(), "abc");
    assert_eq!(typer.state().cursor(), 0);
    assert_eq!(
        typer.state().states(),
        &vec![CharState::Current, CharState::Pending, CharState::Pending]
    );
    assert_eq!(typer.counters().errors(), 0);
    assert_eq!(typer.counters().typed_chars(), 0);
    assert_eq!(typer.counters().typed_words(), 0);
    assert_eq!(typer.source_count(), 0);
    assert_eq!(typer.rounds_left(), 1);
    assert_eq!(typer.phase(), SessionPhase::InProgress);
}

#[test]
fn new_shows_the_reason_of_a_failure() {
    let typer = SentenceTyper::new(&Broken);
    assert_eq!(typer.state().sentence(), "out of order");
    assert_eq!(typer.state().cursor(), 12);
    assert_eq!(typer.state().states(), &vec![CharState::Wrong; 12]);
    assert_eq!(typer.phase(), SessionPhase::RoundComplete);

    let shown: SentenceTyper<Broken> = SentenceTyper::error("no".to_string());
    assert_eq!(shown.state().sentence(), "no");
    assert_eq!(shown.state().states(), &vec![CharState::Wrong; 2]);
    assert!(shown.state().is_complete());
}

#[test]
fn new_with_an_empty_sentence_is_complete() {
    let typer = SentenceTyper::new(&Fixed(""));
    assert_eq!(typer.state().cursor(), 0);
    assert!(typer.state().is_complete());
    assert_eq!(typer.phase(), SessionPhase::RoundComplete);
}

#[test]
fn default_has_nothing_to_do() {
    let typer: SentenceTyper<Fixed> = SentenceTyper::default();
    assert_eq!(typer.state().sentence(), "");
    assert_eq!(typer.source_count(), 0);
    assert_eq!(typer.rounds_left(), 0);
    assert_eq!(typer.phase(), SessionPhase::Finished);
}

#[test]
fn one_round_by_hand() {
    let mut typer = SentenceTyper::new(&Fixed("a b"));
    for key in chars("a b") {
        assert_eq!(typer.phase(), SessionPhase::InProgress);
        typer.apply_keystroke(key);
    }
    assert_eq!(typer.phase(), SessionPhase::RoundComplete);
    typer.close_round();
    assert_eq!(typer.phase(), SessionPhase::Finished);
    assert_eq!(typer.rounds_left(), 0);
    assert_eq!(typer.counters().typed_chars(), 3);
    assert_eq!(typer.counters().typed_words(), 1);
    assert_eq!(typer.counters().accuracy(), Some(100));
}

#[test]
fn sources_add_up() {
    let mut typer: SentenceTyper<Mixed> = SentenceTyper::default();
    typer.add_source(Mixed::Fixed(Fixed("x")));
    typer.add_source(Mixed::Text(TextSource::new("One. Two.".to_string(), '.')));
    typer.add_source(Mixed::Fixed(Fixed("x")));
    assert_eq!(typer.source_count(), 3);
    assert_eq!(typer.state().sentence(), "");
    assert_eq!(typer.rounds_left(), 0);
}

#[test]
fn next_sentence_replaces_the_sentence_and_keeps_the_counters() {
    let mut typer = SentenceTyper::new(&Fixed("ab"));
    typer.add_source(Fixed("cd"));
    typer.apply_keystroke(KeyEvent::Char('x'));
    typer.apply_keystroke(KeyEvent::Char('a'));
    assert!(typer.get_next_sentence().is_ok());
    assert_eq!(typer.state().sentence(), "cd");
    assert_eq!(typer.state().cursor(), 0);
    assert_eq!(typer.state().states(), &vec![CharState::Current, CharState::Pending]);
    assert_eq!(typer.counters().errors(), 1);
    assert_eq!(typer.counters().typed_chars(), 1);
}

#[test]
fn a_failing_provider_leaves_the_session_as_it_was() {
    let mut typer = SentenceTyper::new(&Mixed::Fixed(Fixed("ab")));
    typer.add_source(Mixed::Broken(Broken));
    typer.apply_keystroke(KeyEvent::Char('a'));
    match typer.get_next_sentence() {
        Err(SourceError::ProviderFetchFailed(reason)) => assert_eq!(reason, "out of order"),
        other => panic!("unexpected {:?}", other),
    }
    assert_eq!(typer.state().sentence(), "ab");
    assert_eq!(typer.state().cursor(), 1);
    assert_eq!(typer.counters().typed_chars(), 1);
}

#[test]
fn a_session_of_rounds() {
    let mut typer = SentenceTyper::default();
    typer.add_source(InTurn::new(&["ab", "c d", "", "e"]));
    // `ab` with one mistake, `c d` abandoned after `c`, the empty
    // sentence, which takes no key, and `e`; two keys are left over.
    let mut keys = chars("axb");
    keys.push(KeyEvent::Char('c'));
    keys.push(KeyEvent::Other);
    keys.push(KeyEvent::Cancel);
    keys.extend(chars("exy"));
    assert_eq!(typer.type_sentences(4, &keys).unwrap(), 7);
    assert_eq!(typer.phase(), SessionPhase::Finished);
    assert_eq!(typer.rounds_left(), 0);
    assert_eq!(typer.state().sentence(), "e");
    assert_eq!(typer.state().states(), &vec![CharState::Correct]);
    assert_eq!(typer.counters().typed_chars(), 4);
    assert_eq!(typer.counters().errors(), 1);
    assert_eq!(typer.counters().typed_words(), 0);
    assert_eq!(typer.counters().accuracy(), Some(75));
}

#[test]
fn a_session_stops_when_the_keys_run_out() {
    let mut typer = SentenceTyper::default();
    typer.add_source(Fixed("a b"));
    assert_eq!(typer.type_sentences(2, &chars("a ba")).unwrap(), 4);
    assert_eq!(typer.phase(), SessionPhase::InProgress);
    assert_eq!(typer.rounds_left(), 1);
    assert_eq!(typer.state().cursor(), 1);
    assert_eq!(typer.counters().typed_chars(), 4);
    assert_eq!(typer.counters().typed_words(), 1);
}

#[test]
fn a_session_stops_when_a_provider_fails() {
    let mut typer = SentenceTyper::default();
    typer.add_source(InTurn::new(&["ab"]));
    match typer.type_sentences(3, &chars("abcd")) {
        Err(SourceError::ProviderFetchFailed(reason)) => assert_eq!(reason, "used up"),
        other => panic!("unexpected {:?}", other),
    }
    assert_eq!(typer.phase(), SessionPhase::AwaitingSentence);
    assert_eq!(typer.rounds_left(), 2);
    assert_eq!(typer.state().sentence(), "ab");
    assert_eq!(typer.counters().typed_chars(), 2);
}

#[test]
fn a_session_of_no_rounds_asks_for_nothing() {
    let mut typer: SentenceTyper<Fixed> = SentenceTyper::default();
    assert_eq!(typer.type_sentences(0, &chars("abc")).unwrap(), 0);
    assert_eq!(typer.phase(), SessionPhase::Finished);
}

#[test]
fn a_session_fetches_one_sentence_per_round() {
    let mut typer = SentenceTyper::default();
    typer.add_source(InTurn::new(&["a", "b"]));
    assert_eq!(typer.type_sentences(2, &chars("ab")).unwrap(), 2);
    assert_eq!(typer.phase(), SessionPhase::Finished);
    assert_eq!(typer.state().sentence(), "b");
}

#[test]
fn each_mark_has_its_look() {
    let mut state = TypingState::load("abcde".to_string());
    for key in chars("axb") {
        state.apply(key);
    }
    state.apply(KeyEvent::Char('y'));
    let plain = Markup { bold: false, reversed: false, underline: false, tint: Tint::Plain };
    assert_eq!(
        styled_chars(&state),
        vec![
            StyledChar {
                ch: 'a',
                markup: Markup { bold: true, reversed: false, underline: false, tint: Tint::Green },
            },
            StyledChar {
                ch: 'b',
                markup: Markup {
                    bold: true,
                    reversed: false,
                    underline: true,
                    tint: Tint::BrightRed,
                },
            },
            StyledChar {
                ch: 'c',
                markup: Markup { bold: true, reversed: true, underline: false, tint: Tint::Red },
            },
            StyledChar { ch: 'd', markup: plain },
            StyledChar { ch: 'e', markup: plain },
        ]
    );
    let fresh = TypingState::load("é".to_string());
    assert_eq!(
        styled_chars(&fresh),
        vec![StyledChar {
            ch: 'é',
            markup: Markup { bold: false, reversed: true, underline: false, tint: Tint::Plain },
        }]
    );
}

#[test]
fn args_name_a_source_or_not() {
    assert!(!Args { wikipedia: false, file_paths: None, number: 1 }.any());
    assert!(Args { wikipedia: true, file_paths: None, number: 1 }.any());
    assert!(Args { wikipedia: false, file_paths: Some(vec![]), number: 1 }.any());
    assert!(Args { wikipedia: true, file_paths: Some(vec!["a.json".to_string()]), number: 9 }.any());
}

#[test]
fn a_session_stops_when_a_counter_is_full() {
    let mut typer = SentenceTyper::default();
    typer.add_source(Fixed(" "));
    let keys = vec![KeyEvent::Char(' '); 70_000];
    assert_eq!(typer.type_sentences(255, &keys).unwrap(), 255);
    assert_eq!(typer.phase(), SessionPhase::Finished);
    assert_eq!(typer.counters().typed_words(), 255);

    let mut long = SentenceTyper::default();
    long.add_source(Fixed("                                                                "));
    let mut used = 0;
    for _ in 0..5 {
        used += long.type_sentences(255, &keys).unwrap();
    }
    assert_eq!(used, 65_535);
    assert_eq!(long.counters().typed_words(), u16::MAX);
    assert_eq!(long.phase(), SessionPhase::InProgress);
    assert!(!long.can_take(KeyEvent::Char(' ')));
    assert!(long.can_take(KeyEvent::Char('x')));
    assert_eq!(long.type_sentences(1, &keys).unwrap(), 0);
    assert_eq!(long.phase(), SessionPhase::InProgress);
}

#[test]
fn a_pool_of_several_kinds() {
    let mut typer: SentenceTyper<Mixed> = SentenceTyper::default();
    typer.add_source(Mixed::Text(TextSource::new("One. Two.".to_string(), '.')));
    typer.add_source(Mixed::Fixed(Fixed("three")));
    let mut seen = std::collections::BTreeSet::new();
    for _ in 0..300 {
        assert!(typer.get_next_sentence().is_ok());
        seen.insert(typer.state().sentence().to_string());
    }
    let expected: Vec<String> =
        ["One.", "Two.", "three"].iter().map(|s| s.to_string()).collect();
    assert_eq!(seen.into_iter().collect::<Vec<String>>(), expected);
}

#[test]
fn a_session_keeps_its_start_time() {
    let mut typer: SentenceTyper<Fixed> = SentenceTyper::default();
    let started = *typer.counters().start_time();
    while started.elapsed().as_millis() < 2 {
        std::hint::spin_loop();
    }
    typer.add_source(Fixed("ab"));
    let mut keys = chars("axb");
    keys.push(KeyEvent::Cancel);
    assert_eq!(typer.type_sentences(2, &keys).unwrap(), 4);
    typer.begin(1);
    assert!(typer.get_next_sentence().is_ok());
    typer.apply_keystroke(KeyEvent::Cancel);
    typer.close_round();
    assert_eq!(*typer.counters().start_time(), started);
}

#[test]
fn a_session_counts_only_the_keys_it_took() {
    let mut typer = SentenceTyper::default();
    typer.add_source(Fixed("ab"));
    assert_eq!(typer.type_sentences(1, &chars("abcdef")).unwrap(), 2);
    assert_eq!(typer.phase(), SessionPhase::Finished);
    assert_eq!(typer.type_sentences(2, &chars("axbab!")).unwrap(), 5);
    assert_eq!(typer.counters().typed_chars(), 6);
    assert_eq!(typer.counters().errors(), 1);
}
