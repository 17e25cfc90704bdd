use typers::{
    accuracy, accuracy_hundredths, feedback, words_per_minute, words_per_minute_hundredths,
    Feedback, KeyEvent, Keystroke, SessionCounters,
};

#[test]
fn accuracy_has_no_figure_before_the_first_character() {
    assert_eq!(accuracy(0, 0), None);
    assert_eq!(accuracy(7, 0), None);
    assert_eq!(SessionCounters::new().accuracy(), None);
}

#[test]
fn accuracy_follows_the_formula() {
    assert_eq!(accuracy(0, 4), Some(100));
    assert_eq!(accuracy(1, 4), Some(75));
    assert_eq!(accuracy(1, 3), Some(67));
    assert_eq!(accuracy(2, 3), Some(34));
    assert_eq!(accuracy(1, 1000), Some(100));
    assert_eq!(accuracy(10, 1000), Some(99));
    assert_eq!(accuracy(u32::MAX, u32::MAX), Some(0));
    assert_eq!(accuracy(0, u32::MAX), Some(100));
}

#[test]
fn accuracy_is_clamped_at_zero() {
    assert_eq!(accuracy(4, 4), Some(0));
    assert_eq!(accuracy(5, 4), Some(0));
    assert_eq!(accuracy(u32::MAX, 1), Some(0));
}

#[test]
fn accuracy_never_rises_with_errors() {
    let typed_chars = 37;
    let mut last = 100;
    for errors in 0..80 {
        let now = accuracy(errors, typed_chars).unwrap();
        assert!(now <= last);
        assert!(now <= 100);
        last = now;
    }
    assert_eq!(last, 0);
}

#[test]
fn words_per_minute_follows_the_formula() {
    assert_eq!(words_per_minute(10, 60_000), Some(10));
    assert_eq!(words_per_minute(3, 1_500), Some(120));
    assert_eq!(words_per_minute(1, 7_000), Some(8));
    assert_eq!(words_per_minute(0, 5), Some(0));
    assert_eq!(words_per_minute(u16::MAX, 1), Some(3_932_100_000));
    assert_eq!(words_per_minute(1, u128::MAX), Some(0));
}

#[test]
fn words_per_minute_has_no_figure_at_time_zero() {
    assert_eq!(words_per_minute(0, 0), None);
    assert_eq!(words_per_minute(12, 0), None);
    assert_eq!(SessionCounters::new().words_per_minute(0), None);
}

#[test]
fn the_live_figure_uses_the_clock() {
    let counters = SessionCounters::new();
    let started = std::time::Instant::now();
    while started.elapsed().as_millis() < 3 {
        std::hint::spin_loop();
    }
    let elapsed = counters.elapsed_millis();
    assert!(elapsed >= 3);
    assert!(elapsed < 10_000);
    assert_eq!(counters.live_words_per_minute(), Some(0));
}

#[test]
fn feedback_bands() {
    assert_eq!(feedback(0, 0), None);
    assert_eq!(feedback(3, 0), None);
    assert_eq!(feedback(0, 10), Some(Feedback::Perfect));
    assert_eq!(feedback(1, 1000), Some(Feedback::AlmostPerfect));
    assert_eq!(feedback(49, 1000), Some(Feedback::AlmostPerfect));
    assert_eq!(feedback(5, 100), Some(Feedback::Great));
    assert_eq!(feedback(19, 100), Some(Feedback::Great));
    assert_eq!(feedback(20, 100), Some(Feedback::Good));
    assert_eq!(feedback(39, 100), Some(Feedback::Good));
    assert_eq!(feedback(40, 100), Some(Feedback::Fair));
    assert_eq!(feedback(59, 100), Some(Feedback::Fair));
    assert_eq!(feedback(60, 100), Some(Feedback::Weak));
    assert_eq!(feedback(79, 100), Some(Feedback::Weak));
    assert_eq!(feedback(80, 100), Some(Feedback::Poor));
    assert_eq!(feedback(500, 100), Some(Feedback::Poor));
    assert_eq!(feedback(u32::MAX, u32::MAX), Some(Feedback::Poor));
}

#[test]
fn fresh_counters_are_at_zero() {
    let counters = SessionCounters::new();
    assert_eq!(counters.errors(), 0);
    assert_eq!(counters.typed_chars(), 0);
    assert_eq!(counters.typed_words(), 0);
    assert!(counters.can_record(Keystroke::Hit, KeyEvent::Char(' ')));
    assert!(counters.can_record(Keystroke::Miss, KeyEvent::Char('x')));
    assert!(counters.can_record(Keystroke::Cancelled, KeyEvent::Cancel));
    assert_eq!(counters.feedback(), None);
}

#[test]
fn the_word_counter_stops_at_its_limit() {
    let mut counters = SessionCounters::new();
    let space = KeyEvent::Char(' ');
    for _ in 0..u16::MAX {
        assert!(counters.can_record(Keystroke::Hit, space));
        counters.record(Keystroke::Hit, space);
    }
    assert_eq!(counters.typed_words(), u16::MAX);
    assert_eq!(counters.typed_chars(), 65_535);
    assert!(!counters.can_record(Keystroke::Hit, space));
    assert!(counters.can_record(Keystroke::Hit, KeyEvent::Char('a')));
    assert!(counters.can_record(Keystroke::Miss, space));
    assert!(counters.can_record(Keystroke::Ignored, space));
    counters.record(Keystroke::Hit, KeyEvent::Char('a'));
    counters.record(Keystroke::Miss, space);
    assert_eq!(counters.typed_words(), u16::MAX);
    assert_eq!(counters.typed_chars(), 65_536);
    assert_eq!(counters.errors(), 1);
}

#[test]
fn accuracy_in_hundredths_follows_the_formula() {
    assert_eq!(accuracy_hundredths(0, 0), None);
    assert_eq!(accuracy_hundredths(3, 0), None);
    assert_eq!(accuracy_hundredths(0, 4), Some(10_000));
    assert_eq!(accuracy_hundredths(1, 4), Some(7_500));
    assert_eq!(accuracy_hundredths(1, 1000), Some(9_990));
    assert_eq!(accuracy_hundredths(1, 3), Some(6_667));
    assert_eq!(accuracy_hundredths(2, 3), Some(3_334));
    assert_eq!(accuracy_hundredths(7, 7), Some(0));
    assert_eq!(accuracy_hundredths(u32::MAX, 1), Some(0));
    assert_eq!(accuracy_hundredths(1, u32::MAX), Some(10_000));
    assert_eq!(SessionCounters::new().accuracy_hundredths(), None);
}

#[test]
fn percent_is_hundredths_rounded_up() {
    for typed_chars in 1..40 {
        for errors in 0..50 {
            let fine = accuracy_hundredths(errors, typed_chars).unwrap();
            let coarse = accuracy(errors, typed_chars).unwrap();
            assert_eq!(coarse, (fine + 99) / 100);
        }
    }
}

#[test]
fn words_per_minute_in_hundredths_follows_the_formula() {
    assert_eq!(words_per_minute_hundredths(0, 0), None);
    assert_eq!(words_per_minute_hundredths(9, 0), None);
    assert_eq!(words_per_minute_hundredths(10, 60_000), Some(1_000));
    assert_eq!(words_per_minute_hundredths(1, 7_000), Some(857));
    assert_eq!(words_per_minute_hundredths(3, 1_500), Some(12_000));
    assert_eq!(words_per_minute_hundredths(u16::MAX, 1), Some(393_210_000_000));
    assert_eq!(SessionCounters::new().words_per_minute_hundredths(0), None);
    assert_eq!(SessionCounters::new().words_per_minute_hundredths(250), Some(0));
}

#[test]
fn counting_keeps_the_start_time() {
    let mut counters = SessionCounters::new();
    let started = *counters.start_time();
    while started.elapsed().as_millis() < 2 {
        std::hint::spin_loop();
    }
    counters.record(Keystroke::Hit, KeyEvent::Char(' '));
    counters.record(Keystroke::Miss, KeyEvent::Char('x'));
    counters.record(Keystroke::Cancelled, KeyEvent::Cancel);
    assert_eq!(*counters.start_time(), started);
    assert!(counters.elapsed_millis() >= 2);
    assert!(counters.live_words_per_minute_hundredths().is_some());
}
