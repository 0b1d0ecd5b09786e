use typing_race::db::Text;
use typing_race::race::Race;

fn session(target: &str) -> Race {
    Race::with_line(Text { source: "Test".to_string(), text: target.to_string() })
}

#[test]
fn scenario_go_accept_reject_complete() {
    let mut r = session("go");
    assert!(r.insert_char_at('g', 10));
    assert_eq!(r.start, Some(10));
    assert_eq!(r.input, "g");
    assert!(!r.is_completed());

    assert!(!r.insert_char_at('x', 20));
    assert_eq!(r.input, "g");
    assert_eq!(r.start, Some(10));
    assert_eq!(r.end, None);

    assert!(r.insert_char_at('o', 30));
    assert_eq!(r.input, "go");
    assert!(r.is_completed());
    assert_eq!(r.end, Some(30));
}

#[test]
fn zero_elapsed_gives_zero_rate_and_score() {
    let mut r = session("hi there");
    for c in "hi there".chars() {
        assert!(r.insert_char_at(c, 1000));
    }
    assert!(r.is_completed());
    assert_eq!(r.words_per_minute_millis_at(1000), 0);
    assert_eq!(r.score_at(1000), 0);
    assert_eq!(r.score(), 0);
    assert_eq!(r.words_per_minute_millis(), 0);
}

#[test]
fn completed_round_has_a_frozen_rate() {
    let mut r = session("one two three");
    for (i, c) in "one two three".chars().enumerate() {
        let now = if i == 0 { 1000 } else { 21000 };
        assert!(r.insert_char_at(c, now));
    }
    // three words over twenty seconds, whatever the clock says now
    assert_eq!(r.words_per_minute_millis(), 60000);
    assert_eq!(r.words_per_minute_millis(), 60000);
}

#[test]
fn empty_target_is_complete_and_rejects() {
    let mut r = session("");
    assert!(r.is_completed());
    assert!(!r.insert_char_at('x', 5));
    assert!(!r.insert_char('x'));
    assert_eq!(r.input, "");
    assert_eq!(r.start, None);
    assert_eq!(r.end, None);
    assert_eq!(r.score(), 0);
}

#[test]
fn running_rate_is_evaluated_live() {
    let mut r = session("ab cd");
    for c in "ab c".chars() {
        assert!(r.insert_char_at(c, 1000));
    }
    assert!(!r.is_completed());
    let early = r.words_per_minute_millis_at(2000);
    let late = r.words_per_minute_millis_at(3000);
    assert_eq!(early, 2 * 1000);
    assert_eq!(late, 2 * 2000);
    assert!(early < late);
}

#[test]
fn wrong_character_any_number_of_times_changes_nothing() {
    let mut r = session("go");
    assert!(r.insert_char_at('g', 10));
    for _ in 0..100 {
        assert!(!r.insert_char_at('q', 77));
        assert!(!r.insert_char('q'));
    }
    assert_eq!(r.input, "g");
    assert_eq!(r.start, Some(10));
    assert_eq!(r.end, None);
}

#[test]
fn no_mutation_past_completion() {
    let mut r = session("go");
    assert!(r.insert_char_at('g', 10));
    assert!(r.insert_char_at('o', 20));
    assert!(r.is_completed());
    for c in ['g', 'o', ' ', 'q'] {
        assert!(!r.insert_char_at(c, 99));
    }
    assert_eq!(r.input, "go");
    assert_eq!(r.start, Some(10));
    assert_eq!(r.end, Some(20));
}

#[test]
fn start_is_set_exactly_once() {
    let mut r = session("abc");
    assert_eq!(r.start, None);
    assert!(r.insert_char_at('a', 41));
    assert_eq!(r.start, Some(41));
    assert!(r.insert_char_at('b', 52));
    assert!(r.insert_char_at('c', 63));
    assert_eq!(r.start, Some(41));
}

#[test]
fn regressing_clock_clamps_to_zero_elapsed() {
    let mut r = session("ab");
    assert!(r.insert_char_at('a', 100));
    assert!(r.insert_char_at('b', 50));
    assert_eq!(r.end, Some(100));
    assert_eq!(r.elapsed_millis_at(0), 0);
    assert_eq!(r.score_at(0), 0);
}

#[test]
fn score_is_word_count_times_elapsed_millis_over_fifty() {
    let mut r = session("one two three");
    let chars: Vec<char> = "one two three".chars().collect();
    for (i, c) in chars.iter().enumerate() {
        let now = if i == 0 { 1000 } else { 21000 };
        assert!(r.insert_char_at(*c, now));
    }
    assert!(r.is_completed());
    assert_eq!(r.elapsed_millis_at(999_999), 20000);
    assert_eq!(r.words_per_minute_millis_at(0), 3 * 20000);
    assert_eq!(r.score_at(0), 60000 / 50);
    assert_eq!(r.score(), 1200);
}

#[test]
fn unstarted_session_scores_zero() {
    let r = session("anything");
    assert_eq!(r.words_per_minute_millis(), 0);
    assert_eq!(r.score(), 0);
    assert_eq!(r.elapsed_millis_at(12345), 0);
}

#[test]
fn is_next_matches_only_the_expected_character() {
    let mut r = session("ab");
    assert!(r.is_next('a'));
    assert!(!r.is_next('b'));
    assert!(r.insert_char_at('a', 1));
    assert!(r.is_next('b'));
    assert!(!r.is_next('a'));
    assert!(r.insert_char_at('b', 2));
    assert!(!r.is_next('a'));
    assert!(!r.is_next('b'));
}
