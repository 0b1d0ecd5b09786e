use typing_race::db::Text;
use typing_race::ui::{Application, GameState};

#[test]
fn fresh_game_is_at_the_menu() {
    let app = Application::new();
    assert!(matches!(app.state, GameState::New));
    assert!(app.session.is_none());
    assert!(app.previous_session.is_none());
    assert_eq!(app.score, 0);
    assert_eq!(app.playcount, 0);
}

#[test]
fn start_game_opens_a_fresh_session() {
    let mut app = Application::new();
    app.start_game(Text { source: "Random".to_string(), text: "go".to_string() });
    assert!(matches!(app.state, GameState::Running));
    assert_eq!(app.playcount, 1);
    let sess = app.session.as_ref().unwrap();
    assert_eq!(sess.line, "go");
    assert_eq!(sess.source, "Random");
    assert_eq!(sess.input, "");
    assert_eq!(sess.start, None);
    assert_eq!(sess.end, None);
}

#[test]
fn complete_banks_the_score_and_retires_the_session() {
    let mut app = Application::new();
    app.start_game(Text { source: "Test".to_string(), text: "go".to_string() });
    {
        let sess = app.session.as_mut().unwrap();
        assert!(sess.insert_char_at('g', 0));
        assert!(sess.insert_char_at('o', 100_000));
        assert!(sess.is_completed());
    }
    app.complete();
    assert!(matches!(app.state, GameState::Complete));
    assert!(app.session.is_none());
    // one word over 100 seconds: 1 * 100_000 / 50
    assert_eq!(app.score, 2000);
    let prev = app.previous_session.as_ref().unwrap();
    assert_eq!(prev.input, "go");
    assert_eq!(prev.end, Some(100_000));
    assert_eq!(app.playcount, 1);
}

#[test]
fn empty_target_round_completes_with_zero_score() {
    let mut app = Application::new();
    app.start_game(Text { source: "Test".to_string(), text: "".to_string() });
    assert!(app.session.as_ref().unwrap().is_completed());
    app.complete();
    assert!(matches!(app.state, GameState::Complete));
    assert_eq!(app.score, 0);
    assert!(app.previous_session.is_some());
}

#[test]
fn scores_accumulate_over_rounds() {
    let mut app = Application::new();
    for round in 1..=3u64 {
        app.start_game(Text { source: "Test".to_string(), text: "hi".to_string() });
        {
            let sess = app.session.as_mut().unwrap();
            assert!(sess.insert_char_at('h', 0));
            assert!(sess.insert_char_at('i', 50_000));
        }
        app.complete();
        assert_eq!(app.score, 1000 * round);
        assert_eq!(app.playcount, round);
    }
}
