use termigame_pong::game::{GameState, Message, Question};
use termigame_pong::input::{disable_raw_mode, enable_raw_mode, InputHandler};
use termigame_pong::questions::get_questions;

#[test]
fn new_game_state_starts_empty() {
    let s = GameState::new();
    assert_eq!(s.current_question_id, 0);
    assert_eq!(s.player1_score, 0);
    assert_eq!(s.player2_score, 0);
    assert!(!s.game_over);
}

#[test]
fn update_leaves_state_unchanged() {
    let mut s = GameState { current_question_id: 3, player1_score: 7, player2_score: 2, game_over: true };
    s.update(80, 24);
    assert_eq!(s.current_question_id, 3);
    assert_eq!(s.player1_score, 7);
    assert_eq!(s.player2_score, 2);
    assert!(s.game_over);
}

#[test]
fn question_bank_has_five_questions_in_order() {
    let qs = get_questions();
    assert_eq!(qs.len(), 5);
    for (i, q) in qs.iter().enumerate() {
        assert_eq!(q.id as usize, i);
    }
    assert_eq!(qs[0].text, "Quel est le plus grand océan ?");
    assert_eq!(qs[0].options[1], "Océan Pacifique");
    assert_eq!(qs[0].correct, 1);
    assert_eq!(qs[1].options, ["1965", "1969", "1971", "1975"]);
    assert_eq!(qs[1].correct, 1);
    assert_eq!(qs[2].options[2], "Mont Everest");
    assert_eq!(qs[2].correct, 2);
    assert_eq!(qs[3].text, "Quelle est la capitale de la France ?");
    assert_eq!(qs[3].options[2], "Paris");
    assert_eq!(qs[4].options, ["5", "6", "7", "8"]);
    assert_eq!(qs[4].correct, 2);
}

#[test]
fn duplicate_copies_every_field() {
    let q = Question {
        id: 9,
        text: "t".to_string(),
        options: ["a".to_string(), "b".to_string(), "c".to_string(), "d".to_string()],
        correct: 3,
    };
    let d = q.duplicate();
    assert_eq!(d.id, 9);
    assert_eq!(d.text, "t");
    assert_eq!(d.options, ["a", "b", "c", "d"]);
    assert_eq!(d.correct, 3);
}

#[test]
fn key_of_maps_byte_to_character() {
    assert_eq!(InputHandler::key_of(b'3'), '3');
    assert_eq!(InputHandler::key_of(0xe9), 'é');
}

#[test]
fn raw_mode_switches_do_nothing() {
    enable_raw_mode();
    disable_raw_mode();
    let m = Message::Answer(2);
    assert!(matches!(m, Message::Answer(2)));
}
