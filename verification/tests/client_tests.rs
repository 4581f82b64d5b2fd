use termigame_pong::client::{prompt, ClientState, Phase, Request, Screen};
use termigame_pong::game::{Message, Question};

fn question(id: u32) -> Question {
    Question {
        id,
        text: "q".to_string(),
        options: ["a".to_string(), "b".to_string(), "c".to_string(), "d".to_string()],
        correct: 1,
    }
}

fn in_game() -> ClientState {
    let mut c = ClientState::new(5);
    c.on_message(Message::Question(question(0)));
    c
}

#[test]
fn empty_line_asks_nothing() {
    let mut c = ClientState::new(5);
    assert!(c.on_input("", "ann").is_none());
}

#[test]
fn lobby_r_means_ready_and_other_lines_are_chat() {
    let mut c = ClientState::new(5);
    assert!(matches!(c.on_input("r", "ann"), Some(Request::Ready)));
    assert!(matches!(c.on_input("R", "ann"), Some(Request::Ready)));
    match c.on_input("rr", "ann") {
        Some(Request::Chat { player, text }) => {
            assert_eq!(player, "ann");
            assert_eq!(text, "rr");
        }
        _ => panic!("expected chat"),
    }
}

#[test]
fn requests_travel_as_messages() {
    assert!(matches!(Request::Ready.to_message(), Message::QuestionRequest));
    assert!(matches!(Request::Answer(3).to_message(), Message::Answer(3)));
    match (Request::Chat { player: "p".to_string(), text: "t".to_string() }).to_message() {
        Message::Chat { player, text } => {
            assert_eq!(player, "p");
            assert_eq!(text, "t");
        }
        _ => panic!("expected chat"),
    }
}

#[test]
fn game_answers_number_one_to_four() {
    let mut c = in_game();
    assert_eq!(c.phase, Phase::Game);
    c.on_message(Message::TimerStart { seconds: 20 });
    assert_eq!(c.timer, Some(20));
    assert!(matches!(c.on_input("3", "ann"), Some(Request::Answer(2))));
    assert_eq!(c.timer, None);
    assert!(matches!(c.on_input("+1", "ann"), Some(Request::Answer(0))));
    assert!(matches!(c.on_input("004", "ann"), Some(Request::Answer(3))));
    assert!(c.on_input("0", "ann").is_none());
    assert!(c.on_input("5", "ann").is_none());
    assert!(c.on_input("18446744073709551615", "ann").is_none());
}

#[test]
fn game_non_numbers_are_chat() {
    let mut c = in_game();
    for line in ["-1", "+", "++2", "2 ", "hello", "٣", "99999999999999999999999"] {
        assert!(matches!(c.on_input(line, "ann"), Some(Request::Chat { .. })), "{:?}", line);
    }
}

#[test]
fn no_answer_without_waiting_question() {
    let mut c = ClientState::new(5);
    c.phase = Phase::Game;
    assert!(c.on_input("2", "ann").is_none());
}

#[test]
fn over_phase_asks_nothing() {
    let mut c = ClientState::new(5);
    c.phase = Phase::Over;
    assert!(c.on_input("hello", "ann").is_none());
}

#[test]
fn question_is_numbered_from_one() {
    let mut c = ClientState::new(5);
    let (screen, next) = c.on_message(Message::Question(question(2)));
    match screen {
        Screen::Question { question, number, total } => {
            assert_eq!(question.id, 2);
            assert_eq!(number, 3);
            assert_eq!(total, 5);
        }
        _ => panic!("expected the question"),
    }
    assert!(next.is_none());
    let (screen, _) = c.on_message(Message::Question(question(u32::MAX)));
    assert!(matches!(screen, Screen::Question { number: u32::MAX, .. }));
}

#[test]
fn verdict_requests_next_question_and_game_over_returns_to_lobby() {
    let mut c = in_game();
    assert!(c.current_question.is_some());
    let (screen, next) = c.on_message(Message::AnswerResult { correct: true, score: 4 });
    assert!(matches!(screen, Screen::Result { correct: true, score: 4 }));
    assert!(matches!(next, Some(Message::QuestionRequest)));
    assert!(c.current_question.is_none());
    assert_eq!(c.phase, Phase::Game);
    let (screen, next) = c.on_message(Message::GameOver { final_score: 4 });
    assert!(matches!(screen, Screen::GameOver { final_score: 4 }));
    assert!(next.is_none());
    assert_eq!(c.phase, Phase::Lobby);
    let (screen, next) = c.on_message(Message::NextQuestion);
    assert!(matches!(screen, Screen::Nothing));
    assert!(next.is_none());
}

#[test]
fn chat_is_shown() {
    let mut c = ClientState::new(5);
    match c.on_message(Message::Chat { player: "bob".to_string(), text: "salut".to_string() }).0 {
        Screen::Chat { player, text } => {
            assert_eq!(player, "bob");
            assert_eq!(text, "salut");
        }
        _ => panic!("expected chat"),
    }
}

#[test]
fn prompt_counts_down_and_stops_at_zero() {
    assert_eq!(prompt(Some((3, 20))), "\r[17s] Answer (1-4) or chat: ");
    assert_eq!(prompt(Some((30, 20))), "\r[0s] Answer (1-4) or chat: ");
    assert_eq!(prompt(None), "> ");
}
