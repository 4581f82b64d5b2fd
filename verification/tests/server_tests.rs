use termigame_pong::game::Message;
use termigame_pong::questions::get_questions;
use termigame_pong::server::{PeerAddr, QuizServer};

fn addr(port: u16) -> PeerAddr {
    PeerAddr { v6: false, ip: 0x7f00_0001, port, flowinfo: 0, scope_id: 0 }
}

fn answer(s: &mut QuizServer, from: PeerAddr, c: usize) -> (bool, u32, bool) {
    let out = s.handle(from, Some(Message::Answer(c)));
    match out.reply {
        Some(Message::AnswerResult { correct, score }) => (correct, score, out.round_closed),
        _ => panic!("expected a verdict"),
    }
}

#[test]
fn first_datagram_connects_the_sender() {
    let mut s = QuizServer::new(get_questions());
    let out = s.handle(addr(1), None);
    assert!(out.joined);
    assert!(out.reply.is_none());
    assert_eq!(s.players().len(), 1);
    assert_eq!(s.players()[0].score, 0);
    let again = s.handle(addr(1), None);
    assert!(!again.joined);
    assert_eq!(s.players().len(), 1);
}

#[test]
fn question_request_gets_current_question() {
    let mut s = QuizServer::new(get_questions());
    let out = s.handle(addr(1), Some(Message::QuestionRequest));
    match out.reply {
        Some(Message::Question(q)) => {
            assert_eq!(q.id, 0);
            assert_eq!(q.text, "Quel est le plus grand océan ?");
        }
        _ => panic!("expected the first question"),
    }
    assert_eq!(s.current_question(), 0);
}

#[test]
fn right_answer_scores_a_point_and_wrong_one_does_not() {
    let mut s = QuizServer::new(get_questions());
    let a = addr(1);
    let b = addr(2);
    s.handle(a, Some(Message::QuestionRequest));
    s.handle(b, Some(Message::QuestionRequest));
    assert_eq!(answer(&mut s, a, 1), (true, 1, false));
    assert_eq!(s.current_question(), 0);
    assert_eq!(answer(&mut s, b, 0), (false, 0, true));
    assert_eq!(s.current_question(), 1);
    assert!(s.players().iter().all(|p| !p.answered));
}

#[test]
fn round_waits_for_every_player() {
    let mut s = QuizServer::new(get_questions());
    let a = addr(1);
    let b = addr(2);
    s.handle(a, None);
    s.handle(b, None);
    let (_, _, closed) = answer(&mut s, a, 1);
    assert!(!closed);
    let (_, _, closed_again) = answer(&mut s, a, 1);
    assert!(!closed_again);
    assert_eq!(s.players()[0].score, 2);
    let (_, _, closed_by_b) = answer(&mut s, b, 1);
    assert!(closed_by_b);
}

#[test]
fn request_clears_the_senders_answer_flag() {
    let mut s = QuizServer::new(get_questions());
    let a = addr(1);
    let b = addr(2);
    s.handle(b, None);
    answer(&mut s, a, 3);
    assert!(s.players()[1].answered);
    s.handle(a, Some(Message::QuestionRequest));
    assert!(!s.players()[1].answered);
}

#[test]
fn full_game_ends_with_final_score() {
    let mut s = QuizServer::new(get_questions());
    let a = addr(7);
    let right = [1usize, 1, 2, 2, 2];
    for (i, c) in right.iter().enumerate() {
        let (ok, score, closed) = answer(&mut s, a, *c);
        assert!(ok);
        assert_eq!(score, i as u32 + 1);
        assert!(closed);
    }
    assert_eq!(s.current_question(), s.total_questions());
    let out = s.handle(a, Some(Message::QuestionRequest));
    assert!(matches!(out.reply, Some(Message::GameOver { final_score: 5 })));
    let late = s.handle(a, Some(Message::Answer(1)));
    assert!(late.reply.is_none());
    assert_eq!(s.players()[0].score, 5);
}

#[test]
fn other_messages_get_no_reply() {
    let mut s = QuizServer::new(get_questions());
    let out = s.handle(addr(1), Some(Message::NextQuestion));
    assert!(out.reply.is_none());
    let chat = s.handle(addr(1), Some(Message::Chat { player: "p".to_string(), text: "hi".to_string() }));
    assert!(chat.reply.is_none());
    assert_eq!(s.current_question(), 0);
}

#[test]
fn overflow_check_only_flags_right_answers() {
    let s = QuizServer::new(get_questions());
    assert!(!s.would_overflow(addr(1), &Some(Message::Answer(1))));
    assert!(!s.would_overflow(addr(1), &None));
}

#[test]
fn ipv4_and_ipv6_senders_are_different_players() {
    let mut s = QuizServer::new(get_questions());
    s.handle(PeerAddr { v6: false, ip: 1, port: 5, flowinfo: 0, scope_id: 0 }, None);
    s.handle(PeerAddr { v6: true, ip: 1, port: 5, flowinfo: 0, scope_id: 0 }, None);
    assert_eq!(s.players().len(), 2);
}
