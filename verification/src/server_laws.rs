use vstd::prelude::*;

use crate::game::MessageView;
use crate::server::{
    all_answered, answer_overflows, answered_player, has_player, player_index, register, score_of, server_inv, step,
    PeerAddr, ServerView,
};

verus! {

/// Connecting the sender keeps the state well formed, keeps every player
/// already connected where it was, and leaves the sender connected exactly once.
proof fn lemma_register(s: ServerView, a: PeerAddr)
    requires
        server_inv(s),
    ensures
        server_inv(register(s, a)),
        has_player(register(s, a).players, a),
        ({
            let r = register(s, a);
            let i = player_index(r.players, a);
            &&& 0 <= i < r.players.len()
            &&& r.players[i].addr == a
            &&& r.questions == s.questions
            &&& r.current == s.current
            &&& s.players.len() <= r.players.len() <= s.players.len() + 1
            &&& r.players.subrange(0, s.players.len() as int) == s.players
            &&& (has_player(s.players, a) ==> r == s)
            &&& (!has_player(s.players, a) ==> i == s.players.len() && r.players[i].score == 0
                && !r.players[i].answered)
        }),
{
    let r = register(s, a);
    if !has_player(s.players, a) {
        let n = s.players.len() as int;
        assert(r.players[n].addr == a);
        assert forall|x: int, y: int| 0 <= x < y < r.players.len() implies
            r.players[x].addr != r.players[y].addr by {
            if y == n {
                assert(s.players[x].addr != a);
            } else {
                assert(s.players[x].addr != s.players[y].addr);
            }
        }
        let c = player_index(r.players, a);
        assert(0 <= c < r.players.len() && r.players[c].addr == a);
        if c < n {
            assert(s.players[c].addr == a);
        }
        assert(r.players.subrange(0, n) =~= s.players);
    } else {
        assert(r.players.subrange(0, s.players.len() as int) =~= s.players);
    }
    let i = player_index(r.players, a);
    assert(0 <= i < r.players.len() && r.players[i].addr == a);
}

/// Every datagram leaves the server state well formed: no player is known
/// twice and the question index stays within the bank.
pub proof fn law_step_keeps_invariant(s: ServerView, a: PeerAddr, msg: Option<MessageView>)
    requires
        server_inv(s),
    ensures
        server_inv(step(s, a, msg).0),
        step(s, a, msg).0.questions == s.questions,
{
    lemma_register(s, a);
    let r = register(s, a);
    let i = player_index(r.players, a);
    let t = step(s, a, msg).0;
    assert forall|x: int, y: int| 0 <= x < y < t.players.len() implies
        t.players[x].addr != t.players[y].addr by {
        assert(t.players[x].addr == r.players[x].addr);
        assert(t.players[y].addr == r.players[y].addr);
    }
}

/// The quiz moves forward one question at a time: a datagram leaves the
/// question index as it was or advances it by one, and only an answer to a
/// question in play advances it.
pub proof fn law_progress_one_question_at_a_time(s: ServerView, a: PeerAddr, msg: Option<MessageView>)
    requires
        server_inv(s),
    ensures
        step(s, a, msg).0.current == s.current || step(s, a, msg).0.current == s.current + 1,
        step(s, a, msg).0.current == s.current + 1 ==> (s.current < s.questions.len()
            && msg matches Some(MessageView::Answer(_))),
{
    lemma_register(s, a);
}

/// Players are never disconnected: those already connected stay in the same
/// place with the same address, and a datagram connects at most one new
/// player, its sender, at the end.
pub proof fn law_players_are_kept(s: ServerView, a: PeerAddr, msg: Option<MessageView>)
    requires
        server_inv(s),
    ensures
        ({
            let t = step(s, a, msg).0;
            &&& forall|j: int| 0 <= j < s.players.len() ==> #[trigger] t.players[j].addr == s.players[j].addr
            &&& has_player(s.players, a) ==> t.players.len() == s.players.len()
            &&& !has_player(s.players, a) ==> t.players.len() == s.players.len() + 1
                && t.players[s.players.len() as int].addr == a
        }),
{
    lemma_register(s, a);
    let r = register(s, a);
    let t = step(s, a, msg).0;
    assert forall|j: int| 0 <= j < s.players.len() implies #[trigger] t.players[j].addr == s.players[j].addr by {
        assert(t.players[j].addr == r.players[j].addr);
        assert(r.players.subrange(0, s.players.len() as int)[j] == r.players[j]);
    }
    if !has_player(s.players, a) {
        assert(t.players[s.players.len() as int].addr == r.players[s.players.len() as int].addr);
    }
}

/// Points are never taken away: after a datagram every player keeps its
/// score, except the sender, whose score may grow by exactly one; a player
/// that joins with the datagram has at most one point.
pub proof fn law_scores_never_decrease(s: ServerView, a: PeerAddr, msg: Option<MessageView>)
    requires
        server_inv(s),
        !answer_overflows(s, a, msg),
    ensures
        ({
            let t = step(s, a, msg).0;
            &&& forall|j: int| 0 <= j < s.players.len() ==> {
                ||| #[trigger] t.players[j].score == s.players[j].score
                ||| s.players[j].addr == a && t.players[j].score == s.players[j].score + 1
            }
            &&& !has_player(s.players, a) ==> t.players[s.players.len() as int].score <= 1
        }),
{
    lemma_register(s, a);
    let r = register(s, a);
    let i = player_index(r.players, a);
    let t = step(s, a, msg).0;
    assert forall|j: int| 0 <= j < s.players.len() implies {
        ||| #[trigger] t.players[j].score == s.players[j].score
        ||| s.players[j].addr == a && t.players[j].score == s.players[j].score + 1
    } by {
        assert(r.players.subrange(0, s.players.len() as int)[j] == r.players[j]);
        if j != i {
            assert(t.players[j].score == r.players[j].score);
        } else if has_player(s.players, a) {
            assert(r == s);
        }
    }
}

/// A point is scored exactly for a right answer to the question in play:
/// the sender's score grows by one when the datagram answers the current
/// question with its right option, and stays as it was otherwise.
pub proof fn law_point_for_right_answer(s: ServerView, a: PeerAddr, msg: Option<MessageView>)
    requires
        server_inv(s),
        !answer_overflows(s, a, msg),
    ensures
        ({
            let t = step(s, a, msg).0;
            let before = score_of(register(s, a).players, a);
            let right = s.current < s.questions.len() && (msg matches Some(MessageView::Answer(c))
                && c == s.questions[s.current as int].correct);
            &&& right ==> score_of(t.players, a) == before + 1
            &&& !right ==> score_of(t.players, a) == before
        }),
{
    lemma_register(s, a);
    law_step_keeps_invariant(s, a, msg);
    let r = register(s, a);
    let i = player_index(r.players, a);
    let t = step(s, a, msg).0;
    assert(t.players[i].addr == a);
    let c = player_index(t.players, a);
    assert(0 <= c < t.players.len() && t.players[c].addr == a);
    if c < i {
        assert(t.players[c].addr != t.players[i].addr);
    } else if i < c {
        assert(t.players[i].addr != t.players[c].addr);
    }
    if has_player(s.players, a) {
        assert(r == s);
    }
}

/// The score reported to a player after an answer is the score that the
/// server now keeps for it.
pub proof fn law_reported_score_is_kept_score(s: ServerView, a: PeerAddr, msg: Option<MessageView>)
    requires
        server_inv(s),
    ensures
        step(s, a, msg).1 matches Some(MessageView::AnswerResult { score, .. }) ==> score == score_of(
            step(s, a, msg).0.players,
            a,
        ),
{
    lemma_register(s, a);
    law_step_keeps_invariant(s, a, msg);
    let r = register(s, a);
    let i = player_index(r.players, a);
    let t = step(s, a, msg).0;
    if step(s, a, msg).1 is Some {
        assert(t.players[i].addr == a);
        let c = player_index(t.players, a);
        assert(0 <= c < t.players.len() && t.players[c].addr == a);
        if c < i {
            assert(t.players[c].addr != t.players[i].addr);
        } else if i < c {
            assert(t.players[i].addr != t.players[c].addr);
        }
    }
}

/// A round closes exactly when the answer just counted was the last one
/// missing, and the next round starts with nobody having answered; while the
/// round stays open after an answer, some player has still to answer.
pub proof fn law_round_closes_when_all_answered(s: ServerView, a: PeerAddr, msg: Option<MessageView>)
    requires
        server_inv(s),
    ensures
        ({
            let t = step(s, a, msg).0;
            &&& t.current == s.current + 1 ==> forall|j: int| 0 <= j < t.players.len() ==> !(#[trigger] t.players[j].answered)
            &&& (t.current == s.current && s.current < s.questions.len() && msg matches Some(MessageView::Answer(_)))
                ==> !all_answered(t.players)
        }),
{
    lemma_register(s, a);
}

/// While questions remain, a question request is answered with the question
/// in play.
pub proof fn law_request_gets_current_question(s: ServerView, a: PeerAddr)
    requires
        server_inv(s),
        s.current < s.questions.len(),
    ensures
        step(s, a, Some(MessageView::QuestionRequest)).1 == Some(MessageView::Question(s.questions[s.current as int])),
        step(s, a, Some(MessageView::QuestionRequest)).0.current == s.current,
{
    lemma_register(s, a);
}

/// Once every question has been played the game is over for good: the index
/// stays at the end, the players connected keep their scores and flags, an
/// answer gets no reply, and a question request is answered with the sender's
/// final score.
pub proof fn law_game_over_is_final(s: ServerView, a: PeerAddr, msg: Option<MessageView>)
    requires
        server_inv(s),
        s.current == s.questions.len(),
    ensures
        step(s, a, msg).0 == register(s, a),
        msg matches Some(MessageView::QuestionRequest) ==> step(s, a, msg).1 == Some(
            MessageView::GameOver { final_score: score_of(register(s, a).players, a) },
        ),
        !(msg matches Some(MessageView::QuestionRequest)) ==> step(s, a, msg).1 is None,
{
    lemma_register(s, a);
}

/// A datagram that does not decode to a message only connects its sender:
/// no score, flag or question changes, and nothing is replied.
pub proof fn law_undecodable_only_connects(s: ServerView, a: PeerAddr)
    ensures
        step(s, a, None) == (register(s, a), None::<MessageView>),
{
}

/// The verdict on an answer to the question in play says "right" exactly
/// when the chosen option is that question's right option, and the score
/// reported with it is the sender's score after counting the answer.
pub proof fn law_verdict_is_right_answer(s: ServerView, a: PeerAddr, c: usize)
    requires
        server_inv(s),
        s.current < s.questions.len(),
    ensures
        step(s, a, Some(MessageView::Answer(c))).1 == Some(
            MessageView::AnswerResult {
                correct: c == s.questions[s.current as int].correct,
                score: score_of(step(s, a, Some(MessageView::Answer(c))).0.players, a),
            },
        ),
{
    law_reported_score_is_kept_score(s, a, Some(MessageView::Answer(c)));
}

/// A question request concerns its sender alone: every other player keeps
/// its score and answer flag, the question in play stays, and while
/// questions remain the sender is marked as not having answered yet.
pub proof fn law_request_touches_only_sender(s: ServerView, a: PeerAddr)
    requires
        server_inv(s),
    ensures
        ({
            let t = step(s, a, Some(MessageView::QuestionRequest)).0;
            &&& t.current == s.current
            &&& forall|j: int| 0 <= j < s.players.len() && s.players[j].addr != a ==> #[trigger] t.players[j]
                == s.players[j]
            &&& s.current < s.questions.len() ==> !t.players[player_index(t.players, a)].answered
        }),
{
    lemma_register(s, a);
    law_step_keeps_invariant(s, a, Some(MessageView::QuestionRequest));
    let r = register(s, a);
    let i = player_index(r.players, a);
    let t = step(s, a, Some(MessageView::QuestionRequest)).0;
    assert forall|j: int| 0 <= j < s.players.len() && s.players[j].addr != a implies #[trigger] t.players[j]
        == s.players[j] by {
        assert(r.players.subrange(0, s.players.len() as int)[j] == r.players[j]);
        assert(j != i);
    }
    if s.current < s.questions.len() {
        assert(t.players[i].addr == a);
        let k = player_index(t.players, a);
        assert(0 <= k < t.players.len() && t.players[k].addr == a);
        if k < i {
            assert(t.players[k].addr != t.players[i].addr);
        } else if i < k {
            assert(t.players[i].addr != t.players[k].addr);
        }
    }
}

/// An answer concerns its sender alone: every other player keeps its score,
/// and keeps its answer flag unless the answer closes the round.
pub proof fn law_answer_touches_only_sender(s: ServerView, a: PeerAddr, c: usize)
    requires
        server_inv(s),
    ensures
        ({
            let t = step(s, a, Some(MessageView::Answer(c))).0;
            forall|j: int| 0 <= j < s.players.len() && s.players[j].addr != a ==> {
                &&& #[trigger] t.players[j].score == s.players[j].score
                &&& t.current == s.current ==> t.players[j].answered == s.players[j].answered
            }
        }),
{
    lemma_register(s, a);
    let r = register(s, a);
    let i = player_index(r.players, a);
    let t = step(s, a, Some(MessageView::Answer(c))).0;
    assert forall|j: int| 0 <= j < s.players.len() && s.players[j].addr != a implies {
        &&& #[trigger] t.players[j].score == s.players[j].score
        &&& t.current == s.current ==> t.players[j].answered == s.players[j].answered
    } by {
        assert(r.players.subrange(0, s.players.len() as int)[j] == r.players[j]);
        assert(j != i);
    }
}

/// An answer to a question in play closes the round exactly when every
/// other connected player has already answered it.
pub proof fn law_round_closes_iff_others_answered(s: ServerView, a: PeerAddr, c: usize)
    requires
        server_inv(s),
        s.current < s.questions.len(),
    ensures
        (step(s, a, Some(MessageView::Answer(c))).0.current == s.current + 1) <==> (forall|j: int|
            0 <= j < s.players.len() && s.players[j].addr != a ==> #[trigger] s.players[j].answered),
{
    lemma_register(s, a);
    let r = register(s, a);
    let i = player_index(r.players, a);
    let p = r.players[i];
    let right = c == s.questions[s.current as int].correct;
    let ps = r.players.update(i, answered_player(p, right));
    if forall|j: int| 0 <= j < s.players.len() && s.players[j].addr != a ==> #[trigger] s.players[j].answered {
        assert forall|j: int| 0 <= j < ps.len() implies #[trigger] ps[j].answered by {
            if j != i {
                assert(r.players.subrange(0, s.players.len() as int)[j] == r.players[j]);
                assert(j < s.players.len());
                assert(s.players[j].addr != a);
            }
        }
    } else {
        let j = choose|j: int| 0 <= j < s.players.len() && s.players[j].addr != a && !s.players[j].answered;
        assert(r.players.subrange(0, s.players.len() as int)[j] == r.players[j]);
        assert(j != i);
        assert(!ps[j].answered);
    }
}

} // verus!
