use vstd::prelude::*;

use crate::game::{Message, MessageView, Question, QuestionView};

verus! {

/// A datagram's sender, held as plain values: the address family, the IP
/// address as an integer (an IPv4 address in the low 32 bits), the port, and
/// for IPv6 the flow information and scope identifier.
#[derive(Clone, Copy, Debug, PartialEq, Eq, Structural)]
pub struct PeerAddr {
    pub v6: bool,
    pub ip: u128,
    pub port: u16,
    pub flowinfo: u32,
    pub scope_id: u32,
}

/// A connected player: where it sends from, its points, and whether it has
/// answered the question of the current round.
#[derive(Clone, Copy, Debug, PartialEq, Eq, Structural)]
pub struct Player {
    pub addr: PeerAddr,
    pub score: u32,
    pub answered: bool,
}

/// What the server decided on one datagram.
pub struct Outcome {
    /// The message to send back to the sender, if any.
    pub reply: Option<Message>,
    /// The sender was not connected before this datagram.
    pub joined: bool,
    /// Every player had answered, so the server moved on to the next question.
    pub round_closed: bool,
}

/// The server's bookkeeping: the question bank, the players in the order in
/// which they connected, and the index of the question being played.
pub struct QuizServer {
    questions: Vec<Question>,
    players: Vec<Player>,
    current: usize,
}

/// The mathematical value of a [`QuizServer`].
pub struct ServerView {
    pub questions: Seq<QuestionView>,
    pub players: Seq<Player>,
    pub current: nat,
}

/// No address occurs twice among the players.
pub open spec fn distinct_addrs(ps: Seq<Player>) -> bool {
    forall|i: int, j: int| 0 <= i < j < ps.len() ==> ps[i].addr != ps[j].addr
}

/// The server state is well formed: each player is known once, and the
/// question index never passes the end of the bank.
pub open spec fn server_inv(s: ServerView) -> bool {
    &&& distinct_addrs(s.players)
    &&& s.current <= s.questions.len()
}

pub open spec fn has_player(ps: Seq<Player>, a: PeerAddr) -> bool {
    exists|i: int| 0 <= i < ps.len() && ps[i].addr == a
}

/// The position of the player that sends from `a` (meaningful when it is connected).
pub open spec fn player_index(ps: Seq<Player>, a: PeerAddr) -> int {
    choose|i: int| 0 <= i < ps.len() && ps[i].addr == a
}

/// The score of the player that sends from `a`.
pub open spec fn score_of(ps: Seq<Player>, a: PeerAddr) -> u32 {
    ps[player_index(ps, a)].score
}

/// A sender is connected on its first datagram, with no points and no answer.
pub open spec fn register(s: ServerView, a: PeerAddr) -> ServerView {
    if has_player(s.players, a) {
        s
    } else {
        ServerView {
            questions: s.questions,
            players: s.players.push(Player { addr: a, score: 0, answered: false }),
            current: s.current,
        }
    }
}

pub open spec fn all_answered(ps: Seq<Player>) -> bool {
    forall|i: int| 0 <= i < ps.len() ==> #[trigger] ps[i].answered
}

pub open spec fn unanswered(p: Player) -> Player {
    Player { addr: p.addr, score: p.score, answered: false }
}

/// Every player's answer flag cleared, for a new round.
pub open spec fn clear_answers(ps: Seq<Player>) -> Seq<Player> {
    ps.map_values(|p: Player| unanswered(p))
}

/// A player after answering: one more point when the answer is right.
pub open spec fn answered_player(p: Player, right: bool) -> Player {
    Player { addr: p.addr, score: if right { (p.score + 1) as u32 } else { p.score }, answered: true }
}

pub open spec fn opt_message_view(m: Option<Message>) -> Option<MessageView> {
    match m {
        Some(m) => Some(m@),
        None => None,
    }
}

/// What the server does on a datagram from `a` that decoded to `msg` (`None`
/// when it did not decode): the state after it and the reply to the sender.
///
/// The sender is connected first. A question request is answered with the
/// current question, clearing the sender's answer flag, or once the bank is
/// exhausted with the sender's final score. An answer to the current question
/// scores a point when it names the right option and is answered with the
/// verdict and the sender's score; when every player has then answered, the
/// next question becomes current and all answer flags are cleared. Anything
/// else, and an answer after the last question, gets no reply.
pub open spec fn step(s: ServerView, a: PeerAddr, msg: Option<MessageView>) -> (ServerView, Option<MessageView>) {
    let r = register(s, a);
    let i = player_index(r.players, a);
    let p = r.players[i];
    match msg {
        Some(MessageView::QuestionRequest) => {
            if r.current < r.questions.len() {
                (
                    ServerView {
                        questions: r.questions,
                        players: r.players.update(i, unanswered(p)),
                        current: r.current,
                    },
                    Some(MessageView::Question(r.questions[r.current as int])),
                )
            } else {
                (r, Some(MessageView::GameOver { final_score: p.score }))
            }
        },
        Some(MessageView::Answer(c)) => {
            if r.current < r.questions.len() {
                let right = c == r.questions[r.current as int].correct;
                let np = answered_player(p, right);
                let ps = r.players.update(i, np);
                let reply = Some(MessageView::AnswerResult { correct: right, score: np.score });
                if all_answered(ps) {
                    (
                        ServerView { questions: r.questions, players: clear_answers(ps), current: r.current + 1 },
                        reply,
                    )
                } else {
                    (ServerView { questions: r.questions, players: ps, current: r.current }, reply)
                }
            } else {
                (r, None)
            }
        },
        _ => (r, None),
    }
}

/// The datagram is a right answer to the current question from a player
/// whose score is already the largest a `u32` holds: counting it would overflow.
pub open spec fn answer_overflows(s: ServerView, a: PeerAddr, msg: Option<MessageView>) -> bool {
    &&& msg matches Some(MessageView::Answer(c))
    &&& s.current < s.questions.len()
    &&& c == s.questions[s.current as int].correct
    &&& has_player(s.players, a)
    &&& s.players[player_index(s.players, a)].score == u32::MAX
}

/// Replacing a player by one with the same address keeps the addresses distinct.
proof fn lemma_update_keeps_distinct(ps: Seq<Player>, i: int, p: Player)
    requires
        distinct_addrs(ps),
        0 <= i < ps.len(),
        p.addr == ps[i].addr,
    ensures
        distinct_addrs(ps.update(i, p)),
{
    assert forall|x: int, y: int| 0 <= x < y < ps.len() implies
        ps.update(i, p)[x].addr != ps.update(i, p)[y].addr by {
        assert(ps.update(i, p)[x].addr == ps[x].addr);
        assert(ps.update(i, p)[y].addr == ps[y].addr);
    }
}

impl View for QuizServer {
    type V = ServerView;

    closed spec fn view(&self) -> ServerView {
        ServerView {
            questions: self.questions@.map_values(|q: Question| q@),
            players: self.players@,
            current: self.current as nat,
        }
    }
}

/// The position of the player that sends from `a`, if one does.
fn find_player(ps: &Vec<Player>, a: PeerAddr) -> (r: Option<usize>)
    requires
        distinct_addrs(ps@),
    ensures
        match r {
            Some(i) => i < ps@.len() && i == player_index(ps@, a) && has_player(ps@, a),
            None => !has_player(ps@, a),
        },
{
    let n = ps.len();
    let mut k: usize = 0;
    while k < n
        invariant
            distinct_addrs(ps@),
            n == ps@.len(),
            k <= n,
            forall|j: int| 0 <= j < k ==> ps@[j].addr != a,
        decreases n - k,
    {
        if ps[k].addr == a {
            proof {
                let c = player_index(ps@, a);
                assert(ps@[k as int].addr == a);
                assert(0 <= c < ps@.len() && ps@[c].addr == a);
                if c < k {
                    assert(ps@[c].addr != ps@[k as int].addr);
                } else if k < c {
                    assert(ps@[k as int].addr != ps@[c].addr);
                }
            }
            return Some(k);
        }
        k = k + 1;
    }
    None
}

/// Connects `from` if it is new; returns its position.
fn register_sender(ps: &mut Vec<Player>, from: PeerAddr) -> (i: usize)
    requires
        distinct_addrs(old(ps)@),
    ensures
        distinct_addrs(final(ps)@),
        final(ps)@ == (if has_player(old(ps)@, from) {
            old(ps)@
        } else {
            old(ps)@.push(Player { addr: from, score: 0, answered: false })
        }),
        i < final(ps)@.len(),
        i == player_index(final(ps)@, from),
        has_player(final(ps)@, from),
{
    match find_player(ps, from) {
        Some(i) => i,
        None => {
            let ghost before = ps@;
            ps.push(Player { addr: from, score: 0, answered: false });
            let i = ps.len() - 1;
            proof {
                assert(ps@ =~= before.push(Player { addr: from, score: 0, answered: false }));
                assert(ps@[i as int].addr == from);
                assert forall|x: int, y: int| 0 <= x < y < ps@.len() implies ps@[x].addr != ps@[y].addr by {
                    if y == i {
                        assert(before[x].addr != from);
                    } else {
                        assert(before[x].addr != before[y].addr);
                    }
                }
                let c = player_index(ps@, from);
                assert(0 <= c < ps@.len() && ps@[c].addr == from);
                if c < i {
                    assert(before[c].addr == from);
                }
            }
            i
        },
    }
}

/// Whether every player has answered the current question.
fn everyone_answered(ps: &Vec<Player>) -> (b: bool)
    ensures
        b == all_answered(ps@),
{
    let n = ps.len();
    let mut k: usize = 0;
    while k < n
        invariant
            n == ps@.len(),
            k <= n,
            forall|j: int| 0 <= j < k ==> #[trigger] ps@[j].answered,
        decreases n - k,
    {
        if !ps[k].answered {
            return false;
        }
        k = k + 1;
    }
    true
}

/// Clears every player's answer flag.
fn clear_round(ps: &mut Vec<Player>)
    ensures
        final(ps)@ == clear_answers(old(ps)@),
{
    let ghost before = ps@;
    let n = ps.len();
    let mut k: usize = 0;
    while k < n
        invariant
            n == ps@.len(),
            n == before.len(),
            k <= n,
            before == old(ps)@,
            forall|j: int| 0 <= j < k ==> ps@[j] == unanswered(before[j]),
            forall|j: int| k <= j < n ==> ps@[j] == before[j],
        decreases n - k,
    {
        let p = ps[k];
        ps.set(k, Player { addr: p.addr, score: p.score, answered: false });
        k = k + 1;
    }
    assert(ps@ =~= clear_answers(before));
}

impl QuizServer {
    /// Each player is known once, and the question index never passes the
    /// end of the bank.
    #[verifier::type_invariant]
    spec fn well_formed(self) -> bool {
        server_inv(self@)
    }

    /// A server that will ask `questions` in order, with no player yet.
    pub fn new(questions: Vec<Question>) -> (s: QuizServer)
        ensures
            server_inv(s@),
            s@.questions == questions@.map_values(|q: Question| q@),
            s@.players == Seq::<Player>::empty(),
            s@.current == 0,
    {
        let s = QuizServer { questions, players: Vec::new(), current: 0 };
        assert(s@.players =~= Seq::<Player>::empty());
        s
    }

    /// The index of the question being played (the number of questions
    /// already closed).
    pub fn current_question(&self) -> (i: usize)
        ensures
            i == self@.current,
    {
        self.current
    }

    /// The number of questions in the bank.
    pub fn total_questions(&self) -> (n: usize)
        ensures
            n == self@.questions.len(),
    {
        self.questions.len()
    }

    /// The players, in the order in which they connected.
    pub fn players(&self) -> (ps: &Vec<Player>)
        ensures
            ps@ == self@.players,
    {
        &self.players
    }

    /// Whether counting `msg` from `from` would overflow the sender's score
    /// (see [`answer_overflows`]).
    pub fn would_overflow(&self, from: PeerAddr, msg: &Option<Message>) -> (b: bool)
        ensures
            b == answer_overflows(self@, from, opt_message_view(*msg)),
    {
        proof {
            use_type_invariant(self);
        }
        match msg {
            Some(Message::Answer(c)) => {
                if self.current < self.questions.len() && *c == self.questions[self.current].correct {
                    match find_player(&self.players, from) {
                        Some(i) => self.players[i].score == u32::MAX,
                        None => false,
                    }
                } else {
                    false
                }
            },
            _ => false,
        }
    }

    /// Decides what to do with one datagram from `from`; `msg` is what it
    /// decoded to, `None` when it did not decode. See [`step`].
    pub fn handle(&mut self, from: PeerAddr, msg: Option<Message>) -> (out: Outcome)
        requires
            !answer_overflows(old(self)@, from, opt_message_view(msg)),
        ensures
            server_inv(final(self)@),
            (final(self)@, opt_message_view(out.reply)) == step(old(self)@, from, opt_message_view(msg)),
            out.joined == !has_player(old(self)@.players, from),
            out.round_closed == (final(self)@.current == old(self)@.current + 1),
    {
        proof {
            use_type_invariant(&*self);
        }
        let ghost s0 = self@;
        let mut players: Vec<Player> = Vec::new();
        std::mem::swap(&mut players, &mut self.players);
        assert(players@ == s0.players);
        let joined = match find_player(&players, from) {
            Some(_) => false,
            None => true,
        };
        let i = register_sender(&mut players, from);
        let ghost r = register(s0, from);
        assert(players@ == r.players);
        let p = players[i];
        let current = self.current;
        let n = self.questions.len();
        match msg {
            Some(Message::QuestionRequest) => {
                if current < n {
                    players.set(i, Player { addr: p.addr, score: p.score, answered: false });
                    proof {
                        lemma_update_keeps_distinct(r.players, i as int, unanswered(p));
                    }
                    let q = self.questions[current].duplicate();
                    self.players = players;
                    Outcome { reply: Some(Message::Question(q)), joined, round_closed: false }
                } else {
                    self.players = players;
                    Outcome { reply: Some(Message::GameOver { final_score: p.score }), joined, round_closed: false }
                }
            },
            Some(Message::Answer(c)) => {
                if current < n {
                    let right = c == self.questions[current].correct;
                    let score = if right { p.score + 1 } else { p.score };
                    players.set(i, Player { addr: p.addr, score, answered: true });
                    proof {
                        lemma_update_keeps_distinct(r.players, i as int, answered_player(p, right));
                        assert(players@ =~= r.players.update(i as int, answered_player(p, right)));
                    }
                    let reply = Some(Message::AnswerResult { correct: right, score });
                    if everyone_answered(&players) {
                        let ghost mid = players@;
                        clear_round(&mut players);
                        proof {
                            assert forall|x: int, y: int| 0 <= x < y < players@.len() implies
                                players@[x].addr != players@[y].addr by {
                                assert(players@[x].addr == mid[x].addr);
                                assert(players@[y].addr == mid[y].addr);
                            }
                        }
                        self.players = players;
                        self.current = current + 1;
                        Outcome { reply, joined, round_closed: true }
                    } else {
                        self.players = players;
                        Outcome { reply, joined, round_closed: false }
                    }
                } else {
                    self.players = players;
                    Outcome { reply: None, joined, round_closed: false }
                }
            },
            _ => {
                self.players = players;
                Outcome { reply: None, joined, round_closed: false }
            },
        }
    }
}

} // verus!
