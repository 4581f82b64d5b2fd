use vstd::prelude::*;

use crate::game::{Message, MessageView, Question};
use crate::renderer::{decimal, decimal_string, digit_char};

verus! {

/// Where a client is in the game: waiting in the lobby, playing, or done.
#[derive(Clone, Copy, Debug, PartialEq, Eq, Structural)]
pub enum Phase {
    Lobby,
    Game,
    Over,
}

pub open spec fn is_ascii_digit(c: char) -> bool {
    '0' <= c && c <= '9'
}

/// The number that a string of decimal digits writes.
pub open spec fn digits_value(d: Seq<char>) -> nat
    decreases d.len(),
{
    if d.len() == 0 {
        0
    } else {
        digits_value(d.drop_last()) * 10 + ((d.last() as nat) - 48) as nat
    }
}

/// The characters after an optional leading `+`.
pub open spec fn unsigned_digits(s: Seq<char>) -> Seq<char> {
    if s.len() > 0 && s[0] == '+' {
        s.drop_first()
    } else {
        s
    }
}

pub open spec fn all_digits(d: Seq<char>) -> bool {
    forall|i: int| 0 <= i < d.len() ==> is_ascii_digit(#[trigger] d[i])
}

/// How a decimal `usize` is read from a string, as `str::parse::<usize>` reads
/// it: an optional `+`, then one or more ASCII digits, whose value must fit in
/// a `usize`; anything else is refused.
pub open spec fn parsed_usize(s: Seq<char>) -> Option<usize> {
    let d = unsigned_digits(s);
    if d.len() > 0 && all_digits(d) && digits_value(d) <= usize::MAX {
        Some(digits_value(d) as usize)
    } else {
        None
    }
}

/// Each value of a prefix of a digit string is at most the whole string's value.
proof fn lemma_prefix_value_le(d: Seq<char>, j: int)
    requires
        0 <= j <= d.len(),
        all_digits(d),
    ensures
        digits_value(d.subrange(0, j)) <= digits_value(d),
    decreases d.len(),
{
    if j < d.len() {
        let e = d.drop_last();
        assert forall|i: int| 0 <= i < e.len() implies is_ascii_digit(#[trigger] e[i]) by {
            assert(e[i] == d[i]);
        }
        assert(all_digits(e));
        lemma_prefix_value_le(e, j);
        assert(e.subrange(0, j) =~= d.subrange(0, j));
        assert(is_ascii_digit(d[d.len() - 1]));
    } else {
        assert(d.subrange(0, j) =~= d);
    }
}

/// Reads `s` as a decimal `usize`: an optional `+`, then one or more ASCII
/// digits whose value fits (see [`parsed_usize`]).
fn parse_usize(s: &str) -> (r: Option<usize>)
    ensures
        r == parsed_usize(s@),
{
    let n = s.unicode_len();
    let start: usize = if n > 0 && s.get_char(0) == '+' {
        1
    } else {
        0
    };
    let ghost d = s@.subrange(start as int, n as int);
    proof {
        if start == 1 {
            assert(d =~= s@.drop_first());
        } else {
            assert(d =~= s@);
        }
    }
    if start == n {
        return None;
    }
    let mut v: usize = 0;
    let mut k: usize = start;
    assert(d.subrange(0, 0) =~= Seq::<char>::empty());
    while k < n
        invariant
            start <= k <= n,
            n == s@.len(),
            start < n,
            d == s@.subrange(start as int, n as int),
            d == unsigned_digits(s@),
            forall|i: int| 0 <= i < k - start ==> is_ascii_digit(#[trigger] d[i]),
            v == digits_value(d.subrange(0, k - start)),
        decreases n - k,
    {
        let code = s.get_char(k) as u32;
        assert(d[k - start] == s@[k as int]);
        if code < 48 || code > 57 {
            assert(!is_ascii_digit(d[k - start]));
            assert(!all_digits(d));
            return None;
        }
        let digit = (code - 48) as usize;
        let ghost next = d.subrange(0, k + 1 - start);
        proof {
            assert(is_ascii_digit(d[k - start]));
            assert(next.drop_last() =~= d.subrange(0, k - start));
            assert(next.last() == d[k - start]);
            assert(digits_value(next) == v * 10 + digit);
        }
        match v.checked_mul(10) {
            Some(t) => match t.checked_add(digit) {
                Some(w) => {
                    v = w;
                    k = k + 1;
                },
                None => {
                    proof {
                        if all_digits(d) {
                            lemma_prefix_value_le(d, k + 1 - start);
                        }
                    }
                    return None;
                },
            },
            None => {
                proof {
                    if all_digits(d) {
                        lemma_prefix_value_le(d, k + 1 - start);
                    }
                }
                return None;
            },
        }
    }
    assert(d.subrange(0, n - start) =~= d);
    Some(v)
}

/// What a line typed by the player asks of the server.
pub enum Request {
    /// The player is ready to play.
    Ready,
    /// The player picks an option (counted from zero).
    Answer(usize),
    /// A chat line.
    Chat { player: String, text: String },
}

/// The mathematical value of a [`Request`].
pub enum RequestView {
    Ready,
    Answer(usize),
    Chat { player: Seq<char>, text: Seq<char> },
}

impl View for Request {
    type V = RequestView;

    open spec fn view(&self) -> RequestView {
        match self {
            Request::Ready => RequestView::Ready,
            Request::Answer(c) => RequestView::Answer(*c),
            Request::Chat { player, text } => RequestView::Chat { player: player@, text: text@ },
        }
    }
}

/// What a line typed by the player asks, given the phase and whether a
/// question is waiting for an answer.
///
/// An empty line asks nothing. In the lobby, `r` or `R` says the player is
/// ready and any other line is chat. During the game a number from 1 to 4
/// answers the waiting question with that option (counted from zero on the
/// wire), another number asks nothing, and a line that is not a number is
/// chat. Once the game is over nothing is asked.
pub open spec fn input_request(phase: Phase, has_question: bool, input: Seq<char>, player: Seq<char>) -> Option<RequestView> {
    if input.len() == 0 {
        None
    } else {
        match phase {
            Phase::Lobby => {
                if input == seq!['r'] || input == seq!['R'] {
                    Some(RequestView::Ready)
                } else {
                    Some(RequestView::Chat { player, text: input })
                }
            },
            Phase::Game => match parsed_usize(input) {
                Some(n) => {
                    if 1 <= n <= 4 && has_question {
                        Some(RequestView::Answer((n - 1) as usize))
                    } else {
                        None
                    }
                },
                None => Some(RequestView::Chat { player, text: input }),
            },
            Phase::Over => None,
        }
    }
}

/// The message that carries a request to the quiz server.
///
/// The protocol has no message of its own for readiness: the server hands out
/// questions only on request, so a player's readiness travels as a request
/// for the question in play. Answers and chat travel as themselves.
pub open spec fn request_message(r: RequestView) -> MessageView {
    match r {
        RequestView::Ready => MessageView::QuestionRequest,
        RequestView::Answer(c) => MessageView::Answer(c),
        RequestView::Chat { player, text } => MessageView::Chat { player, text },
    }
}

impl Request {
    /// The message that carries this request (see [`request_message`]).
    pub fn to_message(self) -> (m: Message)
        ensures
            m@ == request_message(self@),
    {
        match self {
            Request::Ready => Message::QuestionRequest,
            Request::Answer(c) => Message::Answer(c),
            Request::Chat { player, text } => Message::Chat { player, text },
        }
    }
}

/// An answer is asked only during the game, only while a question waits for
/// one, and always names one of the four options.
pub proof fn law_answers_name_an_option(phase: Phase, has_question: bool, input: Seq<char>, player: Seq<char>)
    ensures
        input_request(phase, has_question, input, player) matches Some(RequestView::Answer(c)) ==> c < 4
            && phase == Phase::Game && has_question,
{
}

/// A chat request always carries the player's name as its sender and the
/// typed line, unchanged, as its text, in every phase.
pub proof fn law_chat_carries_name_and_text(phase: Phase, has_question: bool, input: Seq<char>, player: Seq<char>)
    ensures
        input_request(phase, has_question, input, player) matches Some(RequestView::Chat { player: p, text: t })
            ==> p == player && t == input,
{
}

/// Readiness is asked only in the lobby, and only by the one-letter line `r`
/// or `R`.
pub proof fn law_ready_only_on_r(phase: Phase, has_question: bool, input: Seq<char>, player: Seq<char>)
    ensures
        input_request(phase, has_question, input, player) matches Some(RequestView::Ready) ==> phase
            == Phase::Lobby && (input == seq!['r'] || input == seq!['R']),
{
}

/// During the game, with a question waiting, typing one of the digits `1` to
/// `4` answers with the option that digit numbers, counted from zero.
pub proof fn law_digit_answers_its_option(c: char, player: Seq<char>)
    requires
        '1' <= c && c <= '4',
    ensures
        input_request(Phase::Game, true, seq![c], player) == Some(RequestView::Answer(((c as nat) - 49) as usize)),
{
    let d = seq![c];
    assert(unsigned_digits(d) == d);
    assert(all_digits(d));
    assert(d.drop_last() =~= Seq::<char>::empty());
    assert(digits_value(d.drop_last()) == 0);
    assert(d.last() == c);
    assert(digits_value(d) == (c as nat) - 48);
}

/// Reading back what `{}` prints: the decimal digits of a number that fits
/// in a `usize` read as that number.
pub proof fn law_decimal_reads_back(n: nat)
    requires
        n <= usize::MAX,
    ensures
        parsed_usize(decimal(n)) == Some(n as usize),
{
    lemma_decimal_digits(n);
    assert(unsigned_digits(decimal(n)) == decimal(n));
}

proof fn lemma_decimal_digits(n: nat)
    ensures
        decimal(n).len() > 0,
        decimal(n)[0] != '+',
        all_digits(decimal(n)),
        digits_value(decimal(n)) == n,
    decreases n,
{
    if n < 10 {
        let d = decimal(n);
        assert(d.drop_last() =~= Seq::<char>::empty());
        assert(digits_value(d.drop_last()) == 0);
        assert(d.last() == digit_char(n));
        assert(digit_char(n) as nat == 48 + n);
        assert(is_ascii_digit(d[0]));
    } else {
        lemma_decimal_digits(n / 10);
        let d = decimal(n);
        let e = decimal(n / 10);
        assert(d.drop_last() =~= e);
        assert(d[0] == e[0]);
        assert forall|i: int| 0 <= i < d.len() implies is_ascii_digit(#[trigger] d[i]) by {
            if i < e.len() {
                assert(d[i] == e[i]);
            }
        }
        assert(d.last() == digit_char(n % 10));
        assert(digit_char(n % 10) as nat == 48 + n % 10);
        assert(is_ascii_digit(d[d.len() - 1]));
        assert(n == (n / 10) * 10 + n % 10);
    }
}

/// Questions are numbered from one: the question with identifier `qid` is
/// shown as number `qid + 1` (every identifier but the largest).
pub proof fn law_question_numbers_count_up(qid: u32)
    requires
        qid < u32::MAX,
    ensures
        question_number(qid) == qid + 1,
{
}

/// The number under which a question is shown: its identifier counted from
/// one. Questions carry no number of their own, so it is derived from the
/// identifier; the largest identifier, which has no successor in a `u32`, is
/// shown as it is.
pub open spec fn question_number(id: u32) -> u32 {
    if id < u32::MAX {
        (id + 1) as u32
    } else {
        id
    }
}

/// What the client shows after a message from the server.
pub enum Screen {
    /// Nothing to show.
    Nothing,
    /// Show the question, numbered `number` out of `total`, and wait for an answer.
    Question { question: Question, number: u32, total: u32 },
    /// Show the verdict and score.
    Result { correct: bool, score: u32 },
    /// Show the final score; the client is back in the lobby.
    GameOver { final_score: u32 },
    /// Show a chat line.
    Chat { player: String, text: String },
    /// A countdown started for the waiting question.
    Timer { seconds: u32 },
}

/// The player's side of the game.
pub struct ClientState {
    pub phase: Phase,
    /// The question waiting for an answer, if any.
    pub current_question: Option<Question>,
    /// The length of the running answer countdown, in seconds, if one runs.
    pub timer: Option<u32>,
    /// How many questions the quiz has.
    pub total: u32,
}

impl ClientState {
    /// A client that has just joined a quiz of `total` questions: in the
    /// lobby, with no question and no countdown.
    pub fn new(total: u32) -> (c: ClientState)
        ensures
            c.phase == Phase::Lobby,
            c.current_question is None,
            c.timer is None,
            c.total == total,
    {
        ClientState { phase: Phase::Lobby, current_question: None, timer: None, total }
    }

    /// Decides what a typed line asks (see [`input_request`]); an answer
    /// stops the countdown.
    pub fn on_input(&mut self, input: &str, player: &str) -> (out: Option<Request>)
        ensures
            match out {
                Some(r) => input_request(old(self).phase, old(self).current_question is Some, input@, player@)
                    == Some(r@),
                None => input_request(old(self).phase, old(self).current_question is Some, input@, player@)
                    is None,
            },
            final(self).phase == old(self).phase,
            final(self).current_question == old(self).current_question,
            final(self).total == old(self).total,
            final(self).timer == (if out matches Some(Request::Answer(_)) {
                None
            } else {
                old(self).timer
            }),
    {
        if input.is_empty() {
            return None;
        }
        match self.phase {
            Phase::Lobby => {
                let n = input.unicode_len();
                if n == 1 && (input.get_char(0) == 'r' || input.get_char(0) == 'R') {
                    assert(input@ == seq![input@[0]]);
                    Some(Request::Ready)
                } else {
                    assert(n != 1 ==> input@ != seq!['r'] && input@ != seq!['R']);
                    Some(Request::Chat { player: String::from_str(player), text: String::from_str(input) })
                }
            },
            Phase::Game => match parse_usize(input) {
                Some(n) => {
                    if n >= 1 && n <= 4 && self.current_question.is_some() {
                        self.timer = None;
                        Some(Request::Answer(n - 1))
                    } else {
                        None
                    }
                },
                None => Some(Request::Chat { player: String::from_str(player), text: String::from_str(input) }),
            },
            Phase::Over => None,
        }
    }

    /// Takes in a message from the server; returns what to show, and what to
    /// send once it has been shown. A question puts the client in the game
    /// with that question waiting; a verdict clears the waiting question and
    /// its countdown, and once shown the next question is requested; the final
    /// score ends the game and returns to the lobby; a countdown start records
    /// its length; chat is shown as it is; anything else changes nothing.
    ///
    /// Three of these rules follow from what the protocol offers. It has no
    /// start-of-game message, so the first question is what puts the client
    /// in the game. The server sends a question only when asked, so after a
    /// verdict the client asks for the next one itself. Questions carry no
    /// countdown, so the countdown is the one that `TimerStart` announces.
    pub fn on_message(&mut self, msg: Message) -> (r: (Screen, Option<Message>))
        ensures
            final(self).total == old(self).total,
            match msg {
                Message::Question(q) => {
                    &&& final(self).phase == Phase::Game
                    &&& final(self).current_question matches Some(c) && c@ == q@
                    &&& final(self).timer == old(self).timer
                    &&& r.0 matches Screen::Question { question: dq, number, total } && dq@ == q@
                        && number == question_number(q.id) && total == old(self).total
                    &&& r.1 is None
                },
                Message::AnswerResult { correct, score } => {
                    &&& final(self).phase == old(self).phase
                    &&& final(self).current_question is None
                    &&& final(self).timer is None
                    &&& r.0 == (Screen::Result { correct, score })
                    &&& r.1 matches Some(Message::QuestionRequest)
                },
                Message::GameOver { final_score } => {
                    &&& final(self).phase == Phase::Lobby
                    &&& final(self).current_question is None
                    &&& final(self).timer is None
                    &&& r.0 == (Screen::GameOver { final_score })
                    &&& r.1 is None
                },
                Message::TimerStart { seconds } => {
                    &&& final(self).phase == old(self).phase
                    &&& final(self).current_question == old(self).current_question
                    &&& final(self).timer == Some(seconds)
                    &&& r.0 == (Screen::Timer { seconds })
                    &&& r.1 is None
                },
                Message::Chat { player, text } => {
                    &&& *final(self) == *old(self)
                    &&& r.0 matches Screen::Chat { player: p, text: t } && p@ == player@ && t@ == text@
                    &&& r.1 is None
                },
                _ => {
                    &&& *final(self) == *old(self)
                    &&& r.0 is Nothing
                    &&& r.1 is None
                },
            },
    {
        match msg {
            Message::Question(q) => {
                self.phase = Phase::Game;
                let shown = q.duplicate();
                let number = if q.id < u32::MAX {
                    q.id + 1
                } else {
                    q.id
                };
                self.current_question = Some(q);
                (Screen::Question { question: shown, number, total: self.total }, None)
            },
            Message::AnswerResult { correct, score } => {
                self.current_question = None;
                self.timer = None;
                (Screen::Result { correct, score }, Some(Message::QuestionRequest))
            },
            Message::GameOver { final_score } => {
                self.phase = Phase::Lobby;
                self.current_question = None;
                self.timer = None;
                (Screen::GameOver { final_score }, None)
            },
            Message::TimerStart { seconds } => {
                self.timer = Some(seconds);
                (Screen::Timer { seconds }, None)
            },
            Message::Chat { player, text } => (Screen::Chat { player, text }, None),
            _ => (Screen::Nothing, None),
        }
    }
}

/// The prompt shown to the player: with a countdown of `duration` seconds of
/// which `elapsed` have passed, the seconds left (never below zero) and an
/// invitation to answer or chat; without one, a bare `> `.
pub open spec fn prompt_of(timer: Option<(u32, u32)>) -> Seq<char> {
    match timer {
        Some((elapsed, duration)) => "\r["@ + decimal(
            (if duration >= elapsed {
                duration - elapsed
            } else {
                0
            }) as nat,
        ) + "s] Answer (1-4) or chat: "@,
        None => "> "@,
    }
}

/// The countdown in the prompt shows the seconds left and never goes below
/// zero: once the countdown has run out it shows `0`, and before that the
/// digits shown read back as the seconds left.
pub proof fn law_prompt_counts_seconds_left(elapsed: u32, duration: u32)
    ensures
        ({
            let p = prompt_of(Some((elapsed, duration)));
            let tail = "s] Answer (1-4) or chat: "@;
            let digits = p.subrange(2, p.len() - tail.len());
            &&& elapsed >= duration ==> digits == seq!['0']
            &&& elapsed < duration ==> parsed_usize(digits) == Some((duration - elapsed) as usize)
        }),
{
    reveal_strlit("\r[");
    let p = prompt_of(Some((elapsed, duration)));
    let tail = "s] Answer (1-4) or chat: "@;
    let rem: nat = if duration >= elapsed {
        (duration - elapsed) as nat
    } else {
        0
    };
    assert(p == "\r["@ + decimal(rem) + tail);
    assert(p.subrange(2, p.len() - tail.len()) =~= decimal(rem));
    if elapsed >= duration {
        assert(rem == 0);
        assert(digit_char(0) == '0');
    } else {
        law_decimal_reads_back(rem);
    }
}

/// The prompt text (see [`prompt_of`]); `timer` holds the elapsed and total
/// seconds of the countdown.
pub fn prompt(timer: Option<(u32, u32)>) -> (s: String)
    ensures
        s@ == prompt_of(timer),
{
    match timer {
        Some((elapsed, duration)) => {
            let remaining = duration.saturating_sub(elapsed);
            String::from_str("\r[").concat(decimal_string(remaining).as_str()).concat(
                "s] Answer (1-4) or chat: ",
            )
        },
        None => String::from_str("> "),
    }
}

} // verus!
