use vstd::prelude::*;

verus! {

/// A multiple-choice question with four options.
#[derive(Clone, Debug)]
pub struct Question {
    pub id: u32,
    pub text: String,
    pub options: [String; 4],
    /// Index (0-based) of the right option.
    pub correct: usize,
}

/// The mathematical value of a [`Question`]: its text and options as character sequences.
pub struct QuestionView {
    pub id: u32,
    pub text: Seq<char>,
    pub options: Seq<Seq<char>>,
    pub correct: usize,
}

impl View for Question {
    type V = QuestionView;

    open spec fn view(&self) -> QuestionView {
        QuestionView {
            id: self.id,
            text: self.text@,
            options: self.options@.map_values(|o: String| o@),
            correct: self.correct,
        }
    }
}

/// Scores and progress of a game, as shared between the players.
#[derive(Clone, Debug)]
pub struct GameState {
    pub current_question_id: u32,
    pub player1_score: u32,
    pub player2_score: u32,
    pub game_over: bool,
}

impl GameState {
    /// A game that has not started: first question, no points, not over.
    pub fn new() -> (s: Self)
        ensures
            s.current_question_id == 0,
            s.player1_score == 0,
            s.player2_score == 0,
            !s.game_over,
    {
        GameState { current_question_id: 0, player1_score: 0, player2_score: 0, game_over: false }
    }

    /// Advances the game by one frame of the given size; a quiz has nothing to
    /// animate, so the state stays as it is.
    pub fn update(&mut self, _width: i32, _height: i32)
        ensures
            *final(self) == *old(self),
    {
    }
}

/// What a client and the server send each other, one message per datagram.
#[derive(Clone, Debug)]
pub enum Message {
    QuestionRequest,
    Question(Question),
    Answer(usize),
    AnswerResult { correct: bool, score: u32 },
    NextQuestion,
    GameOver { final_score: u32 },
    TimerStart { seconds: u32 },
    TimerTick { remaining: u32 },
    Chat { player: String, text: String },
}

/// The mathematical value of a [`Message`].
pub enum MessageView {
    QuestionRequest,
    Question(QuestionView),
    Answer(usize),
    AnswerResult { correct: bool, score: u32 },
    NextQuestion,
    GameOver { final_score: u32 },
    TimerStart { seconds: u32 },
    TimerTick { remaining: u32 },
    Chat { player: Seq<char>, text: Seq<char> },
}

impl View for Message {
    type V = MessageView;

    open spec fn view(&self) -> MessageView {
        match self {
            Message::QuestionRequest => MessageView::QuestionRequest,
            Message::Question(q) => MessageView::Question(q@),
            Message::Answer(c) => MessageView::Answer(*c),
            Message::AnswerResult { correct, score } => MessageView::AnswerResult {
                correct: *correct,
                score: *score,
            },
            Message::NextQuestion => MessageView::NextQuestion,
            Message::GameOver { final_score } => MessageView::GameOver { final_score: *final_score },
            Message::TimerStart { seconds } => MessageView::TimerStart { seconds: *seconds },
            Message::TimerTick { remaining } => MessageView::TimerTick { remaining: *remaining },
            Message::Chat { player, text } => MessageView::Chat { player: player@, text: text@ },
        }
    }
}

impl Question {
    /// A copy of the question, equal to it in every field.
    pub fn duplicate(&self) -> (q: Question)
        ensures
            q@ == self@,
    {
        let options = [
            self.options[0].clone(),
            self.options[1].clone(),
            self.options[2].clone(),
            self.options[3].clone(),
        ];
        let q = Question { id: self.id, text: self.text.clone(), options, correct: self.correct };
        assert(q.options@.map_values(|o: String| o@) =~= self.options@.map_values(|o: String| o@));
        q
    }
}

} // verus!
