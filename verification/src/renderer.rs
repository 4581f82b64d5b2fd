use vstd::prelude::*;

use crate::game::{GameState, Question, QuestionView};

verus! {

/// The terminal sequence that clears the screen and puts the cursor home.
pub open spec fn clear_sequence() -> Seq<char> {
    "\x1B[2J\x1B[H"@
}

/// A line of output: the text and a newline.
pub open spec fn line(t: Seq<char>) -> Seq<char> {
    t + seq!['\n']
}

pub open spec fn digit_char(d: nat) -> char {
    (48 + d) as char
}

/// The decimal digits of `n`, most significant first, with no leading zero.
pub open spec fn decimal(n: nat) -> Seq<char>
    decreases n,
{
    if n < 10 {
        seq![digit_char(n)]
    } else {
        decimal(n / 10) + seq![digit_char(n % 10)]
    }
}

/// `t` padded on the right with spaces to 80 characters; a longer `t` is kept whole.
pub open spec fn pad80(t: Seq<char>) -> Seq<char> {
    if t.len() < 80 {
        t + Seq::new((80 - t.len()) as nat, |i: int| ' ')
    } else {
        t
    }
}

pub open spec fn top_border() -> Seq<char> {
    "╔════════════════════════════════════════════════════════════════════════════════╗"@
}

pub open spec fn middle_border() -> Seq<char> {
    "╠════════════════════════════════════════════════════════════════════════════════╣"@
}

pub open spec fn bottom_border() -> Seq<char> {
    "╚════════════════════════════════════════════════════════════════════════════════╝"@
}

/// The waiting screen.
pub open spec fn waiting_frame() -> Seq<char> {
    clear_sequence() + line(top_border()) + line("║                       🎯 QUIZ INTERACTIF - Attendez...                        ║"@) + line(bottom_border())
}

/// The line that offers option number `k` (counted from one).
pub open spec fn option_line(k: nat, option: Seq<char>) -> Seq<char> {
    line(pad80("║   ["@ + decimal(k) + "] "@ + option))
}

/// The screen that asks a question, numbered `num` out of `total`.
pub open spec fn question_frame(q: QuestionView, num: u32, total: u32) -> Seq<char> {
    clear_sequence() + line(top_border()) + line("║                       🎯 QUIZ INTERACTIF                                      ║"@) + line(middle_border())
        + line("║ Question "@ + decimal(num as nat) + "/"@ + decimal(total as nat))
        + line(middle_border()) + line(pad80("║ "@ + q.text)) + line("║"@)
        + option_line(1, q.options[0]) + option_line(2, q.options[1])
        + option_line(3, q.options[2]) + option_line(4, q.options[3]) + line("║"@)
        + line("║ Tapez le numéro (1-4) pour répondre:"@) + line(bottom_border())
}

/// The verdict shown for a right or wrong answer.
pub open spec fn verdict_text(correct: bool) -> Seq<char> {
    if correct {
        "✅ CORRECT!"@
    } else {
        "❌ INCORRECT"@
    }
}

/// The screen that shows the verdict on an answer and the player's score.
pub open spec fn result_frame(correct: bool, score: u32) -> Seq<char> {
    clear_sequence() + line(top_border()) + line("║                              "@ + verdict_text(correct) + "                                  ║"@)
        + line(middle_border()) + line("║ Score: "@ + decimal(score as nat)) + line(middle_border())
        + line("║ Prochaine question en 2 secondes..."@) + line(bottom_border())
}

/// The screen that ends the game with the player's final score.
pub open spec fn game_over_frame(final_score: u32) -> Seq<char> {
    clear_sequence() + line(top_border()) + line("║                          🏆 FIN DU JEU 🏆                                     ║"@) + line(middle_border())
        + line("║ Score final: "@ + decimal(final_score as nat)) + line("║"@)
        + line("║ Merci d'avoir joué!"@) + line(bottom_border())
}

/// The verdict screen shows the verdict it is given, whatever the score:
/// after the title line's left margin stands "✅ CORRECT!" for a right answer
/// and "❌ INCORRECT" for a wrong one; and the score line shows the score's
/// decimal digits.
pub proof fn law_result_shows_verdict_and_score(correct: bool, score: u32)
    ensures
        ({
            let f = result_frame(correct, score);
            let v = if correct {
                "✅ CORRECT!"@
            } else {
                "❌ INCORRECT"@
            };
            let head = clear_sequence() + line(top_border()) + "║                              "@;
            let before_score = head + v + "                                  ║"@ + seq!['\n'] + line(middle_border())
                + "║ Score: "@;
            let digits = decimal(score as nat);
            &&& f.subrange(head.len() as int, (head.len() + v.len()) as int) == v
            &&& f.subrange(before_score.len() as int, (before_score.len() + digits.len()) as int) == digits
            &&& f[(before_score.len() + digits.len()) as int] == '\n'
        }),
{
    let f = result_frame(correct, score);
    let v = verdict_text(correct);
    let head = clear_sequence() + line(top_border()) + "║                              "@;
    let r = "                                  ║"@;
    let before_score = head + v + r + seq!['\n'] + line(middle_border()) + "║ Score: "@;
    let digits = decimal(score as nat);
    let rest = line(middle_border()) + line("║ Prochaine question en 2 secondes..."@) + line(bottom_border());
    assert(f =~= before_score + digits + seq!['\n'] + rest);
    assert(f =~= head + (v + (r + seq!['\n'] + line(middle_border()) + "║ Score: "@ + digits + seq!['\n'] + rest)));
    assert(f.subrange(head.len() as int, (head.len() + v.len()) as int) =~= v);
    assert(f.subrange(before_score.len() as int, (before_score.len() + digits.len()) as int) =~= digits);
}

/// The closing screen shows the final score's decimal digits on its score line.
pub proof fn law_game_over_shows_final_score(final_score: u32)
    ensures
        ({
            let f = game_over_frame(final_score);
            let head = clear_sequence() + line(top_border()) + line(
                "║                          🏆 FIN DU JEU 🏆                                     ║"@,
            ) + line(middle_border()) + "║ Score final: "@;
            let digits = decimal(final_score as nat);
            &&& f.subrange(head.len() as int, (head.len() + digits.len()) as int) == digits
            &&& f[(head.len() + digits.len()) as int] == '\n'
        }),
{
    let f = game_over_frame(final_score);
    let head = clear_sequence() + line(top_border()) + line(
        "║                          🏆 FIN DU JEU 🏆                                     ║"@,
    ) + line(middle_border()) + "║ Score final: "@;
    let digits = decimal(final_score as nat);
    let rest = line("║"@) + line("║ Merci d'avoir joué!"@) + line(bottom_border());
    assert(f =~= head + digits + seq!['\n'] + rest);
    assert(f.subrange(head.len() as int, (head.len() + digits.len()) as int) =~= digits);
}

/// The question screen's heading numbers the question: after "║ Question "
/// stand the decimal digits of its number, a slash, the digits of the total,
/// and the end of the line.
pub proof fn law_question_heading_shows_number_and_total(q: QuestionView, num: u32, total: u32)
    ensures
        ({
            let f = question_frame(q, num, total);
            let head = clear_sequence() + line(top_border()) + line(
                "║                       🎯 QUIZ INTERACTIF                                      ║"@,
            ) + line(middle_border()) + "║ Question "@;
            let n = decimal(num as nat);
            let t = decimal(total as nat);
            &&& f.subrange(head.len() as int, (head.len() + n.len()) as int) == n
            &&& f[(head.len() + n.len()) as int] == '/'
            &&& f.subrange((head.len() + n.len() + 1) as int, (head.len() + n.len() + 1 + t.len()) as int) == t
            &&& f[(head.len() + n.len() + 1 + t.len()) as int] == '\n'
        }),
{
    let f = question_frame(q, num, total);
    let head = clear_sequence() + line(top_border()) + line(
        "║                       🎯 QUIZ INTERACTIF                                      ║"@,
    ) + line(middle_border()) + "║ Question "@;
    let n = decimal(num as nat);
    let t = decimal(total as nat);
    let rest = line(middle_border()) + line(pad80("║ "@ + q.text)) + line("║"@) + option_line(1, q.options[0])
        + option_line(2, q.options[1]) + option_line(3, q.options[2]) + option_line(4, q.options[3])
        + line("║"@) + line("║ Tapez le numéro (1-4) pour répondre:"@) + line(bottom_border());
    reveal_strlit("/");
    assert(f =~= head + n + seq!['/'] + t + seq!['\n'] + rest);
    assert(f.subrange(head.len() as int, (head.len() + n.len()) as int) =~= n);
    assert(f.subrange((head.len() + n.len() + 1) as int, (head.len() + n.len() + 1 + t.len()) as int) =~= t);
}

fn top_border_str() -> (s: &'static str)
    ensures
        s@ == top_border(),
{
    "╔════════════════════════════════════════════════════════════════════════════════╗"
}

fn middle_border_str() -> (s: &'static str)
    ensures
        s@ == middle_border(),
{
    "╠════════════════════════════════════════════════════════════════════════════════╣"
}

fn bottom_border_str() -> (s: &'static str)
    ensures
        s@ == bottom_border(),
{
    "╚════════════════════════════════════════════════════════════════════════════════╝"
}

/// Appends `t` and a newline.
fn add_line(s: &mut String, t: &str)
    ensures
        final(s)@ == old(s)@ + line(t@),
{
    s.append(t);
    s.append("\n");
    proof {
        reveal_strlit("\n");
    }
    assert(final(s)@ =~= old(s)@ + line(t@)) by {
        assert(s@ =~= old(s)@ + t@ + seq!['\n']);
    }
}

fn digit_str(d: u32) -> (s: &'static str)
    requires
        d < 10,
    ensures
        s@ == seq![digit_char(d as nat)],
{
    proof {
        reveal_strlit("0");
        reveal_strlit("1");
        reveal_strlit("2");
        reveal_strlit("3");
        reveal_strlit("4");
        reveal_strlit("5");
        reveal_strlit("6");
        reveal_strlit("7");
        reveal_strlit("8");
        reveal_strlit("9");
    }
    match d {
        0 => "0",
        1 => "1",
        2 => "2",
        3 => "3",
        4 => "4",
        5 => "5",
        6 => "6",
        7 => "7",
        8 => "8",
        _ => "9",
    }
}

/// Appends the decimal digits of `n`.
fn append_decimal(s: &mut String, n: u32)
    ensures
        final(s)@ == old(s)@ + decimal(n as nat),
    decreases n,
{
    if n >= 10 {
        append_decimal(s, n / 10);
    }
    s.append(digit_str(n % 10));
    assert(s@ =~= old(s)@ + decimal(n as nat));
}

/// The decimal digits of `n`, as `{}` prints a number.
pub fn decimal_string(n: u32) -> (r: String)
    ensures
        r@ == decimal(n as nat),
{
    let mut r = String::new();
    append_decimal(&mut r, n);
    assert(r@ =~= decimal(n as nat));
    r
}

/// `t` padded on the right with spaces to 80 characters, as `{:80}` prints it.
pub fn pad80_string(t: String) -> (r: String)
    ensures
        r@ == pad80(t@),
{
    let n = t.as_str().unicode_len();
    let mut r = t;
    let mut k: usize = n;
    proof {
        reveal_strlit(" ");
    }
    while k < 80
        invariant
            n == r@.len() - (k - n),
            n <= k,
            n == t@.len(),
            k < 80 ==> r@ == t@ + Seq::new((k - n) as nat, |i: int| ' '),
            k >= 80 ==> r@ == pad80(t@),
            " "@ == seq![' '],
        decreases 80 - k,
    {
        r.append(" ");
        k = k + 1;
        proof {
            assert(r@ =~= t@ + Seq::new((k - n) as nat, |i: int| ' '));
        }
    }
    if n >= 80 {
        assert(r@ =~= t@);
    } else if k == n {
        assert(r@ =~= pad80(t@));
    }
    r
}

fn add_option_line(s: &mut String, k: u32, option: &String)
    requires
        1 <= k <= 4,
    ensures
        final(s)@ == old(s)@ + option_line(k as nat, option@),
{
    let t = String::from_str("║   [").concat(decimal_string(k).as_str()).concat("] ").concat(option.as_str());
    let padded = pad80_string(t);
    add_line(s, padded.as_str());
}

/// The ASCII-art screens of the game, as text ready to be written to the terminal.
pub struct Renderer;

impl Renderer {
    /// The text that clears the screen.
    pub fn clear_screen() -> (s: String)
        ensures
            s@ == clear_sequence(),
    {
        String::from_str("\x1B[2J\x1B[H")
    }

    /// The screen shown while waiting for the game.
    pub fn draw(_state: &GameState) -> (s: String)
        ensures
            s@ == waiting_frame(),
    {
        let mut s = Self::clear_screen();
        add_line(&mut s, top_border_str());
        add_line(&mut s, "║                       🎯 QUIZ INTERACTIF - Attendez...                        ║");
        add_line(&mut s, bottom_border_str());
        s
    }

    /// The screen that asks `question`, numbered `current_num` out of `total`.
    pub fn draw_question(question: &Question, current_num: u32, total: u32) -> (s: String)
        ensures
            s@ == question_frame(question@, current_num, total),
    {
        let mut s = Self::clear_screen();
        add_line(&mut s, top_border_str());
        add_line(&mut s, "║                       🎯 QUIZ INTERACTIF                                      ║");
        add_line(&mut s, middle_border_str());
        let heading = String::from_str("║ Question ").concat(decimal_string(current_num).as_str()).concat(
            "/",
        ).concat(decimal_string(total).as_str());
        add_line(&mut s, heading.as_str());
        add_line(&mut s, middle_border_str());
        let text = pad80_string(String::from_str("║ ").concat(question.text.as_str()));
        add_line(&mut s, text.as_str());
        add_line(&mut s, "║");
        add_option_line(&mut s, 1, &question.options[0]);
        add_option_line(&mut s, 2, &question.options[1]);
        add_option_line(&mut s, 3, &question.options[2]);
        add_option_line(&mut s, 4, &question.options[3]);
        add_line(&mut s, "║");
        add_line(&mut s, "║ Tapez le numéro (1-4) pour répondre:");
        add_line(&mut s, bottom_border_str());
        s
    }

    /// The screen that shows the verdict on an answer and the player's score.
    pub fn draw_result(correct: bool, score: u32) -> (s: String)
        ensures
            s@ == result_frame(correct, score),
    {
        let mut s = Self::clear_screen();
        add_line(&mut s, top_border_str());
        let verdict = if correct {
            "✅ CORRECT!"
        } else {
            "❌ INCORRECT"
        };
        let title = String::from_str("║                              ").concat(verdict).concat("                                  ║");
        add_line(&mut s, title.as_str());
        add_line(&mut s, middle_border_str());
        let score_line = String::from_str("║ Score: ").concat(decimal_string(score).as_str());
        add_line(&mut s, score_line.as_str());
        add_line(&mut s, middle_border_str());
        add_line(&mut s, "║ Prochaine question en 2 secondes...");
        add_line(&mut s, bottom_border_str());
        s
    }

    /// The screen that ends the game with the player's final score.
    pub fn draw_game_over(final_score: u32) -> (s: String)
        ensures
            s@ == game_over_frame(final_score),
    {
        let mut s = Self::clear_screen();
        add_line(&mut s, top_border_str());
        add_line(&mut s, "║                          🏆 FIN DU JEU 🏆                                     ║");
        add_line(&mut s, middle_border_str());
        let score_line = String::from_str("║ Score final: ").concat(decimal_string(final_score).as_str());
        add_line(&mut s, score_line.as_str());
        add_line(&mut s, "║");
        add_line(&mut s, "║ Merci d'avoir joué!");
        add_line(&mut s, bottom_border_str());
        s
    }
}

} // verus!
