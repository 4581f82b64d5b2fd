use termigame_pong::game::{GameState, Question};
use termigame_pong::renderer::{decimal_string, pad80_string, Renderer};

const TOP: &str = "╔════════════════════════════════════════════════════════════════════════════════╗";
const MID: &str = "╠════════════════════════════════════════════════════════════════════════════════╣";
const BOT: &str = "╚════════════════════════════════════════════════════════════════════════════════╝";
const CLEAR: &str = "\x1B[2J\x1B[H";

#[test]
fn clear_screen_sequence() {
    assert_eq!(Renderer::clear_screen(), "\x1B[2J\x1B[H");
}

#[test]
fn decimal_formats_like_display() {
    for n in [0u32, 7, 10, 42, 99, 100, 4_294_967_295] {
        assert_eq!(decimal_string(n), format!("{}", n));
    }
}

#[test]
fn pad80_formats_like_width_80() {
    for t in ["", "║ abc", "é", &"x".repeat(80), &"y".repeat(95)] {
        assert_eq!(pad80_string(t.to_string()), format!("{:80}", t));
    }
    assert_eq!(pad80_string("║ Océan".to_string()).chars().count(), 80);
}

#[test]
fn waiting_screen() {
    let s = Renderer::draw(&GameState::new());
    let expected = format!(
        "{}{}\n║                       🎯 QUIZ INTERACTIF - Attendez...                        ║\n{}\n",
        CLEAR, TOP, BOT
    );
    assert_eq!(s, expected);
}

#[test]
fn question_screen() {
    let q = Question {
        id: 3,
        text: "Quelle est la capitale de la France ?".to_string(),
        options: ["Lyon".to_string(), "Marseille".to_string(), "Paris".to_string(), "Bordeaux".to_string()],
        correct: 2,
    };
    let s = Renderer::draw_question(&q, 4, 5);
    let mut expected = String::new();
    expected.push_str(CLEAR);
    expected.push_str(&format!("{}\n", TOP));
    expected.push_str("║                       🎯 QUIZ INTERACTIF                                      ║\n");
    expected.push_str(&format!("{}\n", MID));
    expected.push_str("║ Question 4/5\n");
    expected.push_str(&format!("{}\n", MID));
    expected.push_str(&format!("{:80}\n", format!("║ {}", q.text)));
    expected.push_str("║\n");
    for (i, option) in q.options.iter().enumerate() {
        expected.push_str(&format!("{:80}\n", format!("║   [{}] {}", i + 1, option)));
    }
    expected.push_str("║\n");
    expected.push_str("║ Tapez le numéro (1-4) pour répondre:\n");
    expected.push_str(&format!("{}\n", BOT));
    assert_eq!(s, expected);
}

#[test]
fn result_screens() {
    for (correct, text) in [(true, "✅ CORRECT!"), (false, "❌ INCORRECT")] {
        let s = Renderer::draw_result(correct, 12);
        let expected = format!(
            "{}{}\n║                              {}                                  ║\n{}\n║ Score: 12\n{}\n║ Prochaine question en 2 secondes...\n{}\n",
            CLEAR, TOP, text, MID, MID, BOT
        );
        assert_eq!(s, expected);
    }
}

#[test]
fn game_over_screen() {
    let s = Renderer::draw_game_over(3);
    let expected = format!(
        "{}{}\n║                          🏆 FIN DU JEU 🏆                                     ║\n{}\n║ Score final: 3\n║\n║ Merci d'avoir joué!\n{}\n",
        CLEAR, TOP, MID, BOT
    );
    assert_eq!(s, expected);
}
