use vstd::prelude::*;

use crate::game::{Question, QuestionView};

verus! {

/// The value of a question with the given fields.
pub open spec fn question_value(
    id: u32,
    text: &str,
    o0: &str,
    o1: &str,
    o2: &str,
    o3: &str,
    correct: usize,
) -> QuestionView {
    QuestionView { id, text: text@, options: seq![o0@, o1@, o2@, o3@], correct }
}

/// The questions that the server asks, in the order it asks them.
pub open spec fn question_bank() -> Seq<QuestionView> {
    seq![
        question_value(
            0,
            "Quel est le plus grand océan ?",
            "Océan Atlantique",
            "Océan Pacifique",
            "Océan Indien",
            "Océan Arctique",
            1,
        ),
        question_value(
            1,
            "En quelle année l'homme a-t-il marché sur la Lune ?",
            "1965",
            "1969",
            "1971",
            "1975",
            1,
        ),
        question_value(
            2,
            "Quel est le plus haut sommet du monde ?",
            "K2",
            "Kangchenjunga",
            "Mont Everest",
            "Denali",
            2,
        ),
        question_value(
            3,
            "Quelle est la capitale de la France ?",
            "Lyon",
            "Marseille",
            "Paris",
            "Bordeaux",
            2,
        ),
        question_value(
            4,
            "Combien de continents existe-t-il ?",
            "5",
            "6",
            "7",
            "8",
            2,
        ),
    ]
}

/// The bank holds five questions, identified 0 to 4 in order, each with
/// four options and its right option among them.
pub proof fn law_bank_is_well_formed()
    ensures
        question_bank().len() == 5,
        forall|i: int|
            0 <= i < 5 ==> (#[trigger] question_bank()[i]).id == i && question_bank()[i].options.len() == 4
                && question_bank()[i].correct < 4,
{
}

fn make_question(
    id: u32,
    text: &str,
    o0: &str,
    o1: &str,
    o2: &str,
    o3: &str,
    correct: usize,
) -> (q: Question)
    ensures
        q@ == question_value(id, text, o0, o1, o2, o3, correct),
{
    let q = Question {
        id,
        text: String::from_str(text),
        options: [String::from_str(o0), String::from_str(o1), String::from_str(o2), String::from_str(o3)],
        correct,
    };
    assert(q.options@.map_values(|o: String| o@) =~= seq![o0@, o1@, o2@, o3@]);
    q
}

/// The question bank of the quiz: five general-knowledge questions with
/// identifiers 0 to 4.
pub fn get_questions() -> (qs: Vec<Question>)
    ensures
        qs@.map_values(|q: Question| q@) == question_bank(),
{
    let mut qs: Vec<Question> = Vec::new();
    qs.push(make_question(
        0,
        "Quel est le plus grand océan ?",
        "Océan Atlantique",
        "Océan Pacifique",
        "Océan Indien",
        "Océan Arctique",
        1,
    ));
    qs.push(make_question(
        1,
        "En quelle année l'homme a-t-il marché sur la Lune ?",
        "1965",
        "1969",
        "1971",
        "1975",
        1,
    ));
    qs.push(make_question(
        2,
        "Quel est le plus haut sommet du monde ?",
        "K2",
        "Kangchenjunga",
        "Mont Everest",
        "Denali",
        2,
    ));
    qs.push(make_question(
        3,
        "Quelle est la capitale de la France ?",
        "Lyon",
        "Marseille",
        "Paris",
        "Bordeaux",
        2,
    ));
    qs.push(make_question(4, "Combien de continents existe-t-il ?", "5", "6", "7", "8", 2));
    assert(qs@.map_values(|q: Question| q@) =~= question_bank());
    qs
}

} // verus!
