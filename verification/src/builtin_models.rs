//! Ready-made note-types: the classic front/back card, its reversed and
//! optionally-reversed variants, a type-in-the-answer variant, and a cloze
//! note-type.

use crate::builders::{Field, Template};
use crate::model::{Model, ModelType};
use vstd::prelude::*;

verus! {

/// A basic front/back note-type: a question on the front, question and
/// answer on the back.
pub fn basic_model() -> (m: Model)
    ensures
        m.id == 1559383000,
        m.model_type is FrontBack,
        m.fields@.len() == 2,
        m.templates@.len() == 1,
{
    Model::new_with_options(
        1559383000,
        "Basic (genanki)",
        vec![Field::new("Front").font("Arial"), Field::new("Back").font("Arial")],
        vec![
            Template::new("Card 1").qfmt("{{Front}}").afmt(
                "{{FrontSide}}\n\n<hr id=answer>\n\n{{Back}}",
            ),
        ],
        Some(
            ".card {\n font-family: arial;\n font-size: 20px;\n text-align: center;\n color: black;\n background-color: white;\n}\n",
        ),
        None,
        None,
        None,
        None,
    )
}

/// A front/back note-type that also generates the reversed card.
pub fn basic_and_reversed_card_model() -> (m: Model)
    ensures
        m.id == 1485830179,
        m.model_type is FrontBack,
        m.fields@.len() == 2,
        m.templates@.len() == 2,
{
    Model::new_with_options(
        1485830179,
        "Basic (and reversed card) (genanki)",
        vec![Field::new("Front").font("Arial"), Field::new("Back").font("Arial")],
        vec![
            Template::new("Card 1").qfmt("{{Front}}").afmt(
                "{{FrontSide}}\n\n<hr id=answer>\n\n{{Back}}",
            ),
            Template::new("Card 2").qfmt("{{Back}}").afmt(
                "{{FrontSide}}\n\n<hr id=answer>\n\n{{Front}}",
            ),
        ],
        Some(
            ".card {\n font-family: arial;\n font-size: 20px;\n text-align: center;\n color: black;\n background-color: white;\n}\n",
        ),
        None,
        None,
        None,
        None,
    )
}

/// A front/back note-type whose reversed card is generated only when the
/// third field is non-empty.
pub fn basic_optional_reversed_card_model() -> (m: Model)
    ensures
        m.id == 1382232460,
        m.model_type is FrontBack,
        m.fields@.len() == 3,
        m.templates@.len() == 2,
{
    Model::new_with_options(
        1382232460,
        "Basic (optional reversed card) (genanki)",
        vec![
            Field::new("Front").font("Arial"),
            Field::new("Back").font("Arial"),
            Field::new("Add Reverse").font("Arial"),
        ],
        vec![
            Template::new("Card 1").qfmt("{{Front}}").afmt(
                "{{FrontSide}}\n\n<hr id=answer>\n\n{{Back}}",
            ),
            Template::new("Card 2").qfmt("{{#Add Reverse}}{{Back}}{{/Add Reverse}}").afmt(
                "{{FrontSide}}\n\n<hr id=answer>\n\n{{Front}}",
            ),
        ],
        Some(
            ".card {\n font-family: arial;\n font-size: 20px;\n text-align: center;\n color: black;\n background-color: white;\n}\n",
        ),
        None,
        None,
        None,
        None,
    )
}

/// A note-type whose answer is typed in and checked.
pub fn basic_type_in_the_answer_model() -> (m: Model)
    ensures
        m.id == 1305534440,
        m.model_type is FrontBack,
        m.fields@.len() == 2,
        m.templates@.len() == 1,
{
    Model::new_with_options(
        1305534440,
        "Basic (type in the answer) (genanki)",
        vec![Field::new("Front").font("Arial"), Field::new("Back").font("Arial")],
        vec![
            Template::new("Card 1").qfmt("{{Front}}\n\n{{type:Back}}").afmt(
                "{{Front}}\n\n<hr id=answer>\n\n{{type:Back}}",
            ),
        ],
        Some(
            ".card {\n font-family: arial;\n font-size: 20px;\n text-align: center;\n color: black;\n background-color: white;\n}\n",
        ),
        None,
        None,
        None,
        None,
    )
}

/// A cloze note-type with a single text field.
pub fn cloze_model() -> (m: Model)
    ensures
        m.id == 1122529321,
        m.model_type is Cloze,
        m.fields@.len() == 1,
        m.templates@.len() == 1,
{
    Model::new_with_options(
        1122529321,
        "Cloze (genanki)",
        vec![Field::new("Text").font("Arial")],
        vec![Template::new("Cloze").qfmt("{{cloze:Text}}").afmt("{{cloze:Text}}")],
        Some(
            ".card {\n font-family: arial;\n font-size: 20px;\n text-align: center;\n color: black;\n background-color: white;\n}\n\n .cloze {\n font-weight: bold;\n color: blue;\n}\n.nightMode .cloze {\n color: lightblue;\n}",
        ),
        Some(ModelType::Cloze),
        None,
        None,
        None,
    )
}

} // verus!
