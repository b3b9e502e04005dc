//! Build portable flashcard decks: infer which fields gate each card of a
//! note-type, generate the cards a note instantiates, assemble a relational
//! snapshot of decks, note-types, notes and cards, and pack it together with
//! media into a single importable archive.

pub mod apkg_schema;
pub mod builders;
pub mod builtin_models;
pub mod card;
pub mod clock;
pub mod coljson;
pub mod cloze;
pub mod db_entries;
pub mod deck;
pub mod error;
pub mod json;
pub mod model;
pub mod note;
pub mod package;
pub mod render;
pub mod snapshot;
pub mod sqlio;
pub mod text;
pub mod util;
pub mod ziparch;

pub use builders::{Field, Template};
pub use builtin_models::{basic_and_reversed_card_model, basic_model, basic_optional_reversed_card_model, basic_type_in_the_answer_model, cloze_model};
pub use card::Card;
pub use db_entries::{DeckDbEntry, Fld, ModelDbEntry, Tmpl};
pub use deck::Deck;
pub use error::Error;
pub use model::{Model, ModelType};
pub use note::{find_invalid_html_tags_in_field, validate_tags, Note};
pub use package::{MediaFile, Package};
pub use text::contains_str;
pub use util::guid_for;
