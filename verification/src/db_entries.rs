//! The flat, relational shapes of fields, templates, decks and note-types as
//! the target flashcard application stores them in its collection database.

use vstd::prelude::*;

verus! {

/// A field definition in its serialized shape.
#[derive(Clone, Debug)]
pub struct Fld {
    pub name: String,
    pub sticky: bool,
    pub rtl: bool,
    pub ord: i64,
    pub font: String,
    pub size: i64,
}

/// A template definition in its serialized shape.
#[derive(Clone, Debug)]
pub struct Tmpl {
    pub name: String,
    pub qfmt: String,
    pub did: Option<i64>,
    pub bafmt: String,
    pub afmt: String,
    pub ord: i64,
    pub bqfmt: String,
}

/// A day-indexed counter pair, serialized as a two-element array.
#[derive(Clone, Copy, Debug, PartialEq, Eq, Structural)]
pub struct TodayPair {
    pub day: i64,
    pub amount: i64,
}

/// A deck's row in the serialized deck catalog.
#[derive(Clone, Debug)]
pub struct DeckDbEntry {
    pub collapsed: bool,
    pub conf: i64,
    pub desc: String,
    pub deck_db_entry_dyn: i64,
    pub extend_new: i64,
    pub extend_rev: i64,
    pub id: i64,
    pub lrn_today: TodayPair,
    pub deck_db_entry_mod: i64,
    pub name: String,
    pub new_today: TodayPair,
    pub rev_today: TodayPair,
    pub time_today: TodayPair,
    pub usn: i64,
}

/// A note-type's entry in the serialized note-type catalog, requirement
/// records included.
#[derive(Clone, Debug)]
pub struct ModelDbEntry {
    pub name: String,
    pub did: i64,
    pub usn: i64,
    pub req: Vec<(usize, String, Vec<usize>)>,
    pub flds: Vec<Fld>,
    pub sortf: i64,
    pub tmpls: Vec<Tmpl>,
    pub model_db_entry_mod: i64,
    pub latex_post: String,
    pub model_db_entry_type: i64,
    pub id: String,
    pub css: String,
    pub latex_pre: String,
}

} // verus!
