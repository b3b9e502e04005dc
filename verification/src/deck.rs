//! Decks: named, owned collections of notes.

use crate::db_entries::{DeckDbEntry, TodayPair};
use crate::json::{append_json_bool, append_json_int, append_json_string, json_bool, json_str_of};
use crate::note::Note;
use crate::text::{dec_of_int, push_char};
use vstd::prelude::*;

verus! {

/// A deck: an identifier, a name, a description, and the notes it owns. The
/// set of note-types its notes reference is derived at packaging time.
#[derive(Clone, Debug)]
pub struct Deck {
    pub id: i64,
    pub name: String,
    pub description: String,
    pub notes: Vec<Note>,
}

impl Deck {
    /// Creates an empty deck with an `id` (unique among the decks of one
    /// package), a `name` and a `description`.
    pub fn new(id: i64, name: &str, description: &str) -> (d: Deck)
        ensures
            d.id == id,
            d.name@ == name@,
            d.description@ == description@,
            d.notes@.len() == 0,
    {
        Deck { id, name: name.to_owned(), description: description.to_owned(), notes: Vec::new() }
    }

    /// Adds a note to the deck.
    pub fn add_note(&mut self, note: Note)
        ensures
            final(self).notes@ == old(self).notes@.push(note),
            final(self).id == old(self).id,
            final(self).name == old(self).name,
            final(self).description == old(self).description,
    {
        self.notes.push(note);
    }

    /// The deck's row in the serialized deck catalog: its identity plus the
    /// fixed review-state defaults of a fresh deck.
    pub fn to_deck_db_entry(&self) -> (e: DeckDbEntry)
        ensures
            e == spec_deck_db_entry(*self),
    {
        DeckDbEntry {
            collapsed: false,
            conf: 1,
            desc: self.description.clone(),
            deck_db_entry_dyn: 0,
            extend_new: 0,
            extend_rev: 50,
            id: self.id,
            lrn_today: TodayPair { day: 163, amount: 2 },
            deck_db_entry_mod: 1425278051,
            name: self.name.clone(),
            new_today: TodayPair { day: 163, amount: 2 },
            rev_today: TodayPair { day: 163, amount: 0 },
            time_today: TodayPair { day: 163, amount: 23598 },
            usn: -1,
        }
    }
}

/// The deck-catalog row that `to_deck_db_entry` derives.
pub open spec fn spec_deck_db_entry(d: Deck) -> DeckDbEntry {
    DeckDbEntry {
        collapsed: false,
        conf: 1,
        desc: d.description,
        deck_db_entry_dyn: 0,
        extend_new: 0,
        extend_rev: 50,
        id: d.id,
        lrn_today: TodayPair { day: 163, amount: 2 },
        deck_db_entry_mod: 1425278051,
        name: d.name,
        new_today: TodayPair { day: 163, amount: 2 },
        rev_today: TodayPair { day: 163, amount: 0 },
        time_today: TodayPair { day: 163, amount: 23598 },
        usn: -1i64,
    }
}

/// The JSON text of a day-indexed counter pair.
pub open spec fn spec_pair_json(p: TodayPair) -> Seq<char> {
    seq!['['] + dec_of_int(p.day as int) + seq![','] + dec_of_int(p.amount as int) + seq![']']
}

/// The JSON text of a deck-catalog row.
pub open spec fn spec_deck_json(e: DeckDbEntry) -> Seq<char> {
    "{\"collapsed\":"@ + json_bool(e.collapsed) + ",\"conf\":"@ + dec_of_int(e.conf as int)
        + ",\"desc\":"@ + json_str_of(e.desc@) + ",\"dyn\":"@ + dec_of_int(
        e.deck_db_entry_dyn as int,
    ) + ",\"extendNew\":"@ + dec_of_int(e.extend_new as int) + ",\"extendRev\":"@ + dec_of_int(
        e.extend_rev as int,
    ) + ",\"id\":"@ + dec_of_int(e.id as int) + ",\"lrnToday\":"@ + spec_pair_json(e.lrn_today)
        + ",\"mod\":"@ + dec_of_int(e.deck_db_entry_mod as int) + ",\"name\":"@ + json_str_of(
        e.name@,
    ) + ",\"newToday\":"@ + spec_pair_json(e.new_today) + ",\"revToday\":"@ + spec_pair_json(
        e.rev_today,
    ) + ",\"timeToday\":"@ + spec_pair_json(e.time_today) + ",\"usn\":"@ + dec_of_int(e.usn as int)
        + seq!['}']
}

fn append_pair_json(out: &mut String, p: &TodayPair)
    ensures
        final(out)@ == old(out)@ + spec_pair_json(*p),
{
    let ghost start = out@;
    push_char(out, '[');
    append_json_int(out, p.day);
    push_char(out, ',');
    append_json_int(out, p.amount);
    push_char(out, ']');
    proof {
        assert(out@ =~= start + spec_pair_json(*p));
    }
}

/// Writes the JSON text of a deck-catalog row.
pub(crate) fn deck_entry_json(e: &DeckDbEntry) -> (r: String)
    ensures
        r@ == spec_deck_json(*e),
{
    let mut out = String::new();
    out.append("{\"collapsed\":");
    append_json_bool(&mut out, e.collapsed);
    out.append(",\"conf\":");
    append_json_int(&mut out, e.conf);
    out.append(",\"desc\":");
    append_json_string(&mut out, e.desc.as_str());
    out.append(",\"dyn\":");
    append_json_int(&mut out, e.deck_db_entry_dyn);
    out.append(",\"extendNew\":");
    append_json_int(&mut out, e.extend_new);
    out.append(",\"extendRev\":");
    append_json_int(&mut out, e.extend_rev);
    out.append(",\"id\":");
    append_json_int(&mut out, e.id);
    out.append(",\"lrnToday\":");
    append_pair_json(&mut out, &e.lrn_today);
    out.append(",\"mod\":");
    append_json_int(&mut out, e.deck_db_entry_mod);
    out.append(",\"name\":");
    append_json_string(&mut out, e.name.as_str());
    out.append(",\"newToday\":");
    append_pair_json(&mut out, &e.new_today);
    out.append(",\"revToday\":");
    append_pair_json(&mut out, &e.rev_today);
    out.append(",\"timeToday\":");
    append_pair_json(&mut out, &e.time_today);
    out.append(",\"usn\":");
    append_json_int(&mut out, e.usn);
    push_char(&mut out, '}');
    proof {
        assert(out@ =~= spec_deck_json(*e));
    }
    out
}

} // verus!
