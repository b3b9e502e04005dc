//! The fixed schema of the embedded collection database. Every statement and
//! configuration blob here has its exact text stated, so that callers know
//! precisely what reaches the database engine.

use vstd::prelude::*;

verus! {

/// The text of the collection schema batch.
pub open spec fn spec_apkg_schema() -> Seq<char> {
    "PRAGMA foreign_keys=off;\nBEGIN TRANSACTION;\nCREATE TABLE col (\n  id integer primary key,\n  crt integer not null,\n  mod integer not null,\n  scm integer not null,\n  ver integer not null,\n  dty integer not null,\n  usn integer not null,\n  ls integer not null,\n  conf text not null,\n  models text not null,\n  decks text not null,\n  dconf text not null,\n  tags text not null\n);\nCREATE TABLE notes (\n  id integer primary key,\n  guid text not null,\n  mid integer not null,\n  mod integer not null,\n  usn integer not null,\n  tags text not null,\n  flds text not null,\n  sfld integer not null,\n  csum integer not null,\n  flags integer not null,\n  data text not null\n);\nCREATE TABLE cards (\n  id integer primary key,\n  nid integer not null,\n  did integer not null,\n  ord integer not null,\n  mod integer not null,\n  usn integer not null,\n  type integer not null,\n  queue integer not null,\n  due integer not null,\n  ivl integer not null,\n  factor integer not null,\n  reps integer not null,\n  lapses integer not null,\n  left integer not null,\n  odue integer not null,\n  odid integer not null,\n  flags integer not null,\n  data text not null\n);\nCREATE TABLE revlog (\n  id integer primary key,\n  cid integer not null,\n  usn integer not null,\n  ease integer not null,\n  ivl integer not null,\n  lastIvl integer not null,\n  factor integer not null,\n  time integer not null,\n  type integer not null\n);\nCREATE TABLE graves (\n  usn integer not null,\n  oid integer not null,\n  type integer not null\n);\nCREATE INDEX ix_notes_usn on notes (usn);\nCREATE INDEX ix_cards_usn on cards (usn);\nCREATE INDEX ix_revlog_usn on revlog (usn);\nCREATE INDEX ix_cards_nid on cards (nid);\nCREATE INDEX ix_cards_sched on cards (did, queue, due);\nCREATE INDEX ix_revlog_cid on revlog (cid);\nCREATE INDEX ix_notes_csum on notes (csum);\nCOMMIT;\n"@
}

/// The collection database schema the target flashcard application expects:
/// the singleton configuration table, the notes and cards tables, the
/// review log and the deletion log, with their indexes.
pub(crate) fn apkg_schema() -> (r: &'static str)
    ensures
        r@ == spec_apkg_schema(),
{
    "PRAGMA foreign_keys=off;\nBEGIN TRANSACTION;\nCREATE TABLE col (\n  id integer primary key,\n  crt integer not null,\n  mod integer not null,\n  scm integer not null,\n  ver integer not null,\n  dty integer not null,\n  usn integer not null,\n  ls integer not null,\n  conf text not null,\n  models text not null,\n  decks text not null,\n  dconf text not null,\n  tags text not null\n);\nCREATE TABLE notes (\n  id integer primary key,\n  guid text not null,\n  mid integer not null,\n  mod integer not null,\n  usn integer not null,\n  tags text not null,\n  flds text not null,\n  sfld integer not null,\n  csum integer not null,\n  flags integer not null,\n  data text not null\n);\nCREATE TABLE cards (\n  id integer primary key,\n  nid integer not null,\n  did integer not null,\n  ord integer not null,\n  mod integer not null,\n  usn integer not null,\n  type integer not null,\n  queue integer not null,\n  due integer not null,\n  ivl integer not null,\n  factor integer not null,\n  reps integer not null,\n  lapses integer not null,\n  left integer not null,\n  odue integer not null,\n  odid integer not null,\n  flags integer not null,\n  data text not null\n);\nCREATE TABLE revlog (\n  id integer primary key,\n  cid integer not null,\n  usn integer not null,\n  ease integer not null,\n  ivl integer not null,\n  lastIvl integer not null,\n  factor integer not null,\n  time integer not null,\n  type integer not null\n);\nCREATE TABLE graves (\n  usn integer not null,\n  oid integer not null,\n  type integer not null\n);\nCREATE INDEX ix_notes_usn on notes (usn);\nCREATE INDEX ix_cards_usn on cards (usn);\nCREATE INDEX ix_revlog_usn on revlog (usn);\nCREATE INDEX ix_cards_nid on cards (nid);\nCREATE INDEX ix_cards_sched on cards (did, queue, due);\nCREATE INDEX ix_revlog_cid on revlog (cid);\nCREATE INDEX ix_notes_csum on notes (csum);\nCOMMIT;\n"
}

/// The text of the configuration-row statement: fixed creation, version and
/// sync columns, with the five serialized blobs bound as parameters.
pub open spec fn spec_col_insert_sql() -> Seq<char> {
    "INSERT INTO col VALUES(1, 1411124400, 1425279151694, 1425279151690, 11, 0, 0, 0, ?, ?, ?, ?, ?);"@
}

/// The statement that writes the singleton configuration row; the serialized
/// configuration, note-type catalog, deck catalog, review options and tag
/// map are bound as parameters.
pub(crate) fn col_insert_sql() -> (r: &'static str)
    ensures
        r@ == spec_col_insert_sql(),
{
    "INSERT INTO col VALUES(1, 1411124400, 1425279151694, 1425279151690, 11, 0, 0, 0, ?, ?, ?, ?, ?);"
}

/// The text of the notes-row statement: the identifier, content identifier,
/// note-type, modification time, tags, joined fields and sort-field flag are
/// bound as parameters; the sync marker is -1 and the checksum, flags and
/// extra-data columns hold their neutral values.
pub open spec fn spec_note_insert_sql() -> Seq<char> {
    "INSERT INTO notes VALUES(?, ?, ?, ?, -1, ?, ?, ?, 0, 0, '');"@
}

/// The statement that writes one row of the notes table.
pub(crate) fn note_insert_sql() -> (r: &'static str)
    ensures
        r@ == spec_note_insert_sql(),
{
    "INSERT INTO notes VALUES(?, ?, ?, ?, -1, ?, ?, ?, 0, 0, '');"
}

/// The text of the cards-row statement: the identifier, note, deck, ordinal,
/// modification time and queue state are bound as parameters; the sync
/// marker is -1, the type discriminant 0, and every scheduling column holds
/// its neutral 0 (with empty extra data).
pub open spec fn spec_card_insert_sql() -> Seq<char> {
    "INSERT INTO cards VALUES(?, ?, ?, ?, ?, -1, 0, ?, 0, 0, 0, 0, 0, 0, 0, 0, 0, '');"@
}

/// The statement that writes one row of the cards table.
pub(crate) fn card_insert_sql() -> (r: &'static str)
    ensures
        r@ == spec_card_insert_sql(),
{
    "INSERT INTO cards VALUES(?, ?, ?, ?, ?, -1, 0, ?, 0, 0, 0, 0, 0, 0, 0, 0, 0, '');"
}

/// The fixed configuration blob of a fresh collection.
pub open spec fn spec_col_conf_json() -> Seq<char> {
    "{\"activeDecks\": [1], \"addToCur\": true, \"collapseTime\": 1200, \"curDeck\": 1, \"curModel\": \"1425279151953\", \"dueCounts\": true, \"estTimes\": true, \"newBury\": true, \"newSpread\": 0, \"nextPos\": 1, \"sortBackwards\": false, \"sortType\": \"noteFld\", \"timeLim\": 0}"@
}

/// The configuration blob of a fresh collection.
pub(crate) fn col_conf_json() -> (r: &'static str)
    ensures
        r@ == spec_col_conf_json(),
{
    "{\"activeDecks\": [1], \"addToCur\": true, \"collapseTime\": 1200, \"curDeck\": 1, \"curModel\": \"1425279151953\", \"dueCounts\": true, \"estTimes\": true, \"newBury\": true, \"newSpread\": 0, \"nextPos\": 1, \"sortBackwards\": false, \"sortType\": \"noteFld\", \"timeLim\": 0}"
}

/// The fixed review-options blob of a fresh collection.
pub open spec fn spec_col_dconf_json() -> Seq<char> {
    "{\"1\": {\"autoplay\": true, \"id\": 1, \"lapse\": {\"delays\": [10], \"leechAction\": 0, \"leechFails\": 8, \"minInt\": 1, \"mult\": 0}, \"maxTaken\": 60, \"mod\": 0, \"name\": \"Default\", \"new\": {\"bury\": true, \"delays\": [1, 10], \"initialFactor\": 2500, \"ints\": [1, 4, 7], \"order\": 1, \"perDay\": 20, \"separate\": true}, \"replayq\": true, \"rev\": {\"bury\": true, \"ease4\": 1.3, \"fuzz\": 0.05, \"ivlFct\": 1, \"maxIvl\": 36500, \"minSpace\": 1, \"perDay\": 100}, \"timer\": 0, \"usn\": 0}}"@
}

/// The review-options blob of a fresh collection.
pub(crate) fn col_dconf_json() -> (r: &'static str)
    ensures
        r@ == spec_col_dconf_json(),
{
    "{\"1\": {\"autoplay\": true, \"id\": 1, \"lapse\": {\"delays\": [10], \"leechAction\": 0, \"leechFails\": 8, \"minInt\": 1, \"mult\": 0}, \"maxTaken\": 60, \"mod\": 0, \"name\": \"Default\", \"new\": {\"bury\": true, \"delays\": [1, 10], \"initialFactor\": 2500, \"ints\": [1, 4, 7], \"order\": 1, \"perDay\": 20, \"separate\": true}, \"replayq\": true, \"rev\": {\"bury\": true, \"ease4\": 1.3, \"fuzz\": 0.05, \"ivlFct\": 1, \"maxIvl\": 36500, \"minSpace\": 1, \"perDay\": 100}, \"timer\": 0, \"usn\": 0}}"
}

/// The text of the built-in default deck's catalog entry.
pub open spec fn spec_default_deck_json() -> Seq<char> {
    "{\"collapsed\": false, \"conf\": 1, \"desc\": \"\", \"dyn\": 0, \"extendNew\": 10, \"extendRev\": 50, \"id\": 1, \"lrnToday\": [163, 2], \"mod\": 1425278051, \"name\": \"Default\", \"newToday\": [163, 2], \"revToday\": [163, 0], \"timeToday\": [163, 23598], \"usn\": -1}"@
}

/// The deck catalog's built-in default deck.
pub(crate) fn default_deck_json() -> (r: &'static str)
    ensures
        r@ == spec_default_deck_json(),
{
    "{\"collapsed\": false, \"conf\": 1, \"desc\": \"\", \"dyn\": 0, \"extendNew\": 10, \"extendRev\": 50, \"id\": 1, \"lrnToday\": [163, 2], \"mod\": 1425278051, \"name\": \"Default\", \"newToday\": [163, 2], \"revToday\": [163, 0], \"timeToday\": [163, 23598], \"usn\": -1}"
}

} // verus!
