//! Packing and reading back the archive: deck and note-type catalogs, note
//! and card rows, identifiers, and the media manifest.

use genanki_rs::{
    basic_and_reversed_card_model, basic_model, basic_type_in_the_answer_model, cloze_model, Deck,
    Error, Field, MediaFile, Model, Note, Package, Template,
};

const TS: u64 = 1700000000000;

fn model() -> Model {
    Model::new(
        234567,
        "foomodel",
        vec![Field::new("AField"), Field::new("BField")],
        vec![Template::new("card1")
            .qfmt("{{AField}}")
            .afmt(r#"{{FrontSide}}<hr id="answer">{{BField}}"#)],
    )
}

fn cn_model() -> Model {
    Model::new(
        345678,
        "Chinese",
        vec![
            Field::new("Traditional"),
            Field::new("Simplified"),
            Field::new("English"),
        ],
        vec![
            Template::new("Traditional")
                .qfmt("{{Traditional}}")
                .afmt(r#"{{FrontSide}}<hr id="answer">{{English}}"#),
            Template::new("Simplified")
                .qfmt("{{Simplified}}")
                .afmt(r#"{{FrontSide}}<hr id="answer">{{English}}"#),
        ],
    )
}

fn zip_entry(apkg: &[u8], name: &str) -> Vec<u8> {
    let mut archive = zip::ZipArchive::new(std::io::Cursor::new(apkg.to_vec())).unwrap();
    let mut file = archive.by_name(name).unwrap();
    let mut bytes = Vec::new();
    std::io::Read::read_to_end(&mut file, &mut bytes).unwrap();
    bytes
}

fn open_collection(apkg: &[u8]) -> rusqlite::Connection {
    let bytes = zip_entry(apkg, "collection.anki2");
    let mut conn = rusqlite::Connection::open_in_memory().unwrap();
    conn.deserialize_read_exact(rusqlite::MAIN_DB, bytes.as_slice(), bytes.len(), true)
        .unwrap();
    conn
}

fn count(conn: &rusqlite::Connection, sql: &str) -> i64 {
    conn.query_row(sql, [], |row| row.get::<_, i64>(0)).unwrap()
}

fn col_field(conn: &rusqlite::Connection, field: &str) -> serde_json::Value {
    let text: String = conn
        .query_row(&format!("SELECT {} FROM col", field), [], |row| row.get(0))
        .unwrap();
    serde_json::from_str(&text).unwrap()
}

#[test]
fn generated_deck_can_be_imported() {
    let mut deck = Deck::new(123456, "foodeck", "");
    deck.add_note(Note::new(model(), vec!["a", "b"]).unwrap());
    let package = Package::new(vec![deck], vec![]).unwrap();
    let apkg = package.pack_timestamp_millis(&vec![], TS).unwrap();
    let conn = open_collection(&apkg);
    let decks = col_field(&conn, "decks");
    let names: std::collections::HashSet<String> = decks
        .as_object()
        .unwrap()
        .values()
        .map(|d| d["name"].as_str().unwrap().to_string())
        .collect();
    assert_eq!(decks.as_object().unwrap().len(), 2);
    assert!(names.contains("Default"));
    assert!(names.contains("foodeck"));
}

#[test]
fn generated_deck_has_valid_cards() {
    let mut deck = Deck::new(123456, "foodeck", "");
    deck.add_note(Note::new(cn_model(), vec!["a", "b", "c"]).unwrap());
    deck.add_note(Note::new(cn_model(), vec!["d", "e", "f"]).unwrap());
    deck.add_note(Note::new(cn_model(), vec!["g", "h", "i"]).unwrap());
    let package = Package::new(vec![deck], vec![]).unwrap();
    let apkg = package.pack_timestamp_millis(&vec![], TS).unwrap();
    let conn = open_collection(&apkg);
    assert_eq!(count(&conn, "SELECT COUNT(*) FROM cards"), 6);
}

#[test]
fn multi_deck_package() {
    let mut deck1 = Deck::new(123456, "foodeck", "");
    let mut deck2 = Deck::new(654321, "bardeck", "");
    let note = Note::new(model(), vec!["a", "b"]).unwrap();
    deck1.add_note(note.clone());
    deck2.add_note(note);
    let package = Package::new(vec![deck1, deck2], vec![]).unwrap();
    let apkg = package.pack_timestamp_millis(&vec![], TS).unwrap();
    let conn = open_collection(&apkg);
    let decks = col_field(&conn, "decks");
    assert_eq!(decks.as_object().unwrap().len(), 3);
}

#[test]
fn deck_with_description() {
    let mut deck = Deck::new(112233, "foodeck", "Very nice deck");
    let note = Note::new(model(), vec!["a", "b"]).unwrap();
    deck.add_note(note);
    let package = Package::new(vec![deck], vec![]).unwrap();
    let apkg = package.pack_timestamp_millis(&vec![], TS).unwrap();
    let conn = open_collection(&apkg);
    let decks = col_field(&conn, "decks");
    assert_eq!(decks.as_object().unwrap().len(), 2);
    assert!(decks
        .as_object()
        .unwrap()
        .values()
        .any(|d| d["desc"] == "Very nice deck"));
}

#[test]
fn card_added_date_is_recent() {
    let mut deck = Deck::new(1104693946, "foodeck", "");
    let note = Note::new(model(), vec!["a", "b"]).unwrap();
    deck.add_note(note);
    let package = Package::new(vec![deck], vec![]).unwrap();
    let apkg = package.pack_millis(&vec![]).unwrap();
    let conn = open_collection(&apkg);
    let card_id = count(&conn, "SELECT id FROM cards");
    assert!(card_id > 1577836800000);
}

const CUSTOM_LATEX_PRE: &str = r#"\documentclass[12pt]{article}
    \special{papersize=3in,5in}
    \usepackage[utf8]{inputenc}
    \usepackage{amssymb,amsmath,amsfonts}
    \pagestyle{empty}
    \setlength{\parindent}{0in}
    \begin{document}
    "#;

const CUSTOM_LATEX_POST: &str = "% here is a great comment\n\\end{document}";

#[test]
fn model_with_latex_pre_and_post() {
    let latex_model = Model::new_with_options(
        567890,
        "with latex",
        vec![Field::new("AField"), Field::new("Bfield")],
        vec![Template::new("card1")
            .qfmt("{{AField}}")
            .afmt(r#"{{FrontSide}}<hr id="answer">{{BField}}"#)],
        None,
        None,
        Some(CUSTOM_LATEX_PRE),
        Some(CUSTOM_LATEX_POST),
        None,
    );
    let mut deck = Deck::new(69696969696, "foodeck", "");
    deck.add_note(Note::new(latex_model, vec!["a", "b"]).unwrap());
    let package = Package::new(vec![deck], vec![]).unwrap();
    let apkg = package.pack_timestamp_millis(&vec![], TS).unwrap();
    let conn = open_collection(&apkg);
    let models = col_field(&conn, "models");
    let entry = models.as_object().unwrap().values().next().unwrap();
    assert_eq!(entry["latexPre"], CUSTOM_LATEX_PRE);
    assert_eq!(entry["latexPost"], CUSTOM_LATEX_POST);
}

#[test]
fn test_model_with_sort_field_index() {
    let sorted_model = Model::new_with_options(
        567890,
        "with latex",
        vec![Field::new("AField"), Field::new("Bfield")],
        vec![Template::new("card1")
            .qfmt("{{AField}}")
            .afmt(r#"{{FrontSide}}<hr id="answer">{{BField}}"#)],
        None,
        None,
        None,
        None,
        Some(1),
    );
    let mut deck = Deck::new(1104693946, "foodeck", "");
    deck.add_note(Note::new(sorted_model, vec!["a", "b"]).unwrap());
    let package = Package::new(vec![deck], vec![]).unwrap();
    let apkg = package.pack_timestamp_millis(&vec![], TS).unwrap();
    let conn = open_collection(&apkg);
    let models = col_field(&conn, "models");
    let entry = models.as_object().unwrap().values().next().unwrap();
    assert_eq!(entry["sortf"], 1);
}

#[test]
fn builtin_models() {
    let mut my_deck = Deck::new(1598559905, "Country Capitals", "");

    my_deck.add_note(
        Note::new(basic_model(), vec!["Capital of Argentina", "Buenos Aires"]).unwrap(),
    );
    my_deck.add_note(
        Note::new(
            basic_and_reversed_card_model(),
            vec!["Costa Rica", "San José"],
        )
        .unwrap(),
    );
    my_deck.add_note(
        Note::new(basic_type_in_the_answer_model(), vec!["Taiwan", "Taipei"]).unwrap(),
    );
    my_deck.add_note(
        Note::new(
            cloze_model(),
            vec!["{{c1::Rome}} is the capital of {{c2::Italy}}"],
        )
        .unwrap(),
    );

    let package = Package::new(vec![my_deck], vec![]).unwrap();
    package.pack_timestamp_millis(&vec![], TS).unwrap();
}

#[test]
fn round_trip_preserves_note_and_card_counts() {
    let mut deck = Deck::new(5555, "trip", "");
    let notes = vec![
        Note::new(cn_model(), vec!["a", "b", "c"]).unwrap(),
        Note::new(cn_model(), vec!["d", "", "f"]).unwrap(),
        Note::new(model(), vec!["x", "y"]).unwrap(),
    ];
    let predicted_cards: usize = notes.iter().map(|n| n.cards().len()).sum();
    let note_count = notes.len();
    for note in notes {
        deck.add_note(note);
    }
    let package = Package::new(vec![deck], vec![]).unwrap();
    let apkg = package.pack_timestamp_millis(&vec![], TS).unwrap();
    let conn = open_collection(&apkg);
    assert_eq!(
        count(&conn, "SELECT COUNT(*) FROM notes"),
        note_count as i64
    );
    assert_eq!(
        count(&conn, "SELECT COUNT(*) FROM cards"),
        predicted_cards as i64
    );
}

#[test]
fn primary_keys_unique_across_decks() {
    let mut deck1 = Deck::new(1, "one", "");
    let mut deck2 = Deck::new(2, "two", "");
    deck1.add_note(Note::new(cn_model(), vec!["a", "b", "c"]).unwrap());
    deck1.add_note(Note::new(model(), vec!["q", "r"]).unwrap());
    deck2.add_note(Note::new(cn_model(), vec!["d", "e", "f"]).unwrap());
    let package = Package::new(vec![deck1, deck2], vec![]).unwrap();
    let apkg = package.pack_timestamp_millis(&vec![], TS).unwrap();
    let conn = open_collection(&apkg);
    for table in ["notes", "cards"] {
        let mut stmt = conn
            .prepare(&format!("SELECT id FROM {}", table))
            .unwrap();
        let ids: Vec<i64> = stmt
            .query_map([], |row| row.get(0))
            .unwrap()
            .map(|r| r.unwrap())
            .collect();
        let distinct: std::collections::HashSet<i64> = ids.iter().copied().collect();
        assert_eq!(ids.len(), distinct.len());
        assert!(!ids.is_empty());
    }
}

#[test]
fn media_manifest_keys_are_numeric_indices() {
    let mut deck = Deck::new(77, "media deck", "");
    deck.add_note(Note::new(model(), vec!["a", "b"]).unwrap());
    let media = vec![
        MediaFile::new_from_bytes(b"fake mp3 bytes", "sound.mp3"),
        MediaFile::new_from_bytes(b"fake jpg bytes", "image.jpg"),
    ];
    let package = Package::new_from_memory(vec![deck], media).unwrap();
    let apkg = package.pack_timestamp_millis(&vec![vec![], vec![]], TS).unwrap();

    let manifest: serde_json::Value =
        serde_json::from_slice(&zip_entry(&apkg, "media")).unwrap();
    let map = manifest.as_object().unwrap();
    assert_eq!(map.len(), 2);
    assert_eq!(map["0"], "sound.mp3");
    assert_eq!(map["1"], "image.jpg");
    assert_eq!(zip_entry(&apkg, "0"), b"fake mp3 bytes");
    assert_eq!(zip_entry(&apkg, "1"), b"fake jpg bytes");
}

#[test]
fn empty_medium_produces_empty_entry() {
    let mut deck = Deck::new(80, "media deck", "");
    deck.add_note(Note::new(model(), vec!["a", "b"]).unwrap());
    let media = vec![MediaFile::new_from_bytes(b"", "empty.bin")];
    let package = Package::new_from_memory(vec![deck], media).unwrap();
    let apkg = package.pack_timestamp_millis(&vec![vec![]], TS).unwrap();
    let manifest: serde_json::Value =
        serde_json::from_slice(&zip_entry(&apkg, "media")).unwrap();
    assert_eq!(manifest.as_object().unwrap()["0"], "empty.bin");
    assert_eq!(zip_entry(&apkg, "0"), b"");
}

#[test]
fn media_manifest_reduces_absolute_paths_to_base_names() {
    let mut deck = Deck::new(78, "media deck", "");
    deck.add_note(Note::new(model(), vec!["a", "b"]).unwrap());
    let package = Package::new(vec![deck], vec!["/tmp/somewhere/present.mp3"]).unwrap();
    let apkg = package
        .pack_timestamp_millis(&vec![b"mp3 data".to_vec()], TS)
        .unwrap();

    let manifest: serde_json::Value =
        serde_json::from_slice(&zip_entry(&apkg, "media")).unwrap();
    assert_eq!(manifest.as_object().unwrap()["0"], "present.mp3");
    assert_eq!(zip_entry(&apkg, "0"), b"mp3 data");
}

#[test]
fn media_path_without_base_name_is_rejected() {
    let mut deck = Deck::new(79, "media deck", "");
    deck.add_note(Note::new(model(), vec!["a", "b"]).unwrap());
    let package = Package::new(vec![deck], vec!["somewhere/"]).unwrap();
    let result = package.pack_timestamp_millis(&vec![vec![]], TS);
    assert!(matches!(result, Err(Error::MalformedMediaPath(_))));
}

#[test]
fn pinned_timestamp_gives_identical_archives() {
    let build = || {
        let mut deck = Deck::new(4242, "repeat", "same deck");
        deck.add_note(Note::new(cn_model(), vec!["a", "b", "c"]).unwrap());
        deck.add_note(Note::new(model(), vec!["x", "y"]).unwrap());
        Package::new(vec![deck], vec![]).unwrap()
    };
    let first = build().pack_timestamp_millis(&vec![], TS).unwrap();
    let second = build().pack_timestamp_millis(&vec![], TS).unwrap();
    assert_eq!(first, second);
}

#[test]
fn snapshot_assigns_sequential_identifiers() {
    let mut deck = Deck::new(1, "one", "");
    deck.add_note(Note::new(cn_model(), vec!["a", "b", "c"]).unwrap());
    deck.add_note(Note::new(model(), vec!["x", "y"]).unwrap());
    let snap = genanki_rs::snapshot::build_snapshot(&vec![deck], TS).unwrap();
    assert_eq!(snap.notes.len(), 2);
    assert_eq!(snap.cards.len(), 3);
    let seed = TS as i64;
    assert_eq!(snap.notes[0].id, seed);
    assert_eq!(snap.cards[0].id, seed + 1);
    assert_eq!(snap.cards[1].id, seed + 2);
    assert_eq!(snap.notes[1].id, seed + 3);
    assert_eq!(snap.cards[2].id, seed + 4);
    assert_eq!(snap.cards[0].nid, snap.notes[0].id);
    assert_eq!(snap.cards[1].nid, snap.notes[0].id);
    assert_eq!(snap.cards[2].nid, snap.notes[1].id);
    assert_eq!(snap.notes[0].flds, "a\u{1f}b\u{1f}c");
    assert_eq!(snap.notes[0].mid, 345678);
    assert_eq!(snap.cards[0].did, 1);
}

#[test]
fn note_rows_store_fields_and_guid() {
    let mut deck = Deck::new(91, "content", "");
    let note = Note::new(model(), vec!["front text", "back text"]).unwrap();
    let guid = note.guid.clone();
    deck.add_note(note);
    let package = Package::new(vec![deck], vec![]).unwrap();
    let apkg = package.pack_timestamp_millis(&vec![], TS).unwrap();
    let conn = open_collection(&apkg);
    let (db_guid, flds, tags): (String, String, String) = conn
        .query_row("SELECT guid, flds, tags FROM notes", [], |row| {
            Ok((row.get(0)?, row.get(1)?, row.get(2)?))
        })
        .unwrap();
    assert_eq!(db_guid, guid);
    assert_eq!(flds, "front text\u{1f}back text");
    assert_eq!(tags, "  ");
}

#[test]
fn requirement_records_reach_the_catalog() {
    let mut deck = Deck::new(92, "req", "");
    deck.add_note(Note::new(cn_model(), vec!["a", "b", "c"]).unwrap());
    let package = Package::new(vec![deck], vec![]).unwrap();
    let apkg = package.pack_timestamp_millis(&vec![], TS).unwrap();
    let conn = open_collection(&apkg);
    let models = col_field(&conn, "models");
    let entry = &models.as_object().unwrap()["345678"];
    let req: Vec<(usize, String, Vec<usize>)> =
        serde_json::from_value(entry["req"].clone()).unwrap();
    assert_eq!(
        req,
        vec![
            (0, "all".to_string(), vec![0]),
            (1, "all".to_string(), vec![1])
        ]
    );
    assert_eq!(entry["flds"][0]["ord"], 0);
    assert_eq!(entry["flds"][1]["ord"], 1);
    assert_eq!(entry["tmpls"][0]["ord"], 0);
    assert_eq!(entry["tmpls"][1]["ord"], 1);
}
