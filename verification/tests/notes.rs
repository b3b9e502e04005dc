//! Note construction, validation, identifiers, and field hygiene.

use genanki_rs::{
    contains_str, find_invalid_html_tags_in_field, guid_for, Deck, Error, Field, Model, Note,
    Package, Template,
};

#[test]
fn ok() {
    let my_model = Model::new(
        1376484377,
        "Simple Model",
        vec![Field::new("Question"), Field::new("Answer")],
        vec![Template::new("Card 1")
            .qfmt("{{Question}}")
            .afmt(r#"{{FrontSide}}<hr id="answer">{{Answer}}"#)],
    );
    let my_note = Note::new(my_model, vec!["Capital of Argentina", "Buenos Aires"]).unwrap();
    let mut deck = Deck::new(0, "test deck", "");
    deck.add_note(my_note);
    let package = Package::new(vec![deck], vec![]).unwrap();
    package
        .pack_timestamp_millis(&vec![], 1700000000000)
        .unwrap();
}

#[test]
fn tags_new() {
    let _ = Note::new_with_options(
        Model::new(0, "test", vec![], vec![]),
        vec![],
        None,
        Some(vec!["foo", "bar", "baz"]),
        None,
    )
    .unwrap();
}

#[test]
#[should_panic]
fn tags_new_panic() {
    let _ = Note::new_with_options(
        Model::new(0, "test", vec![], vec![]),
        vec![],
        None,
        Some(vec!["fo o", "bar", "baz"]),
        None,
    )
    .unwrap();
}

#[test]
fn num_fields_equals_model_ok() {
    let model = Model::new(
        1894808898,
        "Test Model",
        vec![
            Field::new("Question"),
            Field::new("Answer"),
            Field::new("Extra"),
        ],
        vec![Template::new("Card 1")
            .qfmt("{{Question}}")
            .afmt(r#"{{FrontSide}}<hr id="answer">{{Answer}}"#)],
    );

    let note = Note::new(
        model,
        vec![
            "Capital of Germany",
            "Berlin",
            "Berlin was divided by a wall until 1989",
        ],
    )
    .unwrap();
    let mut deck = Deck::new(0, "test deck", "");
    deck.add_note(note);
    let package = Package::new(vec![deck], vec![]).unwrap();
    package
        .pack_timestamp_millis(&vec![], 1700000000000)
        .unwrap();
}

#[test]
#[should_panic]
fn num_fields_less_than_model_panic() {
    let model = Model::new(
        1894808898,
        "Test Model",
        vec![
            Field::new("Question"),
            Field::new("Answer"),
            Field::new("Extra"),
        ],
        vec![Template::new("Card 1")
            .qfmt("{{Question}}")
            .afmt(r#"{{FrontSide}}<hr id="answer">{{Answer}}"#)],
    );

    let _ = Note::new(model, vec!["Capital of Germany", "Berlin"]).unwrap();
}

#[test]
#[should_panic]
fn num_fields_more_than_model_panic() {
    let model = Model::new(
        1894808898,
        "Test Model",
        vec![Field::new("Question"), Field::new("Answer")],
        vec![Template::new("Card 1")
            .qfmt("{{Question}}")
            .afmt(r#"{{FrontSide}}<hr id="answer">{{Answer}}"#)],
    );

    let _ = Note::new(
        model,
        vec![
            "Capital of Germany",
            "Berlin",
            "Berlin was divided by a wall until 1989",
        ],
    )
    .unwrap();
}

#[test]
fn field_count_mismatch_error_names_both_counts() {
    let model = Model::new(
        7,
        "two fields",
        vec![Field::new("Question"), Field::new("Answer")],
        vec![Template::new("Card 1").qfmt("{{Question}}")],
    );
    let result = Note::new(model, vec!["a", "b", "c"]);
    assert!(matches!(
        result,
        Err(Error::ModelFieldCountMismatch(2, 3))
    ));
}

#[test]
fn whitespace_tag_error_value() {
    let result = Note::new_with_options(
        Model::new(0, "test", vec![], vec![]),
        vec![],
        None,
        Some(vec!["bad tag"]),
        None,
    );
    assert!(matches!(result, Err(Error::TagContainsWhitespace)));
}

#[test]
fn find_invalid_html_tags_in_field_ok() {
    assert_eq!(
        find_invalid_html_tags_in_field("<h1>"),
        Vec::<String>::new()
    );
}

#[test]
fn find_invalid_html_tags_in_field_ok_with_space() {
    assert_eq!(
        find_invalid_html_tags_in_field(" <h1> "),
        Vec::<String>::new()
    );
}

#[test]
fn find_invalid_html_tags_in_field_ok_multiple() {
    assert_eq!(
        find_invalid_html_tags_in_field("<h1>test</h1>"),
        Vec::<String>::new()
    );
}

#[test]
fn find_invalid_html_tags_in_field_ok_br() {
    assert_eq!(
        find_invalid_html_tags_in_field("<br>"),
        Vec::<String>::new()
    );
}

#[test]
fn find_invalid_html_tags_in_field_ok_br2() {
    assert_eq!(
        find_invalid_html_tags_in_field("<br/>"),
        Vec::<String>::new()
    );
}

#[test]
fn find_invalid_html_tags_in_field_ok_br3() {
    assert_eq!(
        find_invalid_html_tags_in_field("<br />"),
        Vec::<String>::new()
    );
}

#[test]
fn find_invalid_html_tags_in_field_ok_attrs() {
    assert_eq!(
        find_invalid_html_tags_in_field(r#"<h1 style="color: red">STOP</h1>"#),
        Vec::<String>::new()
    );
}

#[test]
fn find_invalid_html_tags_in_field_ng_empty() {
    assert_eq!(
        find_invalid_html_tags_in_field(" hello <> goodbye"),
        vec!["<>"]
    );
}

#[test]
fn find_invalid_html_tags_in_field_ng_empty_space() {
    assert_eq!(
        find_invalid_html_tags_in_field(" hello < > goodbye"),
        vec!["< >"]
    );
}

#[test]
fn find_invalid_html_tags_in_field_ng_invalid_characters() {
    assert_eq!(find_invalid_html_tags_in_field("<@h1>"), vec!["<@h1>"]);
}

#[test]
fn find_invalid_html_tags_in_field_ng_invalid_characters_end() {
    assert_eq!(find_invalid_html_tags_in_field("<h1@>"), vec!["<h1@>"]);
}

#[test]
fn option_builder() {
    // Make sure we can call the different builder-style methods on Note.
    // Doesn't actually verify any behavior though.
    let model = Model::new(
        1234,
        "model",
        vec![Field::new("a"), Field::new("b")],
        vec![Template::new("template")],
    );
    let _note = Note::new(model, vec!["a", "b"])
        .unwrap()
        .guid("1234")
        .tags(vec!["tag_a".to_string()])
        .with_tag("tag_b")
        .sort_field(true);
}

#[test]
fn guid_concatenates_field_hashes() {
    let fields = vec!["first".to_string(), "second".to_string()];
    let guid = guid_for(&fields);

    let mut expected = String::new();
    for f in &fields {
        let mut h = std::collections::hash_map::DefaultHasher::new();
        std::hash::Hash::hash(f, &mut h);
        expected.push_str(&std::hash::Hasher::finish(&h).to_string());
    }
    assert_eq!(guid, expected);
}

#[test]
fn guid_changes_with_field_values() {
    let a = guid_for(&vec!["one".to_string()]);
    let b = guid_for(&vec!["two".to_string()]);
    assert_ne!(a, b);
}

#[test]
fn contains_str_matches_substrings() {
    assert!(contains_str("hello world", "o wor"));
    assert!(contains_str("hello", ""));
    assert!(!contains_str("hello", "world"));
    assert!(!contains_str("ab", "abc"));
}
