//! Requirement inference over question patterns.

use genanki_rs::{Error, Field, Model, Template};

fn model() -> Model {
    Model::new(
        234567,
        "foomodel",
        vec![Field::new("AField"), Field::new("BField")],
        vec![Template::new("card1")
            .qfmt("{{AField}}")
            .afmt(r#"{{FrontSide}}<hr id="answer">{{BField}}"#)],
    )
}

fn cn_model() -> Model {
    Model::new(
        345678,
        "Chinese",
        vec![
            Field::new("Traditional"),
            Field::new("Simplified"),
            Field::new("English"),
        ],
        vec![
            Template::new("Traditional")
                .qfmt("{{Traditional}}")
                .afmt(r#"{{FrontSide}}<hr id="answer">{{English}}"#),
            Template::new("Simplified")
                .qfmt("{{Simplified}}")
                .afmt(r#"{{FrontSide}}<hr id="answer">{{English}}"#),
        ],
    )
}

fn model_with_hint() -> Model {
    Model::new(
        456789,
        "with hint",
        vec![
            Field::new("Question"),
            Field::new("Hint"),
            Field::new("Answer"),
        ],
        vec![Template::new("card1")
            .qfmt("{{Question}}{{#Hint}}<br>Hint: {{Hint}}{{/Hint}}")
            .afmt("{{Answer}}")],
    )
}

#[test]
fn model_req() {
    let req = model().req().unwrap();
    assert_eq!(req, vec![(0, "all".to_string(), vec![0])]);
}

#[test]
fn model_req_cn() {
    let req = cn_model().req().unwrap();
    assert_eq!(
        req,
        vec![
            (0, "all".to_string(), vec![0]),
            (1, "all".to_string(), vec![1])
        ]
    );
}

#[test]
fn model_req_with_hint() {
    let req = model_with_hint().req().unwrap();
    assert_eq!(req, vec![(0, "any".to_string(), vec![0, 1])]);
}

#[test]
fn req_one_record_per_template_with_nonempty_rule() {
    let req = cn_model().req().unwrap();
    assert_eq!(req.len(), 2);
    for (ord, record) in req.iter().enumerate() {
        assert_eq!(record.0, ord);
        assert!(record.1 == "all" || record.1 == "any");
        assert!(!record.2.is_empty());
    }
}

#[test]
fn req_rejects_template_without_any_substitution() {
    let model = Model::new(
        111,
        "fieldless",
        vec![],
        vec![Template::new("card1").qfmt("static question")],
    );
    assert!(matches!(model.req(), Err(Error::TemplateFormat(_))));
}

#[test]
fn req_reports_malformed_markup() {
    let model = Model::new(
        112,
        "broken",
        vec![Field::new("A")],
        vec![Template::new("card1").qfmt("{{#A}}mismatched{{/B}}")],
    );
    assert!(matches!(model.req(), Err(Error::Template(_))));
}
