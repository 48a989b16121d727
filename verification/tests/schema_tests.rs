use portfolio::content::{DataSchema, Entry};
use portfolio::schema::{encode_data, parse_data, SchemaError};

fn entry(name: &str, description: &str, link: &str) -> Entry {
    Entry {
        name: name.to_owned(),
        description: description.to_owned(),
        link: link.to_owned(),
        theme: None,
        date: None,
        stack: None,
        status: None,
    }
}

#[test]
fn decodes_the_empty_document() {
    let d = parse_data("{\"projects\":[],\"articles\":[],\"contacts\":[]}").unwrap();
    assert_eq!(d, DataSchema::default());
}

#[test]
fn decodes_records_in_order() {
    let text = "{\"projects\":[\
        {\"name\":\"a\",\"description\":\"da\",\"link\":\"la\"},\
        {\"name\":\"b\",\"description\":\"db\",\"link\":\"lb\",\"theme\":\"tb\"}],\
        \"articles\":[],\
        \"contacts\":[{\"name\":\"github\",\"description\":\"\",\"link\":\"gh\"}]}";
    let d = parse_data(text).unwrap();
    assert_eq!(d.projects.len(), 2);
    assert_eq!(d.projects[0].name, "a");
    assert_eq!(d.projects[1].name, "b");
    assert_eq!(d.projects[1].theme.as_deref(), Some("tb"));
    assert_eq!(d.articles.len(), 0);
    assert_eq!(d.contacts[0].link, "gh");
}

#[test]
fn missing_optional_and_null_optional_both_decode_to_none() {
    let text = "{\"projects\":[{\"name\":\"a\",\"description\":\"d\",\"link\":\"l\",\
        \"date\":null}],\"articles\":[],\"contacts\":[]}";
    let d = parse_data(text).unwrap();
    assert_eq!(d.projects[0].date, None);
    assert_eq!(d.projects[0].stack, None);
}

#[test]
fn unknown_fields_are_ignored() {
    let text = "{\"projects\":[{\"name\":\"a\",\"description\":\"d\",\"link\":\"l\",\
        \"extra\":{\"nested\":[1,2,{}]}}],\"articles\":[],\"contacts\":[],\"later\":0}";
    let d = parse_data(text).unwrap();
    assert_eq!(d.projects[0].name, "a");
}

#[test]
fn rejects_text_that_is_not_json() {
    assert_eq!(parse_data("not json"), Err(SchemaError::Malformed));
}

#[test]
fn rejects_missing_required_field() {
    let text = "{\"projects\":[{\"name\":\"a\",\"link\":\"l\"}],\"articles\":[],\"contacts\":[]}";
    assert_eq!(parse_data(text), Err(SchemaError::Malformed));
}

#[test]
fn rejects_mistyped_fields_wholesale() {
    let text = "{\"projects\":[{\"name\":3,\"description\":\"d\",\"link\":\"l\"}],\
        \"articles\":[],\"contacts\":[]}";
    assert_eq!(parse_data(text), Err(SchemaError::Malformed));
    let text2 = "{\"projects\":{},\"articles\":[],\"contacts\":[]}";
    assert_eq!(parse_data(text2), Err(SchemaError::Malformed));
    let text3 = "{\"articles\":[],\"contacts\":[]}";
    assert_eq!(parse_data(text3), Err(SchemaError::Malformed));
}

#[test]
fn round_trips_the_empty_document() {
    let d = DataSchema::default();
    let text = encode_data(&d);
    assert_eq!(text, "{\"projects\":[],\"articles\":[],\"contacts\":[]}");
    assert_eq!(parse_data(&text).unwrap(), d);
}

#[test]
fn round_trips_a_filled_document() {
    let mut a = entry("proj \"quoted\"", "desc\nline", "https://example.org/x?a=b");
    a.theme = Some("dark".to_owned());
    a.status = Some("done".to_owned());
    let b = entry("\u{30c4} unicode", "", "link");
    let d = DataSchema {
        projects: vec![a, b],
        articles: vec![entry("art", "d", "l")],
        contacts: vec![],
    };
    let text = encode_data(&d);
    assert_eq!(parse_data(&text).unwrap(), d);
}

#[test]
fn encoded_document_reads_as_json_elsewhere() {
    let d = DataSchema {
        projects: vec![entry("n", "d", "l")],
        articles: vec![],
        contacts: vec![],
    };
    let text = encode_data(&d);
    let v: serde_json::Value = serde_json::from_str(&text).unwrap();
    assert_eq!(v["projects"][0]["name"], serde_json::Value::String("n".to_owned()));
    assert!(v["projects"][0]["theme"].is_null());
}
