use docker_compose::{
    deserialize_opt_string_or_struct, deserialize_string_or_struct,
    serialize_opt_string_or_struct, serialize_string_or_struct, value, Build, Error, Node, RawOr,
};
use docker_compose::raw_or::{deserialize_raw_or, serialize_raw_or};

fn scalar(s: &str) -> Node {
    Node::Scalar(s.to_owned())
}

fn mapping(entries: Vec<(&str, Node)>) -> Node {
    Node::Mapping(entries.into_iter().map(|(k, v)| (k.to_owned(), v)).collect())
}

#[test]
fn build_spellings_normalize_to_one_value() {
    let short: Build = deserialize_string_or_struct(&scalar("./app2")).unwrap();
    let long: Build =
        deserialize_string_or_struct(&mapping(vec![("context", scalar("./app2"))])).unwrap();
    assert_eq!(short, long);
    assert_eq!(short, Build { context: "./app2".to_owned(), dockerfile: None });
    assert_eq!(short, Build::new("./app2"));
}

#[test]
fn build_mapping_with_dockerfile() {
    let n = mapping(vec![("context", scalar("./app1")), ("dockerfile", scalar("Dockerfile-alt"))]);
    let b: Build = deserialize_string_or_struct(&n).unwrap();
    assert_eq!(b.context, "./app1");
    assert_eq!(b.dockerfile.as_deref(), Some("Dockerfile-alt"));
    let n2 = mapping(vec![("dockerfile", scalar("D")), ("context", scalar("."))]);
    let b2: Build = deserialize_string_or_struct(&n2).unwrap();
    assert_eq!(b2, Build { context: ".".to_owned(), dockerfile: Some("D".to_owned()) });
}

#[test]
fn sequence_is_a_shape_error() {
    let n = Node::Sequence(vec![scalar("./app")]);
    let r: Result<Build, Error> = deserialize_string_or_struct(&n);
    assert_eq!(r, Err(Error::ExpectedStringOrMapping));
    let r: Result<Option<Build>, Error> = deserialize_opt_string_or_struct(&n);
    assert_eq!(r, Err(Error::ExpectedStringOrMapping));
    let r: Result<Build, Error> = deserialize_string_or_struct(&Node::Null);
    assert_eq!(r, Err(Error::ExpectedStringOrMapping));
}

#[test]
fn optional_field_accepts_null() {
    let r: Option<Build> = deserialize_opt_string_or_struct(&Node::Null).unwrap();
    assert_eq!(r, None);
    let r: Option<Build> = deserialize_opt_string_or_struct(&scalar("ctx")).unwrap();
    assert_eq!(r, Some(Build::new("ctx")));
    assert_eq!(serialize_opt_string_or_struct::<Build>(&None), Node::Null);
}

#[test]
fn build_mapping_errors() {
    let r: Result<Build, Error> =
        deserialize_string_or_struct(&mapping(vec![("dockerfile", scalar("D"))]));
    assert_eq!(r, Err(Error::MissingField("context".to_owned())));
    let r: Result<Build, Error> = deserialize_string_or_struct(&mapping(vec![
        ("context", scalar("a")),
        ("args", scalar("b")),
    ]));
    assert_eq!(r, Err(Error::UnknownField("args".to_owned())));
    let r: Result<Build, Error> = deserialize_string_or_struct(&mapping(vec![
        ("context", scalar("a")),
        ("context", scalar("b")),
    ]));
    assert_eq!(r, Err(Error::DuplicateField("context".to_owned())));
    let r: Result<Build, Error> =
        deserialize_string_or_struct(&mapping(vec![("context", Node::Sequence(vec![]))]));
    assert_eq!(r, Err(Error::ExpectedStringField("context".to_owned())));
}

#[test]
fn serializer_prefers_the_short_form() {
    assert_eq!(serialize_string_or_struct(&Build::new("./app2")), scalar("./app2"));
    let b = Build { context: "./app1".to_owned(), dockerfile: Some("Dockerfile-alt".to_owned()) };
    assert_eq!(
        serialize_string_or_struct(&b),
        mapping(vec![("context", scalar("./app1")), ("dockerfile", scalar("Dockerfile-alt"))])
    );
    assert_eq!(serialize_opt_string_or_struct(&Some(b)), mapping(vec![
        ("context", scalar("./app1")),
        ("dockerfile", scalar("Dockerfile-alt")),
    ]));
}

#[test]
fn build_round_trips() {
    for b in [
        Build::new("./app2"),
        Build { context: "./app1".to_owned(), dockerfile: Some("Dockerfile-alt".to_owned()) },
        Build::new(""),
    ] {
        let n = serialize_string_or_struct(&b);
        let back: Build = deserialize_string_or_struct(&n).unwrap();
        assert_eq!(back, b);
    }
}

#[test]
fn raw_or_keeps_variable_references() {
    let r: RawOr<Build> = deserialize_raw_or(&scalar("${APP_DIR}/app")).unwrap();
    assert_eq!(r, RawOr::Raw("${APP_DIR}/app".to_owned()));
    assert!(r.value_ref().is_err());
    assert_eq!(r.raw_text(), Some("${APP_DIR}/app".to_owned()));
    assert_eq!(serialize_raw_or(&r), scalar("${APP_DIR}/app"));
}

#[test]
fn raw_or_reads_plain_values() {
    let r: RawOr<Build> = deserialize_raw_or(&scalar("./app")).unwrap();
    assert_eq!(r, value(Build::new("./app")));
    assert_eq!(r.value_ref().unwrap().context, "./app");
    assert_eq!(r.raw_text(), Some("./app".to_owned()));
    let r: Result<RawOr<Build>, Error> = deserialize_raw_or(&Node::Sequence(vec![]));
    assert_eq!(r, Err(Error::ExpectedStringOrMapping));
    let b = Build { context: "c".to_owned(), dockerfile: Some("d".to_owned()) };
    assert_eq!(value(b).raw_text(), None);
}
