use docker_compose::{AliasedName, InvalidValueError};

#[test]
fn aliased_name_can_be_converted_to_and_from_a_string() {
    assert_eq!(AliasedName::from_str("foo").unwrap(),
               AliasedName { name: "foo".to_owned(), alias: None });
    assert_eq!(AliasedName::from_str("foo:bar").unwrap(),
               AliasedName { name: "foo".to_owned(),
                             alias: Some("bar".to_owned()) });
    assert!(AliasedName::from_str("foo:bar:baz").is_err());

    assert_eq!(AliasedName::new("foo", None).unwrap().to_string().unwrap(),
               "foo");
    assert_eq!(AliasedName::new("foo", Some("bar")).unwrap().to_string().unwrap(),
               "foo:bar");
}

#[test]
fn aliased_name_rejects_empty_sides() {
    for bad in ["", ":", ":bar", "foo:", "::", "a::b"] {
        let err = AliasedName::from_str(bad).unwrap_err();
        assert_eq!(err, InvalidValueError { category: "aliased name".to_owned(),
                                            input: bad.to_owned() });
    }
}

#[test]
fn aliased_name_keeps_other_characters() {
    let a = AliasedName::from_str("my-vol/data 1:/mnt/x").unwrap();
    assert_eq!(a.name, "my-vol/data 1");
    assert_eq!(a.alias.as_deref(), Some("/mnt/x"));
    assert_eq!(a.to_string().unwrap(), "my-vol/data 1:/mnt/x");
}

#[test]
fn aliased_name_new_rejects_colons() {
    assert!(AliasedName::new("a:b", None).is_err());
    let err = AliasedName::new("a", Some("b:c")).unwrap_err();
    assert_eq!(err.category, "aliased name");
    assert_eq!(err.input, "a:b:c");
    assert!(AliasedName::new("a", Some("b")).unwrap().validate().is_ok());
}

#[test]
fn aliased_name_to_string_revalidates() {
    let mut a = AliasedName::new("foo", None).unwrap();
    a.name = "foo:bar".to_owned();
    assert!(a.validate().is_err());
    let err = a.to_string().unwrap_err();
    assert_eq!(err.input, "foo:bar");
}

#[test]
fn aliased_name_round_trips_through_text() {
    for text in ["foo", "foo:bar", "x:y"] {
        let a = AliasedName::from_str(text).unwrap();
        let written = a.to_string().unwrap();
        assert_eq!(written, text);
        assert_eq!(AliasedName::from_str(&written).unwrap(), a);
    }
}
