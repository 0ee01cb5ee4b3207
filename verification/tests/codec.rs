use release_maker::format::{decode_changes, encode_changes};
use release_maker::release::{Author, Change, Commit, OneOrMore, Release};
use release_maker::value::{DecodeError, Expected, Value};

fn text(s: &str) -> Value {
    Value::Text(s.to_string())
}

fn texts(items: &[&str]) -> Value {
    Value::List(items.iter().map(|s| text(s)).collect())
}

fn names(list: &OneOrMore<Author>) -> Vec<String> {
    list.0.iter().map(|a| a.name().to_string()).collect()
}

fn hashes(list: &OneOrMore<Commit>) -> Vec<String> {
    list.0.iter().map(|c| c.hash().to_string()).collect()
}

fn field(name: &str, value: Value) -> (String, Value) {
    (name.to_string(), value)
}

#[test]
fn one_item_is_written_as_a_bare_string() {
    let list = OneOrMore(vec![Author::new("alice")]);
    assert_eq!(list.encode(), text("alice"));
    let list = OneOrMore(vec![Commit::new("1234567")]);
    assert_eq!(list.encode(), text("1234567"));
}

#[test]
fn several_items_are_written_as_a_list() {
    let list = OneOrMore(vec![Author::new("alice"), Author::new("bob"), Author::new("alice")]);
    let value = list.encode();
    assert_eq!(value, texts(&["alice", "bob", "alice"]));
    match value {
        Value::List(items) => assert_eq!(items.len(), 3),
        _ => panic!("a list was expected"),
    }
}

#[test]
fn single_item_round_trip() {
    let list = OneOrMore(vec![Author::new("alice")]);
    let back = OneOrMore::<Author>::decode(&list.encode()).unwrap();
    assert_eq!(back.0, list.0);

    let list = OneOrMore(vec![Commit::new("abcdef0123")]);
    let back = OneOrMore::<Commit>::decode(&list.encode()).unwrap();
    assert_eq!(back.0, list.0);
}

#[test]
fn several_items_round_trip_in_order() {
    let list = OneOrMore(vec![Commit::new("2222222"), Commit::new("1111111"), Commit::new("3333333")]);
    let back = OneOrMore::<Commit>::decode(&list.encode()).unwrap();
    assert_eq!(hashes(&back), vec!["2222222", "1111111", "3333333"]);

    let list = OneOrMore(vec![Author::new("b"), Author::new("a")]);
    let back = OneOrMore::<Author>::decode(&list.encode()).unwrap();
    assert_eq!(names(&back), vec!["b", "a"]);
}

#[test]
fn a_bare_string_decodes_to_one_item() {
    let list = OneOrMore::<Author>::decode(&text("alice")).unwrap();
    assert_eq!(names(&list), vec!["alice"]);
}

#[test]
fn a_list_of_one_decodes_to_one_item() {
    let list = OneOrMore::<Author>::decode(&texts(&["alice"])).unwrap();
    assert_eq!(names(&list), vec!["alice"]);
}

#[test]
fn an_empty_list_is_refused() {
    assert_eq!(
        OneOrMore::<Author>::decode(&Value::List(vec![])).unwrap_err(),
        DecodeError::Empty
    );
    assert_eq!(
        OneOrMore::<Commit>::decode(&Value::List(vec![])).unwrap_err(),
        DecodeError::Empty
    );
}

#[test]
fn a_value_that_is_neither_string_nor_list_is_refused() {
    for value in [
        Value::Null,
        Value::Bool(true),
        Value::Number("1".to_string()),
        Value::Record(vec![]),
    ] {
        assert_eq!(
            OneOrMore::<Author>::decode(&value).unwrap_err(),
            DecodeError::WrongKind(Expected::TextOrList)
        );
    }
}

#[test]
fn a_list_item_that_is_no_string_is_refused() {
    let value = Value::List(vec![text("alice"), Value::Number("7".to_string())]);
    assert_eq!(
        OneOrMore::<Author>::decode(&value).unwrap_err(),
        DecodeError::WrongKind(Expected::Text)
    );
}

#[test]
fn a_short_hash_is_refused_and_handed_back() {
    assert_eq!(
        OneOrMore::<Commit>::decode(&text("abc123")).unwrap_err(),
        DecodeError::Unparsable("abc123".to_string())
    );
    assert_eq!(
        OneOrMore::<Commit>::decode(&texts(&["1234567", "abc", "x"])).unwrap_err(),
        DecodeError::Unparsable("abc".to_string())
    );
}

#[test]
fn the_first_bad_item_decides_the_error() {
    let value = Value::List(vec![text("1234567"), Value::Null, text("abc")]);
    assert_eq!(
        OneOrMore::<Commit>::decode(&value).unwrap_err(),
        DecodeError::WrongKind(Expected::Text)
    );
    let value = Value::List(vec![text("1234567"), text("abc"), Value::Null]);
    assert_eq!(
        OneOrMore::<Commit>::decode(&value).unwrap_err(),
        DecodeError::Unparsable("abc".to_string())
    );
}

#[test]
fn decode_errors_say_what_is_wrong() {
    assert_eq!(DecodeError::Empty.to_string(), "expected at least one item");
    assert_eq!(
        DecodeError::Unparsable("abc".to_string()).to_string(),
        "failed to parse from string: abc"
    );
    assert_eq!(
        DecodeError::WrongKind(Expected::TextOrList).to_string(),
        "invalid type: expected one string or more"
    );
    assert_eq!(
        DecodeError::WrongKind(Expected::Text).to_string(),
        "invalid type: expected a string"
    );
    assert_eq!(
        DecodeError::WrongKind(Expected::List).to_string(),
        "invalid type: expected a list"
    );
    assert_eq!(
        DecodeError::WrongKind(Expected::Record).to_string(),
        "invalid type: expected a record"
    );
    assert_eq!(
        DecodeError::WrongLength(3).to_string(),
        "invalid length: expected a change of 4 values"
    );
    assert_eq!(DecodeError::MissingUrl.to_string(), "missing field `repo_url`");
    assert_eq!(
        DecodeError::Duplicate("added".to_string()).to_string(),
        "duplicate field: added"
    );
    assert_eq!(Expected::Record.to_string(), "a record");
}

#[test]
fn a_change_is_a_list_of_four() {
    let change = Change::new("fix", "Fast parser", "alice", "1234567");
    assert_eq!(
        change.encode(),
        Value::List(vec![text("fix"), text("Fast parser"), text("alice"), text("1234567")])
    );
    let change = Change {
        category: "c".to_string(),
        name: "n".to_string(),
        authors: OneOrMore(vec![Author::new("a"), Author::new("b")]),
        commits: OneOrMore(vec![Commit::new("1111111"), Commit::new("2222222")]),
    };
    assert_eq!(
        change.encode(),
        Value::List(vec![text("c"), text("n"), texts(&["a", "b"]), texts(&["1111111", "2222222"])])
    );
}

#[test]
fn a_change_is_decoded_from_a_list_of_four() {
    let value = Value::List(vec![text("c"), text("n"), texts(&["a", "b"]), text("1234567")]);
    let change = Change::decode(&value).unwrap();
    assert_eq!(change.category, "c");
    assert_eq!(change.name, "n");
    assert_eq!(names(&change.authors), vec!["a", "b"]);
    assert_eq!(hashes(&change.commits), vec!["1234567"]);
}

#[test]
fn a_change_of_another_shape_is_refused() {
    assert_eq!(
        Change::decode(&text("c")).unwrap_err(),
        DecodeError::WrongKind(Expected::List)
    );
    assert_eq!(
        Change::decode(&texts(&["c", "n", "a"])).unwrap_err(),
        DecodeError::WrongLength(3)
    );
    assert_eq!(
        Change::decode(&texts(&["c", "n", "a", "1234567", "more"])).unwrap_err(),
        DecodeError::WrongLength(5)
    );
    let value = Value::List(vec![Value::Null, text("n"), text("a"), text("1234567")]);
    assert_eq!(
        Change::decode(&value).unwrap_err(),
        DecodeError::WrongKind(Expected::Text)
    );
    let value = Value::List(vec![text("c"), text("n"), Value::List(vec![]), text("1234567")]);
    assert_eq!(Change::decode(&value).unwrap_err(), DecodeError::Empty);
    let value = Value::List(vec![text("c"), text("n"), text("a"), text("123")]);
    assert_eq!(
        Change::decode(&value).unwrap_err(),
        DecodeError::Unparsable("123".to_string())
    );
    let value = Value::List(vec![text("c"), text("n"), text("a"), Value::Bool(false)]);
    assert_eq!(
        Change::decode(&value).unwrap_err(),
        DecodeError::WrongKind(Expected::TextOrList)
    );
}

#[test]
fn lists_of_changes() {
    let changes = vec![
        Change::new("a", "One", "ann", "1111111"),
        Change::new("b", "Two", "ben", "2222222"),
    ];
    let value = encode_changes(&changes);
    assert_eq!(
        value,
        Value::List(vec![
            texts(&["a", "One", "ann", "1111111"]),
            texts(&["b", "Two", "ben", "2222222"]),
        ])
    );
    let back = decode_changes(&value).unwrap();
    assert_eq!(back.len(), 2);
    assert_eq!(back[1].name, "Two");
    assert_eq!(
        decode_changes(&Value::Null).unwrap_err(),
        DecodeError::WrongKind(Expected::List)
    );
    let value = Value::List(vec![texts(&["a", "One", "ann", "1111111"]), texts(&["b"])]);
    assert_eq!(decode_changes(&value).unwrap_err(), DecodeError::WrongLength(1));
}

#[test]
fn a_release_is_a_record_of_five_fields() {
    let release = Release {
        repo_url: "https://github.com/o/r".to_string(),
        added: vec![Change::new("fix", "Fast parser", "alice", "1234567")],
        changed: vec![],
        fixed: vec![],
        removed: vec![],
    };
    assert_eq!(
        release.encode(),
        Value::Record(vec![
            field("repo_url", text("https://github.com/o/r")),
            field(
                "added",
                Value::List(vec![texts(&["fix", "Fast parser", "alice", "1234567"])])
            ),
            field("changed", Value::List(vec![])),
            field("fixed", Value::List(vec![])),
            field("removed", Value::List(vec![])),
        ])
    );
}

#[test]
fn a_release_round_trip() {
    let release = Release {
        repo_url: "u".to_string(),
        added: vec![Change::new("a", "One", "ann", "1111111")],
        changed: vec![Change {
            category: "b".to_string(),
            name: "Two".to_string(),
            authors: OneOrMore(vec![Author::new("ben"), Author::new("cy")]),
            commits: OneOrMore(vec![Commit::new("2222222"), Commit::new("3333333")]),
        }],
        fixed: vec![],
        removed: vec![Change::new("d", "Four", "dee", "4444444")],
    };
    let back = Release::decode(&release.encode()).unwrap();
    assert_eq!(back.repo_url, "u");
    assert_eq!(back.added.len(), 1);
    assert_eq!(back.changed.len(), 1);
    assert_eq!(back.fixed.len(), 0);
    assert_eq!(back.removed.len(), 1);
    assert_eq!(back.added[0].name, "One");
    assert_eq!(names(&back.changed[0].authors), vec!["ben", "cy"]);
    assert_eq!(hashes(&back.changed[0].commits), vec!["2222222", "3333333"]);
    assert_eq!(back.removed[0].category, "d");
    assert_eq!(back.encode(), release.encode());
}

#[test]
fn lists_that_a_release_does_not_give_are_empty() {
    let value = Value::Record(vec![
        field("fixed", Value::List(vec![texts(&["a", "One", "ann", "1111111"])])),
        field("repo_url", text("u")),
        field("note", Value::Number("3".to_string())),
    ]);
    let release = Release::decode(&value).unwrap();
    assert_eq!(release.repo_url, "u");
    assert!(release.added.is_empty());
    assert!(release.changed.is_empty());
    assert_eq!(release.fixed.len(), 1);
    assert!(release.removed.is_empty());
}

#[test]
fn a_release_of_another_shape_is_refused() {
    assert_eq!(
        Release::decode(&Value::List(vec![])).unwrap_err(),
        DecodeError::WrongKind(Expected::Record)
    );
    assert_eq!(
        Release::decode(&Value::Record(vec![])).unwrap_err(),
        DecodeError::MissingUrl
    );
    let value = Value::Record(vec![field("repo_url", Value::Null)]);
    assert_eq!(
        Release::decode(&value).unwrap_err(),
        DecodeError::WrongKind(Expected::Text)
    );
    let value = Value::Record(vec![field("repo_url", text("u")), field("repo_url", text("v"))]);
    assert_eq!(
        Release::decode(&value).unwrap_err(),
        DecodeError::Duplicate("repo_url".to_string())
    );
    let value = Value::Record(vec![
        field("added", Value::List(vec![])),
        field("added", Value::List(vec![])),
        field("repo_url", text("u")),
    ]);
    assert_eq!(
        Release::decode(&value).unwrap_err(),
        DecodeError::Duplicate("added".to_string())
    );
    let value = Value::Record(vec![field("repo_url", text("u")), field("removed", text("x"))]);
    assert_eq!(
        Release::decode(&value).unwrap_err(),
        DecodeError::WrongKind(Expected::List)
    );
    let value = Value::Record(vec![
        field("changed", Value::List(vec![texts(&["a", "One", "ann", "11"])])),
        field("repo_url", text("u")),
    ]);
    assert_eq!(
        Release::decode(&value).unwrap_err(),
        DecodeError::Unparsable("11".to_string())
    );
}
