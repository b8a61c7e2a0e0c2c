use sonicast::attrs::{AttrError, Attributes};
use sonicast::types::Id;

fn store(pairs: &[(&str, &str)]) -> Attributes {
    let mut attrs = Attributes::new();
    for (k, v) in pairs {
        attrs.push((*k).to_owned(), (*v).to_owned());
    }
    attrs
}

#[test]
fn get_one_returns_first_value_for_repeated_key() {
    let attrs = store(&[("a", "1"), ("b", "2"), ("a", "3")]);
    assert_eq!(attrs.get_one("a"), Some("1"));
    assert_eq!(attrs.get_one("b"), Some("2"));
    assert_eq!(attrs.get_one("missing"), None);
}

#[test]
fn get_all_keeps_original_order() {
    let attrs = store(&[("changed", "player"), ("x", "y"), ("changed", "mixer")]);
    let all = attrs.get_all("changed");
    assert_eq!(all, vec!["player".to_owned(), "mixer".to_owned()]);
    assert!(attrs.get_all("nope").is_empty());
}

#[test]
fn get_parses_typed_values() {
    let attrs = store(&[("playlist", "7"), ("volume", "42"), ("pos", "-3")]);
    let playlist: u32 = attrs.get("playlist").unwrap();
    assert_eq!(playlist, 7);
    let volume: usize = attrs.get("volume").unwrap();
    assert_eq!(volume, 42);
    let pos: i64 = attrs.get("pos").unwrap();
    assert_eq!(pos, -3);
    let wide: u64 = attrs.get("volume").unwrap();
    assert_eq!(wide, 42);
    let id: Id = attrs.get("playlist").unwrap();
    assert_eq!(id.as_str(), "7");
}

#[test]
fn get_reports_missing_and_malformed_by_name() {
    let attrs = store(&[("volume", "loud")]);
    match attrs.get::<u32>("volume") {
        Err(AttrError::Malformed { name }) => assert_eq!(name, "volume"),
        other => panic!("expected a malformed error, got {:?}", other),
    }
    match attrs.get::<u32>("absent") {
        Err(AttrError::Missing { name }) => assert_eq!(name, "absent"),
        other => panic!("expected a missing error, got {:?}", other),
    }
}

#[test]
fn get_opt_distinguishes_absent_from_malformed() {
    let attrs = store(&[("volume", "loud")]);
    assert!(matches!(attrs.get_opt::<u32>("absent"), Ok(None)));
    assert!(matches!(
        attrs.get_opt::<u32>("volume"),
        Err(AttrError::Malformed { .. })
    ));
}

#[test]
fn split_at_groups_records_by_delimiter_key() {
    // splitting [(file,a),(id,1),(file,b),(id,2)] at `file` yields the
    // groups [(file,a),(id,1)] and [(file,b),(id,2)]
    let attrs = store(&[("file", "a"), ("id", "1"), ("file", "b"), ("id", "2")]);
    let groups = attrs.split_at("file");
    assert_eq!(groups.len(), 2);
    let first: Vec<(String, String)> = groups[0].iter().clone();
    assert_eq!(
        first,
        vec![
            ("file".to_owned(), "a".to_owned()),
            ("id".to_owned(), "1".to_owned())
        ]
    );
    let second: Vec<(String, String)> = groups[1].iter().clone();
    assert_eq!(
        second,
        vec![
            ("file".to_owned(), "b".to_owned()),
            ("id".to_owned(), "2".to_owned())
        ]
    );
}

#[test]
fn split_at_drops_pairs_before_first_delimiter() {
    let attrs = store(&[("junk", "x"), ("file", "a"), ("id", "1")]);
    let groups = attrs.split_at("file");
    assert_eq!(groups.len(), 1);
    assert_eq!(groups[0].iter().len(), 2);
    assert_eq!(groups[0].get_one("junk"), None);
}

#[test]
fn split_at_without_delimiter_yields_nothing() {
    let attrs = store(&[("a", "1"), ("b", "2")]);
    assert!(attrs.split_at("file").is_empty());
}
