use valkeyre::codec::encode;
use valkeyre::listing::{decode_keys, select_values};

#[test]
fn decode_keys_of_encoded_names() {
    let names = vec![encode("42"), encode("customer"), encode("")];
    let keys = decode_keys(&names);
    assert_eq!(keys, vec!["42".to_string(), "customer".to_string(), String::new()]);
}

#[test]
fn decode_keys_skips_foreign_entries() {
    let names = vec![
        "README".to_string(),
        encode("42"),
        "zz".to_string(),
        "ff".to_string(),
        encode("paid"),
        "3432343".to_string(),
    ];
    let keys = decode_keys(&names);
    assert_eq!(keys, vec!["42".to_string(), "paid".to_string()]);
}

#[test]
fn decode_keys_of_empty_listing() {
    let keys = decode_keys(&Vec::new());
    assert!(keys.is_empty());
}

#[test]
fn select_values_keeps_contents_of_decodable_names() {
    let names = vec![encode("k1"), "not-hex".to_string(), encode("k2")];
    let contents = vec!["v1".to_string(), "junk".to_string(), "v2".to_string()];
    let values = select_values(&names, &contents);
    assert_eq!(values, vec!["v1".to_string(), "v2".to_string()]);
}

#[test]
fn enumeration_returns_exactly_what_was_set() {
    // after set(k1, v1) and set(k2, v2) the directory holds exactly the
    // two encoded names; keys() and values() recover exactly both pairs
    let names = vec![encode("k1"), encode("k2")];
    let contents = vec!["v1".to_string(), "v2".to_string()];
    let mut keys = decode_keys(&names);
    let mut values = select_values(&names, &contents);
    keys.sort();
    values.sort();
    assert_eq!(keys, vec!["k1".to_string(), "k2".to_string()]);
    assert_eq!(values, vec!["v1".to_string(), "v2".to_string()]);
}
