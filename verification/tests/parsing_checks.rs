//! The metadata protocol: values, lists, key-value pairs, the descriptor
//! parser and the streaming byte scanner.

use bp3d_os::error::Error;
use bp3d_os::metadata::{parse_kv, parse_metadata, Value};
use bp3d_os::scan::MetadataScanner;

#[test]
fn empty_list_parsing() {
    // An empty DEPS or FEATURES value yields no items at all, not one
    // empty item.
    let empty = Value::new("".into());
    assert!(empty.as_list().is_none());
    assert!(empty.parse_key_value_pairs().is_none());
    let one = Value::new("a".into());
    assert_eq!(one.as_list().unwrap(), vec!["a".to_string()]);
}

#[test]
fn value_accessors() {
    let v = Value::new("hello".into());
    assert_eq!(v.as_str(), "hello");
    assert_eq!(v.len(), 5);
    assert!(!v.is_empty());
    assert!(Value::new("".into()).is_empty());
    // The length counts encoded bytes, not characters.
    assert_eq!(Value::new("\u{e9}".into()).len(), 2);
}

#[test]
fn list_splitting() {
    let v = Value::new("a=1.0.0,b=2.0.0".into());
    let items = v.as_list().unwrap();
    assert_eq!(items, vec!["a=1.0.0".to_string(), "b=2.0.0".to_string()]);
}

#[test]
fn key_value_pairs() {
    let v = Value::new("my-dep=1.0.0,other=2.0.0".into());
    let pairs = v.parse_key_value_pairs().unwrap().unwrap();
    // Hyphens in dependency names normalize to underscores.
    assert_eq!(
        pairs,
        vec![
            ("my_dep".to_string(), "1.0.0".to_string()),
            ("other".to_string(), "2.0.0".to_string())
        ]
    );
}

#[test]
fn key_value_pair_quirks() {
    // The version is the piece between the first and the second equals
    // sign, as a plain split would make it.
    assert_eq!(parse_kv("a=1=2"), Some(("a".to_string(), "1".to_string())));
    // An item with no equals sign at all is malformed.
    assert_eq!(parse_kv("garbage"), None);
    let v = Value::new("good=1,garbage".into());
    assert!(matches!(
        v.parse_key_value_pairs(),
        Some(Err(Error::InvalidDepFormat))
    ));
}

#[test]
fn metadata_parsing() {
    let bytes = b"BP3D_OS_MODULE|TYPE=RUST|NAME=caf\xc3\xa9|VERSION=1.2.3\0";
    let map = parse_metadata(bytes).unwrap();
    assert_eq!(map.get("TYPE").unwrap().as_str(), "RUST");
    assert_eq!(map.get("NAME").unwrap().as_str(), "caf\u{e9}");
    assert_eq!(map.get("VERSION").unwrap().as_str(), "1.2.3");
    assert!(map.get("MISSING").is_none());
}

#[test]
fn metadata_parsing_value_with_equals() {
    // A segment splits at its first equals sign only; the value keeps the
    // rest verbatim.
    let bytes = b"BP3D_OS_MODULE|DEPS=a=1,b=2\0";
    let map = parse_metadata(bytes).unwrap();
    assert_eq!(map.get("DEPS").unwrap().as_str(), "a=1,b=2");
}

#[test]
fn metadata_parsing_errors() {
    assert!(matches!(
        parse_metadata(b"BP3D_OS_MODULE|\xff\xfe\0"),
        Err(Error::InvalidUtf8)
    ));
    assert!(matches!(
        parse_metadata(b"BP3D_OS_MODULE|no-equals-here\0"),
        Err(Error::InvalidMetadata)
    ));
}

#[test]
fn metadata_duplicate_keys() {
    // A later segment with the same key replaces the earlier one.
    let bytes = b"BP3D_OS_MODULE|K=first|K=second\0";
    let map = parse_metadata(bytes).unwrap();
    assert_eq!(map.get("K").unwrap().as_str(), "second");
}

#[test]
fn scanner_finds_descriptor_in_one_chunk() {
    let mut scanner = MetadataScanner::new();
    let mut data = b"noise noise ".to_vec();
    data.extend_from_slice(b"BP3D_OS_MODULE|TYPE=RUST|NAME=m\0");
    data.extend_from_slice(b" trailing");
    let found = scanner.push_chunk(&data).expect("descriptor must be found");
    assert_eq!(found, b"BP3D_OS_MODULE|TYPE=RUST|NAME=m\0".to_vec());
}

#[test]
fn scanner_skips_false_candidates() {
    // A 'B' anchoring a NUL-terminated run that does not carry the magic
    // is discarded, and scanning resumes after the failed candidate.
    let mut scanner = MetadataScanner::new();
    let mut data = b"Bogus run\0 more ".to_vec();
    data.extend_from_slice(b"BP3D_OS_MODULE|NAME=m\0");
    let found = scanner.push_chunk(&data).expect("descriptor must be found");
    assert_eq!(found, b"BP3D_OS_MODULE|NAME=m\0".to_vec());
}

#[test]
fn scanner_carries_over_chunk_boundary() {
    // The terminator arrives only in the second chunk; the partial run is
    // carried over the boundary.
    let mut scanner = MetadataScanner::new();
    assert!(scanner.push_chunk(b"xx BP3D_OS_MOD").is_none());
    let found = scanner
        .push_chunk(b"ULE|NAME=m\0yy")
        .expect("descriptor must complete over the boundary");
    assert_eq!(found, b"BP3D_OS_MODULE|NAME=m\0".to_vec());
}

#[test]
fn scanner_reports_nothing_without_magic() {
    let mut scanner = MetadataScanner::new();
    assert!(scanner.push_chunk(b"plain bytes without anything").is_none());
    assert!(scanner.push_chunk(b"still nothing here").is_none());
}

#[test]
fn name_normalization() {
    assert_eq!(bp3d_os::strutil::normalize_name("my-mod-name"), "my_mod_name");
    assert_eq!(bp3d_os::strutil::normalize_name("plain"), "plain");
    assert_eq!(bp3d_os::strutil::to_upper("abc-xyz_09"), "ABC-XYZ_09");
}

#[test]
fn split_keeps_empty_pieces() {
    let pieces = bp3d_os::strutil::split_char("a,,b,", ',');
    assert_eq!(
        pieces,
        vec![
            "a".to_string(),
            "".to_string(),
            "b".to_string(),
            "".to_string()
        ]
    );
    assert_eq!(bp3d_os::strutil::split_char("", ','), vec!["".to_string()]);
}

#[test]
fn prefix_and_find() {
    assert!(bp3d_os::strutil::starts_with("a/abc", "a"));
    assert!(!bp3d_os::strutil::starts_with("b/abc", "a"));
    assert_eq!(bp3d_os::strutil::find_char("key=value", '='), Some(3));
    assert_eq!(bp3d_os::strutil::find_char("plain", '='), None);
}
