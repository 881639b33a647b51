use std::collections::HashSet;

use gdbind::intern::{InternTable, StringName};
use gdbind::text::GodotString;

#[test]
fn string_name_default() {
    let table = InternTable::new();
    let name = StringName::default();
    let back = table.to_text(name);

    assert_eq!(back, GodotString::new());
}

#[test]
fn string_name_conversion() {
    let mut table = InternTable::new();
    let string = GodotString::from_str("some string");
    let name = table.intern(&string);
    let back = table.to_text(name);

    assert_eq!(string, back);

    let second = table.intern(&string.clone());
    let back = table.to_text(second);

    assert_eq!(string, back);
}

#[test]
fn string_name_equality() {
    let mut table = InternTable::new();
    let string = table.intern_str("some string");
    let second = table.intern_str("some string");
    let different = table.intern_str("some");

    assert_eq!(string, second);
    assert_ne!(string, different);
}

#[test]
fn string_name_clone() {
    let mut table = InternTable::new();
    let first = table.intern_str("some string");
    let cloned = first.clone();

    assert_eq!(first, cloned);

    let counted = table.clone_name(first);

    assert_eq!(first, counted);
    assert_eq!(table.to_text(counted), GodotString::from_str("some string"));
}

#[test]
fn string_name_hash() {
    let mut table = InternTable::new();
    let set: HashSet<StringName> = [
        "string_1",
        "SECOND string! :D",
        "emoji time: 😎",
        r#"got/!()%)=!"/]}¡[$½{¥¡}@£symbol characters"#,
        "some garbageTƉ馧쟻�韂󥢛ꮛ૎ཾ̶D@/8ݚ򹾴-䌗򤷨񄣷8",
    ]
    .into_iter()
    .map(|s| table.intern_str(s))
    .collect();
    assert_eq!(set.len(), 5);
}

#[test]
fn string_name_hash_consistency() {
    let mut table = InternTable::new();
    let a = table.intern_str("property_name");
    let b = table.intern_str("property_name");

    assert_eq!(a.hash_value(), b.hash_value());
    assert_eq!(StringName::default().hash_value(), 5381);
}

#[test]
fn string_name_length() {
    let mut table = InternTable::new();
    let string = "hello!";
    let name = table.intern_str(string);
    assert_eq!(name.len(), string.len());

    let empty = StringName::default();
    assert_eq!(empty.len(), 0);
}

#[test]
fn string_name_is_empty() {
    let mut table = InternTable::new();
    let name = table.intern_str("hello!");
    assert!(!name.is_empty());
    let empty = StringName::default();
    assert!(empty.is_empty());
}

#[test]
fn string_name_static_cstr() {
    let mut table = InternTable::new();
    let a = table.intern_ascii_cstr("an ASCII string\0");
    let b = table.intern_str("an ASCII string");

    assert_eq!(a, b);
}

#[test]
fn string_name_empty_is_default() {
    let mut table = InternTable::new();
    let interned = table.intern(&GodotString::new());

    assert_eq!(interned, StringName::default());
    assert_eq!(StringName::default().len(), 0);
}

#[test]
fn string_name_unicode_round_trip() {
    let mut table = InternTable::new();
    let text = GodotString::from_str("emoji time: 😎");
    let name = table.intern(&text);

    assert_eq!(table.to_text(name), text);
    assert_eq!(text.byte_len(), "emoji time: 😎".len());
    assert_eq!(name.len(), "emoji time: 😎".len());
}

#[test]
fn string_name_release_evicts() {
    let mut table = InternTable::new();
    let a = table.intern_str("transient");
    table.release(a);
    let b = table.intern_str("transient");

    assert_ne!(a.idx, b.idx);
    assert_eq!(table.to_text(b), GodotString::from_str("transient"));
}

#[test]
fn string_name_release_keeps_default() {
    let mut table = InternTable::new();
    let d = StringName::default();
    table.release(d);
    let e = table.intern_str("");

    assert_eq!(e, StringName::default());
}

#[test]
fn godot_string_value_semantics() {
    let a = GodotString::from_str("value");
    let b = a.clone();

    assert_eq!(a, b);
    assert_ne!(a, GodotString::from_str("other"));
    assert_eq!(GodotString::new(), GodotString::from_str(""));
    assert_eq!(GodotString::from_str("hello!").byte_len(), 6);
}
