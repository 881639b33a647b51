use gdbind::intern::InternTable;
use gdbind::path::NodePath;
use gdbind::text::GodotString;

#[test]
fn string_name_node_path_conversion() {
    let mut table = InternTable::new();
    let string = table.intern_str("some string");
    let name = NodePath::from_name(&table, string);
    let back = name.to_name(&mut table);

    assert_eq!(string, back);

    let cloned = table.clone_name(string);
    let second = NodePath::from_name(&table, cloned);
    let back = second.to_name(&mut table);

    assert_eq!(string, back);
}

#[test]
fn node_path_round_trip_with_separators() {
    let mut table = InternTable::new();
    let name = table.intern_str("root/child/leaf");
    let path = NodePath::from_name(&table, name);
    let back = path.to_name(&mut table);

    assert_eq!(name, back);
    assert_eq!(path.segments.len(), 3);
    assert_eq!(path.render(), GodotString::from_str("root/child/leaf"));
}

#[test]
fn node_path_segments() {
    let path = NodePath::from_text(&GodotString::from_str("a/b"));
    assert_eq!(path.segments.len(), 2);
    assert_eq!(path.segments[0], GodotString::from_str("a"));
    assert_eq!(path.segments[1], GodotString::from_str("b"));

    let empty = NodePath::from_text(&GodotString::new());
    assert_eq!(empty.segments.len(), 1);
    assert_eq!(empty.segments[0], GodotString::new());
    assert_eq!(empty.render(), GodotString::new());

    let edges = NodePath::from_text(&GodotString::from_str("/a//b/"));
    assert_eq!(edges.segments.len(), 5);
    assert_eq!(edges.render(), GodotString::from_str("/a//b/"));
}
