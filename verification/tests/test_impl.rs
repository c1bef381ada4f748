use sternum::schema::EnumSchema;
use sternum::table::{build_table, MappingTable};

fn schema(type_label: &str, variants: &[&str]) -> EnumSchema {
    EnumSchema {
        type_label: type_label.to_string(),
        variants: variants.iter().map(|v| v.to_string()).collect(),
    }
}

fn table(type_label: &str, variants: &[&str], fragments: &[&str]) -> MappingTable {
    let frags: Vec<String> = fragments.iter().map(|f| f.to_string()).collect();
    build_table(&schema(type_label, variants), &frags).expect("table should build")
}

fn table_a() -> MappingTable {
    table("A", &["Foo", "Bar", "Baz"], &[])
}

fn table_b() -> MappingTable {
    table("B", &["Qux", "Quux", "Corge"], &["scoped"])
}

#[test]
fn impl_display() {
    let t = table_a();
    assert_eq!(t.to_display(0).as_str(), "Foo");
    assert_eq!(t.to_display(1).as_str(), "Bar");
    assert_eq!(t.to_display(2).as_str(), "Baz");
}

#[test]
fn impl_from_str() {
    let t = table_a();
    assert_eq!(t.resolve_from_str("Foo"), Ok(0));
    assert_eq!(t.resolve_from_str("Bar"), Ok(1));
    assert_eq!(t.resolve_from_str("Baz"), Ok(2));

    let err = t.resolve_from_str("unknown").unwrap_err();
    assert_eq!(err.input, "unknown");
    assert_eq!(err.type_label, "A");
}

#[test]
fn round_trip() {
    let t = table_a();
    assert_eq!(t.resolve_from_str(t.to_display(0).as_str()), Ok(0));
    assert_eq!(t.resolve_from_str(t.to_display(1).as_str()), Ok(1));
    assert_eq!(t.resolve_from_str(t.to_display(2).as_str()), Ok(2));
}

#[test]
fn impl_display_scoped() {
    let t = table_b();
    assert_eq!(t.to_display(0).as_str(), "B::Qux");
    assert_eq!(t.to_display(1).as_str(), "B::Quux");
    assert_eq!(t.to_display(2).as_str(), "B::Corge");
}

#[test]
fn impl_from_str_scoped() {
    let t = table_b();
    assert_eq!(t.resolve_from_str("B::Qux"), Ok(0));
    assert_eq!(t.resolve_from_str("B::Quux"), Ok(1));
    assert_eq!(t.resolve_from_str("B::Corge"), Ok(2));

    assert_eq!(t.resolve_from_str("Qux").unwrap_err().input, "Qux");
    assert_eq!(t.resolve_from_str("Quux").unwrap_err().input, "Quux");
    assert_eq!(t.resolve_from_str("Corge").unwrap_err().input, "Corge");
}

#[test]
fn round_trip_scoped() {
    let t = table_b();
    assert_eq!(t.resolve_from_str(t.to_display(0).as_str()), Ok(0));
    assert_eq!(t.resolve_from_str(t.to_display(1).as_str()), Ok(1));
    assert_eq!(t.resolve_from_str(t.to_display(2).as_str()), Ok(2));
}
