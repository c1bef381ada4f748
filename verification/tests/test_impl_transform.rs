use sternum::schema::EnumSchema;
use sternum::table::{build_table, MappingTable};

fn table(type_label: &str, variants: &[&str], fragments: &[&str]) -> MappingTable {
    let schema = EnumSchema {
        type_label: type_label.to_string(),
        variants: variants.iter().map(|v| v.to_string()).collect(),
    };
    let frags: Vec<String> = fragments.iter().map(|f| f.to_string()).collect();
    build_table(&schema, &frags).expect("table should build")
}

fn uppercase_enum() -> MappingTable {
    table("UppercaseEnum", &["Foo", "Bar", "Baz"], &["transform = uppercase"])
}

fn lowercase_enum() -> MappingTable {
    table("LowercaseEnum", &["Foo", "Bar", "Baz"], &["transform = lowercase"])
}

#[test]
fn test_impl_transform_impl_display() {
    let u = uppercase_enum();
    assert_eq!(u.to_display(0).as_str(), "FOO");
    assert_eq!(u.to_display(1).as_str(), "BAR");
    assert_eq!(u.to_display(2).as_str(), "BAZ");

    let l = lowercase_enum();
    assert_eq!(l.to_display(0).as_str(), "foo");
    assert_eq!(l.to_display(1).as_str(), "bar");
    assert_eq!(l.to_display(2).as_str(), "baz");
}

#[test]
fn test_impl_transform_impl_from_str() {
    let u = uppercase_enum();
    assert_eq!(u.resolve_from_str("FOO"), Ok(0));
    assert_eq!(u.resolve_from_str("BAR"), Ok(1));
    assert_eq!(u.resolve_from_str("BAZ"), Ok(2));

    let l = lowercase_enum();
    assert_eq!(l.resolve_from_str("foo"), Ok(0));
    assert_eq!(l.resolve_from_str("bar"), Ok(1));
    assert_eq!(l.resolve_from_str("baz"), Ok(2));

    assert_eq!(u.resolve_from_str("Foo").unwrap_err().input, "Foo");
    assert_eq!(u.resolve_from_str("Bar").unwrap_err().input, "Bar");
    assert_eq!(u.resolve_from_str("Baz").unwrap_err().input, "Baz");

    assert_eq!(l.resolve_from_str("Foo").unwrap_err().input, "Foo");
    assert_eq!(l.resolve_from_str("Bar").unwrap_err().input, "Bar");
    assert_eq!(l.resolve_from_str("Baz").unwrap_err().input, "Baz");
}

#[test]
fn test_impl_transform_round_trip() {
    let u = uppercase_enum();
    assert_eq!(u.resolve_from_str(u.to_display(0).as_str()), Ok(0));
    assert_eq!(u.resolve_from_str(u.to_display(1).as_str()), Ok(1));
    assert_eq!(u.resolve_from_str(u.to_display(2).as_str()), Ok(2));

    let l = lowercase_enum();
    assert_eq!(l.resolve_from_str(l.to_display(0).as_str()), Ok(0));
    assert_eq!(l.resolve_from_str(l.to_display(1).as_str()), Ok(1));
    assert_eq!(l.resolve_from_str(l.to_display(2).as_str()), Ok(2));
}
