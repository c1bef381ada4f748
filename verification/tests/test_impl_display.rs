use sternum::schema::EnumSchema;
use sternum::table::build_table;

#[test]
fn test_impl_display_impl_display() {
    let schema = EnumSchema {
        type_label: "A".to_string(),
        variants: vec!["Foo".to_string(), "Bar".to_string(), "Baz".to_string()],
    };
    let t = build_table(&schema, &Vec::new()).expect("table should build");
    assert_eq!(format!("{}", t.to_display(0)), "Foo");
    assert_eq!(format!("{}", t.to_display(1)), "Bar");
    assert_eq!(format!("{}", t.to_display(2)), "Baz");
}
