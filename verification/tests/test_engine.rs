use sternum::diagnostics::{Diagnostic, Location};
use sternum::features::{merge_options, FeatureSet, RawOption, TransformKind};
use sternum::parse::parse_fragments;
use sternum::resolve::{comparison_key, resolve};
use sternum::schema::EnumSchema;
use sternum::table::{build_table, validate_collisions, LookupError, MappingTable};
use sternum::UnknownVariantError;

struct Marker;

fn schema(type_label: &str, variants: &[&str]) -> EnumSchema {
    EnumSchema {
        type_label: type_label.to_string(),
        variants: variants.iter().map(|v| v.to_string()).collect(),
    }
}

fn strings(items: &[&str]) -> Vec<String> {
    items.iter().map(|s| s.to_string()).collect()
}

fn build(
    type_label: &str,
    variants: &[&str],
    fragments: &[&str],
) -> Result<MappingTable, Vec<Diagnostic>> {
    build_table(&schema(type_label, variants), &strings(fragments))
}

#[test]
fn case_insensitive_parses_any_casing() {
    let t = build("Enum", &["Variant"], &["case_insensitive"]).unwrap();
    assert_eq!(t.to_display(0).as_str(), "Variant");
    assert_eq!(t.resolve_from_str("VARIANT"), Ok(0));
    assert_eq!(t.resolve_from_str("Variant"), Ok(0));
    assert_eq!(t.resolve_from_str("variant"), Ok(0));
    assert_eq!(t.resolve_from_str("vAriAnt"), Ok(0));
}

#[test]
fn case_insensitive_wins_over_transform_for_matching() {
    let t = build("Enum", &["Foo"], &["case_insensitive, transform = uppercase"]).unwrap();
    assert_eq!(t.to_display(0).as_str(), "FOO");
    assert_eq!(t.resolve_from_str("FOO"), Ok(0));
    assert_eq!(t.resolve_from_str("Foo"), Ok(0));
    assert_eq!(t.resolve_from_str("foo"), Ok(0));
}

#[test]
fn collisions_fail_under_case_insensitive_and_transforms() {
    let variants = ["Variant", "VARIANT", "VarIaNT"];
    assert!(build("A", &variants, &["case_insensitive"]).is_err());
    assert!(build("A", &variants, &["transform = uppercase"]).is_err());
    assert!(build("A", &variants, &["transform = lowercase"]).is_err());
    assert!(build("A", &variants, &[]).is_ok());
}

#[test]
fn collision_diagnostics_name_both_variants() {
    let ds = build("A", &["Variant", "VARIANT", "VarIaNT"], &["case_insensitive"]).unwrap_err();
    assert_eq!(ds.len(), 2);
    assert_eq!(
        ds[0].message,
        "The variant `VARIANT' is a case-insensitive match of a previous identifier (`Variant')"
    );
    assert_eq!(ds[0].location, Location::VariantName { index: 1 });
    assert_eq!(
        ds[1].message,
        "The variant `VarIaNT' is a case-insensitive match of a previous identifier (`Variant')"
    );
    assert_eq!(ds[1].location, Location::VariantName { index: 2 });
}

#[test]
fn collision_check_runs_through_validate() {
    let s = schema("A", &["ab", "AB", "cd"]);
    let fs = FeatureSet { scoped: false, case_insensitive: true, transform: None };
    let ds = validate_collisions(&s, &fs);
    assert_eq!(ds.len(), 1);
    assert_eq!(ds[0].location, Location::VariantName { index: 1 });

    let quiet = FeatureSet { scoped: false, case_insensitive: false, transform: None };
    assert!(validate_collisions(&s, &quiet).is_empty());
}

#[test]
fn conflicting_transforms_fail() {
    let ds = build("A", &["Foo"], &["transform = uppercase", "transform = lowercase"]).unwrap_err();
    assert_eq!(ds.len(), 1);
    assert_eq!(ds[0].message, "Repeated `transform' with a conflicting value");
    assert_eq!(ds[0].location, Location::ConfigItem { fragment: 1, item: 0 });

    let ds = build("A", &["Foo"], &["transform = uppercase, transform = lowercase"]).unwrap_err();
    assert_eq!(ds.len(), 1);
    assert_eq!(ds[0].location, Location::ConfigItem { fragment: 0, item: 1 });
}

#[test]
fn repeated_options_are_idempotent() {
    assert!(build("A", &["Foo"], &["scoped", "scoped"]).is_ok());
    assert!(build("A", &["Foo"], &["case_insensitive", "case_insensitive"]).is_ok());
    assert!(build("A", &["Foo"], &["transform = uppercase", "transform = uppercase"]).is_ok());
    let t = build("A", &["Foo"], &["scoped, scoped, transform = lowercase"]).unwrap();
    assert_eq!(t.to_display(0).as_str(), "a::foo");
}

#[test]
fn unknown_option_fails_naming_it() {
    let ds = build("A", &["Foo"], &["sternums"]).unwrap_err();
    assert_eq!(ds.len(), 1);
    assert_eq!(ds[0].message, "Unknown argument `sternums' for #[sternum] attribute");
    assert_eq!(ds[0].location, Location::ConfigItem { fragment: 0, item: 0 });

    let ds = build("A", &["Foo"], &["scoped = yes"]).unwrap_err();
    assert_eq!(ds[0].message, "Unknown argument `scoped' for #[sternum] attribute");
}

#[test]
fn bad_transform_value_fails() {
    let ds = build("A", &["Foo"], &["transform = mixedcase"]).unwrap_err();
    assert_eq!(ds.len(), 1);
    assert_eq!(
        ds[0].message,
        "Unexpected value for #[sternum(transform = ...)]; expected `uppercase' or `lowercase'"
    );
}

#[test]
fn bare_marker_fails() {
    let ds = build("A", &["Foo"], &[""]).unwrap_err();
    assert_eq!(ds.len(), 1);
    assert_eq!(ds[0].message, "Unexpected attribute #[sternum]; expected #[sternum(...)]");
    assert_eq!(ds[0].location, Location::ConfigItem { fragment: 0, item: 0 });
}

#[test]
fn malformed_items_fail() {
    let expected = "Expected `option' or `option = value' in #[sternum(...)] attribute";
    let ds = build("A", &["Foo"], &["scoped!"]).unwrap_err();
    assert_eq!(ds.len(), 1);
    assert_eq!(ds[0].message, expected);

    let ds = build("A", &["Foo"], &["scoped,,scoped"]).unwrap_err();
    assert_eq!(ds.len(), 1);
    assert_eq!(ds[0].location, Location::ConfigItem { fragment: 0, item: 1 });

    let ds = build("A", &["Foo"], &["transform ="]).unwrap_err();
    assert_eq!(ds[0].message, expected);

    let ds = build("A", &["Foo"], &["= uppercase"]).unwrap_err();
    assert_eq!(ds[0].message, expected);
}

#[test]
fn all_parse_errors_are_reported_together() {
    let ds = build("A", &["Foo"], &["scoped", "bogus, transform = bad"]).unwrap_err();
    assert_eq!(ds.len(), 2);
    assert_eq!(ds[0].message, "Unknown argument `bogus' for #[sternum] attribute");
    assert_eq!(ds[0].location, Location::ConfigItem { fragment: 1, item: 0 });
    assert_eq!(
        ds[1].message,
        "Unexpected value for #[sternum(transform = ...)]; expected `uppercase' or `lowercase'"
    );
    assert_eq!(ds[1].location, Location::ConfigItem { fragment: 1, item: 1 });
}

#[test]
fn parser_yields_typed_options() {
    let (opts, diags) = parse_fragments(&strings(&["scoped, case_insensitive", "transform = uppercase"]));
    assert!(diags.is_empty());
    assert_eq!(
        opts,
        vec![
            RawOption::Scoped { location: Location::ConfigItem { fragment: 0, item: 0 } },
            RawOption::CaseInsensitive { location: Location::ConfigItem { fragment: 0, item: 1 } },
            RawOption::Transform {
                kind: TransformKind::Uppercase,
                location: Location::ConfigItem { fragment: 1, item: 0 },
            },
        ]
    );
}

#[test]
fn parser_accepts_spacing_variations() {
    let (opts, diags) = parse_fragments(&strings(&["  scoped ,transform=lowercase  "]));
    assert!(diags.is_empty());
    assert_eq!(opts.len(), 2);
    assert_eq!(
        opts[1],
        RawOption::Transform {
            kind: TransformKind::Lowercase,
            location: Location::ConfigItem { fragment: 0, item: 1 },
        }
    );
}

#[test]
fn merge_folds_options_in_order() {
    let loc = Location::ConfigItem { fragment: 0, item: 0 };
    let fs = merge_options(&vec![
        RawOption::Scoped { location: loc },
        RawOption::Transform { kind: TransformKind::Uppercase, location: loc },
    ])
    .unwrap();
    assert_eq!(
        fs,
        FeatureSet { scoped: true, case_insensitive: false, transform: Some(TransformKind::Uppercase) }
    );

    assert_eq!(merge_options(&Vec::new()).unwrap(), FeatureSet::new());

    let conflict = merge_options(&vec![
        RawOption::Transform { kind: TransformKind::Lowercase, location: loc },
        RawOption::Transform { kind: TransformKind::Uppercase, location: loc },
        RawOption::Transform { kind: TransformKind::Lowercase, location: loc },
    ])
    .unwrap_err();
    assert_eq!(conflict.len(), 1);
}

#[test]
fn resolver_applies_scope_then_transform() {
    let fs = FeatureSet {
        scoped: true,
        case_insensitive: false,
        transform: Some(TransformKind::Uppercase),
    };
    assert_eq!(resolve("Type", "Variant", &fs), "TYPE::VARIANT");
    assert_eq!(comparison_key("Type", "Variant", &fs), "TYPE::VARIANT");

    let ci = FeatureSet { scoped: true, case_insensitive: true, transform: Some(TransformKind::Uppercase) };
    assert_eq!(resolve("Type", "Variant", &ci), "TYPE::VARIANT");
    assert_eq!(comparison_key("Type", "Variant", &ci), "type::variant");
}

#[test]
fn scoped_and_transformed_lookup() {
    let t = build("Yelling", &["LoudNoises"], &["scoped, transform = uppercase"]).unwrap();
    assert_eq!(t.to_display(0).as_str(), "YELLING::LOUDNOISES");
    assert_eq!(t.resolve_from_str("YELLING::LOUDNOISES"), Ok(0));
    assert!(t.resolve_from_str("Yelling::LoudNoises").is_err());
    assert!(t.resolve_from_str("LOUDNOISES").is_err());
}

#[test]
fn lookup_error_message_and_equality() {
    let t = build("Enum", &["Foo"], &[]).unwrap();
    let err = t.resolve_from_str("unknown").unwrap_err();
    assert_eq!(err.message(), "Could not parse `unknown' as type Enum: unknown variant");
    assert_eq!(
        err,
        LookupError { input: "unknown".to_string(), type_label: "Enum".to_string() }
    );
    let other = t.resolve_from_str("also unknown").unwrap_err();
    assert_ne!(err, other);
}

#[test]
fn unknown_variant_error_equality() {
    let a: UnknownVariantError<Marker> = UnknownVariantError::new("x");
    let b: UnknownVariantError<Marker> = UnknownVariantError::new("x");
    let c: UnknownVariantError<Marker> = UnknownVariantError::new("y");
    assert_eq!(a.variant, "x");
    assert!(a == b);
    assert!(a != c);
}
