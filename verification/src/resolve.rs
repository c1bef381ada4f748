//! The name resolver: from a variant to its canonical strings.
//!
//! Two strings matter for each variant. The *display* string is what the
//! variant prints as: the identifier, prefixed with `Type::` under `scoped`,
//! then folded whole by the configured transform. The *comparison key* is
//! what reverse lookup and collision detection compare against: the same
//! scoped base, folded to lowercase under `case_insensitive`, else folded by
//! the transform, else left alone. `case_insensitive` thus wins over the
//! transform for matching purposes while never touching the display string.
//!
//! Lookup itself folds the input to lowercase exactly when
//! `case_insensitive` is set ([`spec_normalize_input`]); sharing one key
//! function between the collision check and the reverse table is what makes
//! the two agree.

use vstd::prelude::*;

use crate::chars::{lemma_fold_idempotent, lemma_lower_absorbs, lower_chars, to_lower_str,
    to_upper_str, upper_chars};
use crate::features::{FeatureSet, TransformKind};

verus! {

/// The variant identifier qualified by the enumeration's name.
pub open spec fn spec_scoped(ty: Seq<char>, v: Seq<char>) -> Seq<char> {
    ty + "::"@ + v
}

/// The base string naming policies act on: the identifier as declared,
/// qualified under `scoped`.
pub open spec fn spec_base(ty: Seq<char>, v: Seq<char>, fs: FeatureSet) -> Seq<char> {
    if fs.scoped {
        spec_scoped(ty, v)
    } else {
        v
    }
}

/// The display string of a variant: the scoped base, folded whole by the
/// transform. Scoping acts on the unmodified identifiers and the transform
/// on the already-scoped string, in that order.
pub open spec fn spec_resolve(ty: Seq<char>, v: Seq<char>, fs: FeatureSet) -> Seq<char> {
    match fs.transform {
        Some(TransformKind::Uppercase) => upper_chars(spec_base(ty, v, fs)),
        Some(TransformKind::Lowercase) => lower_chars(spec_base(ty, v, fs)),
        None => spec_base(ty, v, fs),
    }
}

/// The comparison key of a variant: the scoped base under the normalization
/// that lookup applies — lowercased under `case_insensitive`, else folded by
/// the transform, else left as written.
pub open spec fn spec_comparison_key(ty: Seq<char>, v: Seq<char>, fs: FeatureSet) -> Seq<char> {
    if fs.case_insensitive {
        lower_chars(spec_base(ty, v, fs))
    } else {
        spec_resolve(ty, v, fs)
    }
}

/// What lookup compares an input string as: folded to lowercase exactly when
/// the configuration is case-insensitive.
pub open spec fn spec_normalize_input(s: Seq<char>, case_insensitive: bool) -> Seq<char> {
    if case_insensitive {
        lower_chars(s)
    } else {
        s
    }
}

/// Compute the display string of one variant.
pub fn resolve(type_label: &str, variant: &str, fs: &FeatureSet) -> (r: String)
    ensures
        r@ == spec_resolve(type_label@, variant@, *fs),
{
    let base = scoped_base(type_label, variant, fs);
    match fs.transform {
        Some(TransformKind::Uppercase) => to_upper_str(base.as_str()),
        Some(TransformKind::Lowercase) => to_lower_str(base.as_str()),
        None => base,
    }
}

/// Compute the comparison key of one variant.
pub fn comparison_key(type_label: &str, variant: &str, fs: &FeatureSet) -> (r: String)
    ensures
        r@ == spec_comparison_key(type_label@, variant@, *fs),
{
    if fs.case_insensitive {
        let base = scoped_base(type_label, variant, fs);
        to_lower_str(base.as_str())
    } else {
        resolve(type_label, variant, fs)
    }
}

fn scoped_base(type_label: &str, variant: &str, fs: &FeatureSet) -> (r: String)
    ensures
        r@ == spec_base(type_label@, variant@, *fs),
{
    if fs.scoped {
        let mut b = type_label.to_owned();
        b.append("::");
        b.append(variant);
        b
    } else {
        variant.to_owned()
    }
}

/// Round trip: the lookup-time normalization of a variant's display string
/// is exactly that variant's comparison key, under every configuration. What
/// a variant displays as therefore always parses back, and only the display
/// string's own normalization class does.
pub proof fn lemma_display_key_agree(ty: Seq<char>, v: Seq<char>, fs: FeatureSet)
    ensures
        spec_normalize_input(spec_resolve(ty, v, fs), fs.case_insensitive) == spec_comparison_key(
            ty,
            v,
            fs,
        ),
{
    if fs.case_insensitive {
        lemma_lower_absorbs(spec_base(ty, v, fs));
    }
}

/// Under `scoped` and no transform, a variant displays as exactly
/// `Type::Variant`: the enumeration's name, the two-colon separator, and the
/// identifier as declared.
pub proof fn lemma_scoped_display(ty: Seq<char>, v: Seq<char>, fs: FeatureSet)
    requires
        fs.scoped,
        fs.transform is None,
    ensures
        spec_resolve(ty, v, fs) == ty + "::"@ + v,
{
}

/// Display is unaffected by `case_insensitive`: resolving under any
/// configuration gives the same string as resolving with the flag cleared.
pub proof fn lemma_display_ignores_case_insensitive(ty: Seq<char>, v: Seq<char>, fs: FeatureSet)
    ensures
        spec_resolve(ty, v, fs) == spec_resolve(
            ty,
            v,
            FeatureSet { case_insensitive: false, ..fs },
        ),
{
}

/// Under `case_insensitive`, every casing of a variant's display string
/// normalizes to that variant's comparison key: lookup accepts it.
pub proof fn lemma_case_insensitive_accepts_any_casing(
    ty: Seq<char>,
    v: Seq<char>,
    fs: FeatureSet,
    s: Seq<char>,
)
    requires
        fs.case_insensitive,
        lower_chars(s) == lower_chars(spec_resolve(ty, v, fs)),
    ensures
        spec_normalize_input(s, fs.case_insensitive) == spec_comparison_key(ty, v, fs),
{
    lemma_lower_absorbs(spec_base(ty, v, fs));
}

/// Under a transform (and no `case_insensitive`), both the display string
/// and the comparison key are fixed points of that fold: the display is all
/// one case, and only all-one-case input can match a key.
pub proof fn lemma_transform_fixed_point(ty: Seq<char>, v: Seq<char>, fs: FeatureSet)
    ensures
        fs.transform == Some(TransformKind::Uppercase) ==> spec_resolve(ty, v, fs) == upper_chars(
            spec_resolve(ty, v, fs),
        ),
        fs.transform == Some(TransformKind::Lowercase) ==> spec_resolve(ty, v, fs) == lower_chars(
            spec_resolve(ty, v, fs),
        ),
{
    lemma_fold_idempotent(spec_base(ty, v, fs));
}

/// Under `transform = uppercase` without `case_insensitive`, an input that
/// is not all-caps matches no variant's key; symmetrically for lowercase.
/// Mixed-case input therefore always fails to parse.
pub proof fn lemma_transform_rejects_mixed_case(
    ty: Seq<char>,
    v: Seq<char>,
    fs: FeatureSet,
    s: Seq<char>,
)
    ensures
        !fs.case_insensitive && fs.transform == Some(TransformKind::Uppercase) && s != upper_chars(
            s,
        ) ==> s != spec_comparison_key(ty, v, fs),
        !fs.case_insensitive && fs.transform == Some(TransformKind::Lowercase) && s != lower_chars(
            s,
        ) ==> s != spec_comparison_key(ty, v, fs),
{
    lemma_fold_idempotent(spec_base(ty, v, fs));
    if s == spec_comparison_key(ty, v, fs) {
        assert(upper_chars(upper_chars(spec_base(ty, v, fs))) == upper_chars(spec_base(ty, v, fs)));
    }
}

/// Under `scoped`, every comparison key carries the literal `::` separator,
/// so an input without a colon — any bare identifier, in particular every
/// unscoped variant spelling — matches no key.
pub proof fn lemma_scoped_rejects_unscoped(ty: Seq<char>, v: Seq<char>, fs: FeatureSet, s: Seq<char>)
    requires
        fs.scoped,
        forall|i: int| 0 <= i < s.len() ==> s[i] != ':',
    ensures
        spec_normalize_input(s, fs.case_insensitive) != spec_comparison_key(ty, v, fs),
{
    let key = spec_comparison_key(ty, v, fs);
    let base = spec_scoped(ty, v);
    reveal_strlit("::");
    assert("::"@.len() == 2 && "::"@[0] == ':');
    assert(base[ty.len() as int] == ':');
    assert(key.len() == base.len());
    assert(key[ty.len() as int] == ':') by {
        assert(upper_chars(base)[ty.len() as int] == ':');
        assert(lower_chars(base)[ty.len() as int] == ':');
    }
    let probe = spec_normalize_input(s, fs.case_insensitive);
    assert(probe.len() == s.len());
    if probe == key {
        let i = ty.len() as int;
        assert(probe[i] == ':');
        if fs.case_insensitive {
            assert(lower_chars(s)[i] == ':');
            assert(s[i] != ':');
            assert(false);
        }
    }
}

} // verus!
