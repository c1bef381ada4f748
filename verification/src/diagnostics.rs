//! Construction-time diagnostics.
//!
//! Every stage of the pipeline reports its failures as a list of
//! [`Diagnostic`] values instead of stopping at the first error. A diagnostic
//! carries a human-readable message and a [`Location`]; locations are opaque
//! to the engine itself — they are threaded through for error reporting and
//! never interpreted.

use vstd::prelude::*;

verus! {

/// Where in the input a diagnostic points.
#[derive(Clone, Copy, PartialEq, Eq, Structural, Debug)]
pub enum Location {
    /// The `item`-th comma-separated item of the `fragment`-th configuration
    /// fragment, both counted from zero.
    ConfigItem { fragment: usize, item: usize },
    /// The variant at `index` in the schema's declaration order.
    VariantName { index: usize },
}

/// A reportable construction-time error: a message and a source location.
#[derive(Debug)]
pub struct Diagnostic {
    pub message: String,
    pub location: Location,
}

/// A diagnostic is modelled as the pair of its message's characters and its
/// location.
impl View for Diagnostic {
    type V = (Seq<char>, Location);

    open spec fn view(&self) -> (Seq<char>, Location) {
        (self.message@, self.location)
    }
}

impl DeepView for Diagnostic {
    type V = (Seq<char>, Location);

    open spec fn deep_view(&self) -> (Seq<char>, Location) {
        self.view()
    }
}

/// Two diagnostics are equal when they carry the same message and point at
/// the same location.
impl PartialEq for Diagnostic {
    fn eq(&self, other: &Self) -> bool {
        self.message == other.message && self.location == other.location
    }
}

impl vstd::std_specs::cmp::PartialEqSpecImpl for Diagnostic {
    open spec fn obeys_eq_spec() -> bool {
        true
    }

    open spec fn eq_spec(&self, other: &Self) -> bool {
        self.message@ == other.message@ && self.location == other.location
    }
}

impl Eq for Diagnostic {}

/// Message of the diagnostic for a configuration fragment with no items at
/// all (a bare `sternum` marker without a parenthesized argument list).
pub open spec fn spec_empty_fragment_message() -> Seq<char> {
    "Unexpected attribute #[sternum]; expected #[sternum(...)]"@
}

pub fn empty_fragment_message() -> (r: String)
    ensures
        r@ == spec_empty_fragment_message(),
{
    "Unexpected attribute #[sternum]; expected #[sternum(...)]".to_owned()
}

/// Message of the diagnostic for a configuration item that is not of the
/// shape `option` or `option = value`.
pub open spec fn spec_malformed_item_message() -> Seq<char> {
    "Expected `option' or `option = value' in #[sternum(...)] attribute"@
}

pub fn malformed_item_message() -> (r: String)
    ensures
        r@ == spec_malformed_item_message(),
{
    "Expected `option' or `option = value' in #[sternum(...)] attribute".to_owned()
}

/// Message of the diagnostic for an option whose name is not recognized.
pub open spec fn spec_unknown_argument_message(ident: Seq<char>) -> Seq<char> {
    "Unknown argument `"@ + ident + "' for #[sternum] attribute"@
}

pub fn unknown_argument_message(ident: &str) -> (r: String)
    ensures
        r@ == spec_unknown_argument_message(ident@),
{
    let mut m = "Unknown argument `".to_owned();
    m.append(ident);
    m.append("' for #[sternum] attribute");
    m
}

/// Message of the diagnostic for a `transform = ...` option whose value is
/// neither `uppercase` nor `lowercase`.
pub open spec fn spec_bad_transform_value_message() -> Seq<char> {
    "Unexpected value for #[sternum(transform = ...)]; expected `uppercase' or `lowercase'"@
}

pub fn bad_transform_value_message() -> (r: String)
    ensures
        r@ == spec_bad_transform_value_message(),
{
    "Unexpected value for #[sternum(transform = ...)]; expected `uppercase' or `lowercase'".to_owned()
}

/// Message of the diagnostic for a repeated `transform = ...` option whose
/// value contradicts the value recorded earlier.
pub open spec fn spec_conflicting_transform_message() -> Seq<char> {
    "Repeated `transform' with a conflicting value"@
}

pub fn conflicting_transform_message() -> (r: String)
    ensures
        r@ == spec_conflicting_transform_message(),
{
    "Repeated `transform' with a conflicting value".to_owned()
}

/// Message of the diagnostic for a variant whose comparison key collides
/// with the key of an earlier variant.
pub open spec fn spec_collision_message(current: Seq<char>, previous: Seq<char>) -> Seq<char> {
    "The variant `"@ + current + "' is a case-insensitive match of a previous identifier (`"@
        + previous + "')"@
}

pub fn collision_message(current: &str, previous: &str) -> (r: String)
    ensures
        r@ == spec_collision_message(current@, previous@),
{
    let mut m = "The variant `".to_owned();
    m.append(current);
    m.append("' is a case-insensitive match of a previous identifier (`");
    m.append(previous);
    m.append("')");
    m
}

} // verus!
