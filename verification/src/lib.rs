//! Sternum computes bidirectional mappings between the variants of a named
//! enumeration and canonical string spellings of those variants.
//!
//! The crate is a small compiler pass. Given an [`EnumSchema`] — the name of a
//! type together with its ordered, data-less variants — and the raw text of
//! zero or more `sternum(...)` configuration fragments, it
//!
//! 1. parses the fragments into typed options ([`parse`]),
//! 2. merges the options into one validated [`features::FeatureSet`],
//! 3. rejects configurations under which two variants would become
//!    indistinguishable,
//! 4. resolves the canonical display string of every variant, and
//! 5. synthesizes the forward (variant to string) and reverse (string to
//!    variant) lookup tables.
//!
//! Every stage accumulates diagnostics instead of stopping at the first
//! error, and the whole pipeline is a pure function of its inputs.
//!
//! [`EnumSchema`]: schema::EnumSchema

use vstd::prelude::*;

pub mod chars;
pub mod diagnostics;
pub mod features;
pub mod parse;
pub mod resolve;
pub mod schema;
pub mod table;

verus! {

/// An error indicating that a string could not be parsed as a `T` variant.
///
/// This is the failure value handed back by the parse entry point that
/// consumers build from a synthesized mapping table for a concrete
/// enumeration type `T`.
pub struct UnknownVariantError<T> {
    /// The string that could not be parsed.
    pub variant: String,
    /// Marker tying the error to the enumeration type it speaks of.
    pub marker: core::marker::PhantomData<T>,
}

impl<T> UnknownVariantError<T> {
    /// Generate a new error.
    pub fn new(variant: &str) -> (r: Self)
        ensures
            r.variant@ == variant@,
    {
        UnknownVariantError { variant: variant.to_owned(), marker: core::marker::PhantomData }
    }
}

/// Two unknown-variant errors are equal exactly when the strings they carry
/// are equal; the enumeration type itself holds no data.
impl<T> PartialEq for UnknownVariantError<T> {
    fn eq(&self, other: &Self) -> bool {
        self.variant == other.variant
    }
}

impl<T> vstd::std_specs::cmp::PartialEqSpecImpl for UnknownVariantError<T> {
    open spec fn obeys_eq_spec() -> bool {
        true
    }

    open spec fn eq_spec(&self, other: &Self) -> bool {
        self.variant@ == other.variant@
    }
}

impl<T> Eq for UnknownVariantError<T> {}

/// The Sternum trait.
///
/// Consumers implement it for each enumeration a mapping table was
/// synthesized for; the type's name is used when rendering the message of an
/// [`UnknownVariantError`].
pub trait Sternum {
    /// The name of the type.
    fn type_label() -> &'static str;
}

} // verus!
