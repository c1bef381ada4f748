//! The abstract shape of the enumeration being processed.

use vstd::prelude::*;

verus! {

/// The name of a type together with its ordered, data-less variants.
///
/// A schema arrives from structural extraction of a source-level
/// declaration, which has already rejected anything that is not an
/// enumeration of at least one unit variant; the identifiers are distinct
/// because the host type system requires them to be. [`EnumSchema::wf`]
/// records exactly those two facts, and the engine assumes them rather than
/// re-deriving them.
#[derive(Debug)]
pub struct EnumSchema {
    /// The enumeration's own name.
    pub type_label: String,
    /// The variant identifiers, in declaration order, spelled exactly as
    /// declared.
    pub variants: Vec<String>,
}

impl EnumSchema {
    /// The variant identifiers as character sequences, in declaration order.
    pub open spec fn variant_names(&self) -> Seq<Seq<char>> {
        self.variants.deep_view()
    }

    /// At least one variant, and no two variants spelled alike.
    pub open spec fn wf(&self) -> bool {
        &&& self.variant_names().len() > 0
        &&& forall|i: int, j: int|
            0 <= i < j < self.variant_names().len() ==> self.variant_names()[i]
                != self.variant_names()[j]
    }
}

} // verus!
