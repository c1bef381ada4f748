//! Configuration options and their merge into a feature set.
//!
//! The configuration attached to an enumeration arrives as a flat, ordered
//! list of [`RawOption`] values (the parser's output). Merging folds that
//! list into one validated [`FeatureSet`]:
//!
//! - `scoped` and `case_insensitive` each set their flag unconditionally, so
//!   repeating them is harmless;
//! - the first `transform` fixes the transform, a repeat with the same value
//!   is accepted, and a repeat with the other value produces one diagnostic
//!   per conflicting occurrence.
//!
//! Conflicts accumulate: the merge never stops at the first one.

use vstd::prelude::*;

use crate::diagnostics::{conflicting_transform_message, spec_conflicting_transform_message,
    Diagnostic, Location};

verus! {

/// An uppercase or lowercase transform.
#[derive(Clone, Copy, PartialEq, Eq, Structural, Debug)]
pub enum TransformKind {
    Uppercase,
    Lowercase,
}

/// One parsed configuration option, tagged with where it was written.
#[derive(Clone, Copy, PartialEq, Eq, Structural, Debug)]
pub enum RawOption {
    /// Qualify every variant's string with the enumeration's name.
    Scoped { location: Location },
    /// Accept any casing when parsing a string back into a variant.
    CaseInsensitive { location: Location },
    /// Fold every variant's string to one case.
    Transform { kind: TransformKind, location: Location },
}

impl RawOption {
    /// Where this option was written.
    pub open spec fn spec_location(self) -> Location {
        match self {
            RawOption::Scoped { location } => location,
            RawOption::CaseInsensitive { location } => location,
            RawOption::Transform { location, .. } => location,
        }
    }

    /// The transform this option requests, if it is a transform option.
    pub open spec fn spec_transform_kind(self) -> Option<TransformKind> {
        match self {
            RawOption::Transform { kind, .. } => Some(kind),
            _ => None,
        }
    }
}

/// The validated configuration: the result of a successful merge.
///
/// A value of this type is only ever built by [`merge_options`] (or as the
/// default, by [`FeatureSet::new`]); it is never partially valid.
#[derive(Clone, Copy, PartialEq, Eq, Debug)]
pub struct FeatureSet {
    pub scoped: bool,
    pub case_insensitive: bool,
    pub transform: Option<TransformKind>,
}

impl FeatureSet {
    /// The configuration in force when no fragments are present.
    pub open spec fn spec_default() -> FeatureSet {
        FeatureSet { scoped: false, case_insensitive: false, transform: None }
    }

    pub fn new() -> (r: FeatureSet)
        ensures
            r == FeatureSet::spec_default(),
    {
        FeatureSet { scoped: false, case_insensitive: false, transform: None }
    }
}

impl Default for FeatureSet {
    fn default() -> (r: Self)
        ensures
            r == FeatureSet::spec_default(),
    {
        FeatureSet::new()
    }
}

/// One merge step: the feature set after applying `opt`, and whether `opt`
/// conflicts with the set built so far.
pub open spec fn spec_apply(fs: FeatureSet, opt: RawOption) -> (FeatureSet, bool) {
    match opt {
        RawOption::Scoped { .. } => (
            FeatureSet { scoped: true, ..fs },
            false,
        ),
        RawOption::CaseInsensitive { .. } => (
            FeatureSet { case_insensitive: true, ..fs },
            false,
        ),
        RawOption::Transform { kind, .. } => match fs.transform {
            Some(prev) => (fs, prev != kind),
            None => (FeatureSet { transform: Some(kind), ..fs }, false),
        },
    }
}

/// The feature set that merging the whole option list produces.
pub open spec fn spec_merge(opts: Seq<RawOption>) -> FeatureSet
    decreases opts.len(),
{
    if opts.len() == 0 {
        FeatureSet::spec_default()
    } else {
        spec_apply(spec_merge(opts.drop_last()), opts.last()).0
    }
}

/// The conflict diagnostics that merging the whole option list produces, as
/// (message, location) pairs in option order.
pub open spec fn spec_merge_diags(opts: Seq<RawOption>) -> Seq<(Seq<char>, Location)>
    decreases opts.len(),
{
    if opts.len() == 0 {
        Seq::empty()
    } else {
        let rest = spec_merge_diags(opts.drop_last());
        if spec_apply(spec_merge(opts.drop_last()), opts.last()).1 {
            rest.push((spec_conflicting_transform_message(), opts.last().spec_location()))
        } else {
            rest
        }
    }
}

/// The kind of the first transform option in the list, if any. Later
/// transform options never displace it.
pub open spec fn spec_first_transform(opts: Seq<RawOption>) -> Option<TransformKind>
    decreases opts.len(),
{
    if opts.len() == 0 {
        None
    } else {
        match opts[0].spec_transform_kind() {
            Some(k) => Some(k),
            None => spec_first_transform(opts.drop_first()),
        }
    }
}

proof fn lemma_first_transform_drop_last(opts: Seq<RawOption>)
    requires
        opts.len() > 0,
    ensures
        spec_first_transform(opts) == (match spec_first_transform(opts.drop_last()) {
            Some(k) => Some(k),
            None => opts.last().spec_transform_kind(),
        }),
    decreases opts.len(),
{
    if opts.len() == 1 {
        assert(opts.drop_last() =~= Seq::empty());
    } else {
        assert(opts.drop_first().drop_last() =~= opts.drop_last().drop_first());
        assert(opts.drop_first().last() == opts.last());
        lemma_first_transform_drop_last(opts.drop_first());
    }
}

proof fn lemma_first_transform_realized(opts: Seq<RawOption>)
    ensures
        (spec_first_transform(opts) is Some) <==> (exists|i: int|
            0 <= i < opts.len() && (#[trigger] opts[i].spec_transform_kind()) is Some),
        spec_first_transform(opts) is Some ==> exists|i: int|
            0 <= i < opts.len() && (#[trigger] opts[i].spec_transform_kind())
                == spec_first_transform(opts),
    decreases opts.len(),
{
    if opts.len() > 0 {
        lemma_first_transform_realized(opts.drop_first());
        if opts[0].spec_transform_kind() is Some {
            assert(opts[0].spec_transform_kind() is Some);
        } else {
            let rest = opts.drop_first();
            if spec_first_transform(rest) is Some {
                let i = choose|i: int|
                    0 <= i < rest.len() && (#[trigger] rest[i].spec_transform_kind())
                        == spec_first_transform(rest);
                assert(opts[i + 1].spec_transform_kind() == spec_first_transform(opts));
            }
            if exists|i: int|
                0 <= i < opts.len() && (#[trigger] opts[i].spec_transform_kind()) is Some {
                let i = choose|i: int|
                    0 <= i < opts.len() && (#[trigger] opts[i].spec_transform_kind()) is Some;
                assert(i >= 1);
                assert(rest[i - 1].spec_transform_kind() is Some);
            }
        }
    }
}

/// How the merged feature set reads off the option list: a flag is set
/// exactly when some option sets it, and the transform is the first one
/// written.
pub proof fn lemma_merge_fields(opts: Seq<RawOption>)
    ensures
        spec_merge(opts).scoped <==> exists|i: int|
            0 <= i < opts.len() && (#[trigger] opts[i]) is Scoped,
        spec_merge(opts).case_insensitive <==> exists|i: int|
            0 <= i < opts.len() && (#[trigger] opts[i]) is CaseInsensitive,
        spec_merge(opts).transform == spec_first_transform(opts),
    decreases opts.len(),
{
    if opts.len() > 0 {
        let b = opts.drop_last();
        lemma_merge_fields(b);
        lemma_first_transform_drop_last(opts);
        if spec_merge(b).scoped {
            let i = choose|i: int| 0 <= i < b.len() && (#[trigger] b[i]) is Scoped;
            assert(opts[i] is Scoped);
        }
        if spec_merge(b).case_insensitive {
            let i = choose|i: int| 0 <= i < b.len() && (#[trigger] b[i]) is CaseInsensitive;
            assert(opts[i] is CaseInsensitive);
        }
        if exists|i: int| 0 <= i < opts.len() && (#[trigger] opts[i]) is Scoped {
            let i = choose|i: int| 0 <= i < opts.len() && (#[trigger] opts[i]) is Scoped;
            if i < opts.len() - 1 {
                assert(b[i] is Scoped);
            }
        }
        if exists|i: int| 0 <= i < opts.len() && (#[trigger] opts[i]) is CaseInsensitive {
            let i = choose|i: int| 0 <= i < opts.len() && (#[trigger] opts[i]) is CaseInsensitive;
            if i < opts.len() - 1 {
                assert(b[i] is CaseInsensitive);
            }
        }
    }
}

/// Merging reports no conflict exactly when all transform options in the
/// list ask for the same value. In particular, repeating `scoped` or
/// `case_insensitive`, or repeating one transform value, never fails, while
/// asking for both `uppercase` and `lowercase` always does.
pub proof fn lemma_merge_conflicts(opts: Seq<RawOption>)
    ensures
        spec_merge_diags(opts).len() == 0 <==> (forall|i: int, j: int|
            0 <= i < opts.len() && 0 <= j < opts.len()
                && (#[trigger] opts[i].spec_transform_kind()) is Some
                && (#[trigger] opts[j].spec_transform_kind()) is Some
                ==> opts[i].spec_transform_kind() == opts[j].spec_transform_kind()),
    decreases opts.len(),
{
    if opts.len() > 0 {
        let b = opts.drop_last();
        let x = opts.last();
        lemma_merge_conflicts(b);
        lemma_merge_fields(b);
        lemma_first_transform_realized(b);
        let agree_b = forall|i: int, j: int|
            0 <= i < b.len() && 0 <= j < b.len()
                && (#[trigger] b[i].spec_transform_kind()) is Some
                && (#[trigger] b[j].spec_transform_kind()) is Some
                ==> b[i].spec_transform_kind() == b[j].spec_transform_kind();
        let agree_all = forall|i: int, j: int|
            0 <= i < opts.len() && 0 <= j < opts.len()
                && (#[trigger] opts[i].spec_transform_kind()) is Some
                && (#[trigger] opts[j].spec_transform_kind()) is Some
                ==> opts[i].spec_transform_kind() == opts[j].spec_transform_kind();
        if agree_all {
            assert forall|i: int, j: int|
                0 <= i < b.len() && 0 <= j < b.len()
                    && (#[trigger] b[i].spec_transform_kind()) is Some
                    && (#[trigger] b[j].spec_transform_kind()) is Some
                    implies b[i].spec_transform_kind() == b[j].spec_transform_kind() by {
                assert(opts[i].spec_transform_kind() == opts[j].spec_transform_kind());
            }
            assert(spec_merge_diags(b).len() == 0);
            if x.spec_transform_kind() is Some && spec_first_transform(b) is Some {
                let i = choose|i: int|
                    0 <= i < b.len() && (#[trigger] b[i].spec_transform_kind())
                        == spec_first_transform(b);
                assert(opts[i].spec_transform_kind() == opts[opts.len() - 1].spec_transform_kind());
            }
            assert(!spec_apply(spec_merge(b), x).1);
        }
        if spec_merge_diags(opts).len() == 0 {
            assert(spec_merge_diags(b).len() == 0);
            assert(agree_b);
            assert forall|i: int, j: int|
                0 <= i < opts.len() && 0 <= j < opts.len()
                    && (#[trigger] opts[i].spec_transform_kind()) is Some
                    && (#[trigger] opts[j].spec_transform_kind()) is Some
                    implies opts[i].spec_transform_kind() == opts[j].spec_transform_kind() by {
                if i < opts.len() - 1 && j < opts.len() - 1 {
                    assert(b[i].spec_transform_kind() == b[j].spec_transform_kind());
                } else {
                    assert(!spec_apply(spec_merge(b), x).1);
                    if i < opts.len() - 1 || j < opts.len() - 1 {
                        let k = if i < opts.len() - 1 { i } else { j };
                        assert(b[k].spec_transform_kind() is Some);
                        assert(spec_first_transform(b) is Some);
                        let f = choose|f: int|
                            0 <= f < b.len() && (#[trigger] b[f].spec_transform_kind())
                                == spec_first_transform(b);
                        assert(b[f].spec_transform_kind() == b[k].spec_transform_kind());
                        assert(spec_first_transform(b) == x.spec_transform_kind());
                    }
                }
            }
        }
    }
}

/// Fold the parsed options into one validated feature set, or report every
/// conflicting repeat.
pub fn merge_options(opts: &Vec<RawOption>) -> (r: Result<FeatureSet, Vec<Diagnostic>>)
    ensures
        match r {
            Ok(fs) => spec_merge_diags(opts@).len() == 0 && fs == spec_merge(opts@),
            Err(ds) => ds.deep_view() == spec_merge_diags(opts@) && ds.len() > 0,
        },
{
    let mut fs = FeatureSet::new();
    let mut ds: Vec<Diagnostic> = Vec::new();
    let n = opts.len();
    for j in 0..n
        invariant
            n == opts@.len(),
            fs == spec_merge(opts@.take(j as int)),
            ds.deep_view() == spec_merge_diags(opts@.take(j as int)),
    {
        proof {
            assert(opts@.take(j + 1).drop_last() =~= opts@.take(j as int));
            assert(opts@.take(j + 1).last() == opts@[j as int]);
        }
        match opts[j] {
            RawOption::Scoped { .. } => {
                fs.scoped = true;
            },
            RawOption::CaseInsensitive { .. } => {
                fs.case_insensitive = true;
            },
            RawOption::Transform { kind, location } => {
                match fs.transform {
                    Some(prev) => {
                        if prev != kind {
                            ds.push(
                                Diagnostic { message: conflicting_transform_message(), location },
                            );
                        }
                    },
                    None => {
                        fs.transform = Some(kind);
                    },
                }
            },
        }
        proof {
            assert(ds.deep_view() =~= spec_merge_diags(opts@.take(j + 1)));
        }
    }
    proof {
        assert(opts@.take(n as int) =~= opts@);
    }
    if ds.len() == 0 {
        Ok(fs)
    } else {
        Err(ds)
    }
}

} // verus!
