//! The collision gate and the synthesized mapping tables.
//!
//! Once the configuration has parsed and merged, the collision validator
//! checks that no two variants share a comparison key — otherwise the
//! reverse table could not be the inverse of the forward table. The check
//! only activates when `case_insensitive` or a transform is set; under the
//! default configuration the identifiers themselves are the keys and the
//! host type system already keeps them distinct.
//!
//! The synthesizer then builds the forward (variant to display string) and
//! reverse (comparison key to variant) tables, one entry per variant in
//! declaration order, together with the error value reverse lookup hands
//! back for unknown input.

use vstd::prelude::*;

use crate::chars::{str_eq, to_lower_str};
use crate::diagnostics::{collision_message, spec_collision_message, Diagnostic, Location};
use crate::features::{merge_options, spec_merge, spec_merge_diags, FeatureSet};
use crate::parse::{parse_fragments, spec_parse_fragments};
use crate::resolve::{comparison_key, resolve, spec_comparison_key, spec_normalize_input,
    spec_resolve};
use crate::schema::EnumSchema;

verus! {

/// The error value reverse lookup returns: the original input, unmodified,
/// and the enumeration's name for diagnostic rendering.
#[derive(Debug)]
pub struct LookupError {
    /// The string that could not be parsed.
    pub input: String,
    /// The name of the enumeration the lookup ran against.
    pub type_label: String,
}

impl View for LookupError {
    type V = (Seq<char>, Seq<char>);

    open spec fn view(&self) -> (Seq<char>, Seq<char>) {
        (self.input@, self.type_label@)
    }
}

impl DeepView for LookupError {
    type V = (Seq<char>, Seq<char>);

    open spec fn deep_view(&self) -> (Seq<char>, Seq<char>) {
        self.view()
    }
}

/// Two lookup errors are equal exactly when the strings they carry are
/// equal.
impl PartialEq for LookupError {
    fn eq(&self, other: &Self) -> bool {
        self.input == other.input && self.type_label == other.type_label
    }
}

impl vstd::std_specs::cmp::PartialEqSpecImpl for LookupError {
    open spec fn obeys_eq_spec() -> bool {
        true
    }

    open spec fn eq_spec(&self, other: &Self) -> bool {
        self.input@ == other.input@ && self.type_label@ == other.type_label@
    }
}

impl Eq for LookupError {}

/// The defined rendering of a lookup error.
pub open spec fn spec_lookup_message(input: Seq<char>, type_label: Seq<char>) -> Seq<char> {
    "Could not parse `"@ + input + "' as type "@ + type_label + ": unknown variant"@
}

impl LookupError {
    /// Render the error's message.
    pub fn message(&self) -> (r: String)
        ensures
            r@ == spec_lookup_message(self.input@, self.type_label@),
    {
        let mut m = "Could not parse `".to_owned();
        m.append(self.input.as_str());
        m.append("' as type ");
        m.append(self.type_label.as_str());
        m.append(": unknown variant");
        m
    }
}

/// The comparison keys of all variants, in declaration order.
pub open spec fn spec_keys(schema: EnumSchema, fs: FeatureSet) -> Seq<Seq<char>> {
    Seq::new(
        schema.variant_names().len(),
        |i: int| spec_comparison_key(schema.type_label@, schema.variant_names()[i], fs),
    )
}

/// Whether the configured naming policy can make distinct identifiers
/// collide; under the default policy no check is needed.
pub open spec fn spec_collision_active(fs: FeatureSet) -> bool {
    fs.case_insensitive || fs.transform is Some
}

/// The smallest `i` in `lo <= i < j` whose key equals key `j`, or `j` when
/// there is none.
pub open spec fn spec_first_match_from(keys: Seq<Seq<char>>, j: int, lo: int) -> int
    decreases j - lo,
{
    if lo < j {
        if keys[lo] == keys[j] {
            lo
        } else {
            spec_first_match_from(keys, j, lo + 1)
        }
    } else {
        j
    }
}

/// The first earlier variant sharing key `j`, or `j` itself when none does.
pub open spec fn spec_first_match(keys: Seq<Seq<char>>, j: int) -> int {
    spec_first_match_from(keys, j, 0)
}

pub proof fn lemma_first_match_props(keys: Seq<Seq<char>>, j: int, lo: int)
    requires
        0 <= lo <= j,
    ensures
        lo <= spec_first_match_from(keys, j, lo) <= j,
        spec_first_match_from(keys, j, lo) < j ==> keys[spec_first_match_from(keys, j, lo)]
            == keys[j],
        forall|i: int| lo <= i < spec_first_match_from(keys, j, lo) ==> keys[i] != keys[j],
        spec_first_match_from(keys, j, lo) == j ==> forall|i: int|
            lo <= i < j ==> keys[i] != keys[j],
    decreases j - lo,
{
    if lo < j && keys[lo] != keys[j] {
        lemma_first_match_props(keys, j, lo + 1);
    }
}

/// The collision diagnostics among the first `j` variants, one per variant
/// whose key repeats an earlier variant's key, in declaration order.
pub open spec fn spec_collision_diags_upto(schema: EnumSchema, fs: FeatureSet, j: int) -> Seq<
    (Seq<char>, Location),
>
    decreases j,
{
    if j <= 0 {
        Seq::empty()
    } else {
        let rest = spec_collision_diags_upto(schema, fs, j - 1);
        let keys = spec_keys(schema, fs);
        let prior = spec_first_match(keys, j - 1);
        if prior < j - 1 {
            rest.push(
                (
                    spec_collision_message(
                        schema.variant_names()[j - 1],
                        schema.variant_names()[prior],
                    ),
                    Location::VariantName { index: (j - 1) as usize },
                ),
            )
        } else {
            rest
        }
    }
}

/// The diagnostics the collision validator reports: none when the policy
/// cannot introduce collisions, else one per colliding pair of variants.
pub open spec fn spec_validate(schema: EnumSchema, fs: FeatureSet) -> Seq<(Seq<char>, Location)> {
    if spec_collision_active(fs) {
        spec_collision_diags_upto(schema, fs, schema.variant_names().len() as int)
    } else {
        Seq::empty()
    }
}

/// Find the first earlier variant whose key equals key `j`.
fn first_key_match(keys: &Vec<String>, j: usize) -> (r: usize)
    requires
        j < keys@.len(),
    ensures
        r == spec_first_match(keys.deep_view(), j as int),
{
    let mut lo: usize = 0;
    while lo < j
        invariant
            j < keys@.len(),
            lo <= j,
            spec_first_match(keys.deep_view(), j as int) == spec_first_match_from(
                keys.deep_view(),
                j as int,
                lo as int,
            ),
        decreases j - lo,
    {
        if str_eq(keys[lo].as_str(), keys[j].as_str()) {
            return lo;
        }
        lo = lo + 1;
    }
    j
}

/// Scan the variants in declaration order and report, for every variant
/// whose comparison key already appeared, one diagnostic naming it and the
/// first variant that produced that key. The scan always runs to the end.
pub fn validate_collisions(schema: &EnumSchema, fs: &FeatureSet) -> (ds: Vec<Diagnostic>)
    ensures
        ds.deep_view() == spec_validate(*schema, *fs),
{
    let mut ds: Vec<Diagnostic> = Vec::new();
    let active = fs.case_insensitive || match fs.transform {
        Some(_) => true,
        None => false,
    };
    if !active {
        proof {
            assert(ds.deep_view() =~= spec_validate(*schema, *fs));
        }
        return ds;
    }
    let n = schema.variants.len();
    let mut keys: Vec<String> = Vec::new();
    for i in 0..n
        invariant
            n == schema.variants@.len(),
            keys@.len() == i,
            forall|k: int| 0 <= k < i ==> keys@[k]@ == spec_keys(*schema, *fs)[k],
    {
        keys.push(comparison_key(schema.type_label.as_str(), schema.variants[i].as_str(), fs));
    }
    proof {
        assert(keys.deep_view() =~~= spec_keys(*schema, *fs));
    }
    for j in 0..n
        invariant
            n == schema.variants@.len(),
            keys.deep_view() =~~= spec_keys(*schema, *fs),
            keys@.len() == n,
            ds.deep_view() == spec_collision_diags_upto(*schema, *fs, j as int),
    {
        let prior = first_key_match(&keys, j);
        if prior < j {
            ds.push(
                Diagnostic {
                    message: collision_message(
                        schema.variants[j].as_str(),
                        schema.variants[prior].as_str(),
                    ),
                    location: Location::VariantName { index: j },
                },
            );
        }
        proof {
            assert(ds.deep_view() =~= spec_collision_diags_upto(*schema, *fs, j + 1));
        }
    }
    ds
}

/// The synthesized lookup tables for one enumeration.
///
/// `forward` holds the display string of every variant, one entry per
/// variant in declaration order; `reverse` holds each variant's comparison
/// key with the variant's index. `case_insensitive` records whether lookup
/// folds its input, and `type_label` names the enumeration for error
/// rendering.
#[derive(Debug)]
pub struct MappingTable {
    /// The enumeration's name.
    pub type_label: String,
    /// Whether reverse lookup folds its input to lowercase.
    pub case_insensitive: bool,
    /// Variant index to display string.
    pub forward: Vec<String>,
    /// Comparison key to variant index.
    pub reverse: Vec<(String, usize)>,
}

impl MappingTable {
    /// The tables are aligned, entry `i` of the reverse table names variant
    /// `i`, and no two reverse keys are alike — the reverse table is the
    /// exact inverse of the forward table under normalization.
    pub open spec fn wf(&self) -> bool {
        &&& self.reverse@.len() == self.forward@.len()
        &&& forall|i: int| 0 <= i < self.reverse@.len() ==> (#[trigger] self.reverse@[i]).1 == i
        &&& forall|i: int, j: int|
            0 <= i < j < self.reverse@.len() ==> self.reverse@[i].0@ != self.reverse@[j].0@
    }

    /// The table is the one that resolving `schema` under `fs` produces:
    /// one forward entry and one reverse entry per variant, in declaration
    /// order, holding that variant's display string and comparison key.
    pub open spec fn models(&self, schema: EnumSchema, fs: FeatureSet) -> bool {
        let n = schema.variant_names().len();
        &&& self.type_label@ == schema.type_label@
        &&& self.case_insensitive == fs.case_insensitive
        &&& self.forward@.len() == n
        &&& forall|i: int|
            0 <= i < n ==> (#[trigger] self.forward@[i])@ == spec_resolve(
                schema.type_label@,
                schema.variant_names()[i],
                fs,
            )
        &&& self.reverse@.len() == n
        &&& forall|i: int|
            0 <= i < n ==> (#[trigger] self.reverse@[i]).0@ == spec_comparison_key(
                schema.type_label@,
                schema.variant_names()[i],
                fs,
            ) && self.reverse@[i].1 == i
    }

    /// The display string of the variant at index `v`.
    pub fn to_display(&self, v: usize) -> (r: &String)
        requires
            v < self.forward@.len(),
        ensures
            r@ == self.forward@[v as int]@,
    {
        &self.forward[v]
    }

    /// Parse a string back into a variant index: normalize the input as the
    /// configuration asks and return the variant whose comparison key it
    /// equals, or an error carrying the original, unmodified input and the
    /// enumeration's name.
    pub fn resolve_from_str(&self, s: &str) -> (r: Result<usize, LookupError>)
        requires
            self.wf(),
        ensures
            match r {
                Ok(i) => i < self.reverse@.len() && self.reverse@[i as int].0@
                    == spec_normalize_input(s@, self.case_insensitive),
                Err(e) => {
                    &&& forall|k: int|
                        0 <= k < self.reverse@.len() ==> (#[trigger] self.reverse@[k]).0@
                            != spec_normalize_input(s@, self.case_insensitive)
                    &&& e.input@ == s@
                    &&& e.type_label@ == self.type_label@
                },
            },
    {
        let probe = if self.case_insensitive {
            to_lower_str(s)
        } else {
            s.to_owned()
        };
        let n = self.reverse.len();
        for k in 0..n
            invariant
                n == self.reverse@.len(),
                probe@ == spec_normalize_input(s@, self.case_insensitive),
                self.wf(),
                forall|i: int| 0 <= i < k ==> (#[trigger] self.reverse@[i]).0@ != probe@,
        {
            if str_eq(self.reverse[k].0.as_str(), probe.as_str()) {
                return Ok(self.reverse[k].1);
            }
        }
        Err(LookupError { input: s.to_owned(), type_label: self.type_label.clone() })
    }
}

/// What the whole construction pipeline yields for a schema and its raw
/// fragments: the merged features when every stage is clean, else the first
/// stage's diagnostics — parse errors, then merge conflicts, then
/// collisions.
pub open spec fn spec_pipeline(schema: EnumSchema, frags: Seq<Seq<char>>) -> Result<
    FeatureSet,
    Seq<(Seq<char>, Location)>,
> {
    let parsed = spec_parse_fragments(frags);
    if parsed.1.len() > 0 {
        Err(parsed.1)
    } else if spec_merge_diags(parsed.0).len() > 0 {
        Err(spec_merge_diags(parsed.0))
    } else if spec_validate(schema, spec_merge(parsed.0)).len() > 0 {
        Err(spec_validate(schema, spec_merge(parsed.0)))
    } else {
        Ok(spec_merge(parsed.0))
    }
}

proof fn lemma_scoped_injective(ty: Seq<char>, v1: Seq<char>, v2: Seq<char>)
    requires
        crate::resolve::spec_scoped(ty, v1) == crate::resolve::spec_scoped(ty, v2),
    ensures
        v1 == v2,
{
    reveal_strlit("::");
    let s1 = crate::resolve::spec_scoped(ty, v1);
    let lo = ty.len() + 2;
    assert(v1 =~= s1.subrange(lo as int, s1.len() as int));
    assert(v2 =~= s1.subrange(lo as int, s1.len() as int));
}

/// Under a policy with neither `case_insensitive` nor a transform, the
/// comparison keys of a well-formed schema are distinct by construction:
/// the identifiers are distinct, and scoping prefixes them all alike.
pub proof fn lemma_inactive_keys_distinct(schema: EnumSchema, fs: FeatureSet)
    requires
        schema.wf(),
        !spec_collision_active(fs),
    ensures
        forall|a: int, b: int|
            0 <= a < b < spec_keys(schema, fs).len() ==> spec_keys(schema, fs)[a] != spec_keys(
                schema,
                fs,
            )[b],
{
    let keys = spec_keys(schema, fs);
    let names = schema.variant_names();
    assert forall|a: int, b: int| 0 <= a < b < keys.len() implies keys[a] != keys[b] by {
        if keys[a] == keys[b] {
            if fs.scoped {
                lemma_scoped_injective(schema.type_label@, names[a], names[b]);
            }
            assert(names[a] == names[b]);
        }
    }
}

proof fn lemma_collision_diags_empty_iff_distinct(schema: EnumSchema, fs: FeatureSet, j: int)
    requires
        0 <= j <= spec_keys(schema, fs).len(),
    ensures
        spec_collision_diags_upto(schema, fs, j).len() == 0 <==> (forall|a: int, b: int|
            0 <= a < b < j ==> spec_keys(schema, fs)[a] != spec_keys(schema, fs)[b]),
    decreases j,
{
    let keys = spec_keys(schema, fs);
    if j > 0 {
        lemma_collision_diags_empty_iff_distinct(schema, fs, j - 1);
        lemma_first_match_props(keys, j - 1, 0);
    }
}

/// Collision detection is exhaustive: with `case_insensitive` or a transform
/// set, the validator reports no diagnostic exactly when all comparison keys
/// are pairwise distinct. No colliding configuration slips through, and no
/// clean one is rejected.
pub proof fn lemma_collision_check_exhaustive(schema: EnumSchema, fs: FeatureSet)
    requires
        spec_collision_active(fs),
    ensures
        spec_validate(schema, fs).len() == 0 <==> (forall|a: int, b: int|
            0 <= a < b < spec_keys(schema, fs).len() ==> spec_keys(schema, fs)[a] != spec_keys(
                schema,
                fs,
            )[b]),
{
    lemma_collision_diags_empty_iff_distinct(
        schema,
        fs,
        spec_keys(schema, fs).len() as int,
    );
}

/// Build the mapping tables for a schema under its raw configuration
/// fragments, or report why there are none. Parse errors are reported
/// together, then merge conflicts together, then collisions together; a
/// table is returned exactly when all three stages are clean, and it then
/// models the schema under the merged features and its reverse table is the
/// exact inverse of its forward table.
pub fn build_table(schema: &EnumSchema, fragments: &Vec<String>) -> (r: Result<
    MappingTable,
    Vec<Diagnostic>,
>)
    requires
        schema.wf(),
    ensures
        match r {
            Ok(t) => {
                &&& spec_pipeline(*schema, fragments.deep_view()) == Ok::<
                    FeatureSet,
                    Seq<(Seq<char>, Location)>,
                >(spec_merge(spec_parse_fragments(fragments.deep_view()).0))
                &&& t.models(*schema, spec_merge(spec_parse_fragments(fragments.deep_view()).0))
                &&& t.wf()
            },
            Err(ds) => {
                &&& spec_pipeline(*schema, fragments.deep_view()) == Err::<
                    FeatureSet,
                    Seq<(Seq<char>, Location)>,
                >(ds.deep_view())
                &&& ds@.len() > 0
            },
        },
{
    let (opts, pdiags) = parse_fragments(fragments);
    if pdiags.len() > 0 {
        return Err(pdiags);
    }
    let fs = match merge_options(&opts) {
        Ok(fs) => fs,
        Err(ds) => {
            return Err(ds);
        },
    };
    let cds = validate_collisions(schema, &fs);
    if cds.len() > 0 {
        return Err(cds);
    }
    let n = schema.variants.len();
    let mut forward: Vec<String> = Vec::new();
    let mut reverse: Vec<(String, usize)> = Vec::new();
    for i in 0..n
        invariant
            n == schema.variants@.len(),
            forward@.len() == i,
            reverse@.len() == i,
            forall|k: int|
                0 <= k < i ==> (#[trigger] forward@[k])@ == spec_resolve(
                    schema.type_label@,
                    schema.variant_names()[k],
                    fs,
                ),
            forall|k: int|
                0 <= k < i ==> (#[trigger] reverse@[k]).0@ == spec_comparison_key(
                    schema.type_label@,
                    schema.variant_names()[k],
                    fs,
                ) && reverse@[k].1 == k,
    {
        forward.push(resolve(schema.type_label.as_str(), schema.variants[i].as_str(), &fs));
        reverse.push(
            (comparison_key(schema.type_label.as_str(), schema.variants[i].as_str(), &fs), i),
        );
    }
    let t = MappingTable {
        type_label: schema.type_label.clone(),
        case_insensitive: fs.case_insensitive,
        forward,
        reverse,
    };
    proof {
        if spec_collision_active(fs) {
            lemma_collision_check_exhaustive(*schema, fs);
        } else {
            lemma_inactive_keys_distinct(*schema, fs);
        }
        assert forall|i: int, j: int| 0 <= i < j < t.reverse@.len() implies t.reverse@[i].0@
            != t.reverse@[j].0@ by {
            assert(spec_keys(*schema, fs)[i] != spec_keys(*schema, fs)[j]);
        }
    }
    Ok(t)
}

/// With no configuration fragments at all, construction always succeeds
/// under the default features, and every variant both displays as its
/// identifier exactly as declared and has that same spelling as its
/// comparison key.
pub proof fn lemma_no_configuration(schema: EnumSchema)
    ensures
        spec_pipeline(schema, Seq::empty()) == Ok::<FeatureSet, Seq<(Seq<char>, Location)>>(
            FeatureSet::spec_default(),
        ),
        forall|i: int|
            0 <= i < schema.variant_names().len() ==> spec_resolve(
                schema.type_label@,
                #[trigger] schema.variant_names()[i],
                FeatureSet::spec_default(),
            ) == schema.variant_names()[i] && spec_comparison_key(
                schema.type_label@,
                schema.variant_names()[i],
                FeatureSet::spec_default(),
            ) == schema.variant_names()[i],
{
    assert(spec_parse_fragments(Seq::empty()).0 =~= Seq::<crate::features::RawOption>::empty());
    assert(spec_parse_fragments(Seq::empty()).1 =~= Seq::<(Seq<char>, Location)>::empty());
}

/// Round trip: in a table that models a schema under some features and whose
/// keys are distinct, the display string of every variant normalizes to
/// exactly that variant's reverse key and to no other variant's. Parsing a
/// variant's display string therefore returns that variant, whatever the
/// configuration.
pub proof fn lemma_table_round_trip(t: MappingTable, schema: EnumSchema, fs: FeatureSet)
    requires
        t.models(schema, fs),
        t.wf(),
    ensures
        forall|i: int, j: int|
            0 <= i < t.forward@.len() && 0 <= j < t.reverse@.len() ==> (spec_normalize_input(
                (#[trigger] t.forward@[i])@,
                t.case_insensitive,
            ) == (#[trigger] t.reverse@[j]).0@ <==> i == j),
{
    let n = t.forward@.len();
    assert forall|i: int, j: int| 0 <= i < n && 0 <= j < n implies (spec_normalize_input(
        (#[trigger] t.forward@[i])@,
        t.case_insensitive,
    ) == (#[trigger] t.reverse@[j]).0@ <==> i == j) by {
        crate::resolve::lemma_display_key_agree(schema.type_label@, schema.variant_names()[i], fs);
        if i != j {
            if i < j {
                assert(t.reverse@[i].0@ != t.reverse@[j].0@);
            } else {
                assert(t.reverse@[j].0@ != t.reverse@[i].0@);
            }
        }
    }
}

} // verus!
