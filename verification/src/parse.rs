//! The configuration parser.
//!
//! A configuration fragment is the raw text that one `sternum(...)`
//! annotation carries: a comma-separated list of items, each of the shape
//! `option` or `option = value` where both sides are identifiers. The parser
//! turns every fragment into typed [`RawOption`] values and one diagnostic
//! per malformed or unrecognized item; it never stops at the first error.
//!
//! The grammar is fixed here over sequences of characters: `spec_item_shape`
//! says what one item reads as, `spec_split_items` how a fragment divides at
//! commas, and `spec_parse_fragments` what the whole input yields. The
//! executable functions are proved to return exactly those values.

use vstd::prelude::*;

use crate::diagnostics::{bad_transform_value_message, empty_fragment_message,
    malformed_item_message, spec_bad_transform_value_message, spec_empty_fragment_message,
    spec_malformed_item_message, spec_unknown_argument_message, unknown_argument_message,
    Diagnostic, Location};
use crate::chars::str_eq;
use crate::features::{RawOption, TransformKind};

verus! {

/// True of the characters that may begin an identifier.
pub open spec fn is_ident_start(c: char) -> bool {
    ('a' <= c && c <= 'z') || ('A' <= c && c <= 'Z') || c == '_'
}

/// True of the characters that may continue an identifier.
pub open spec fn is_ident_char(c: char) -> bool {
    is_ident_start(c) || ('0' <= c && c <= '9')
}

fn exec_is_ident_start(c: char) -> (r: bool)
    ensures
        r == is_ident_start(c),
{
    ('a' <= c && c <= 'z') || ('A' <= c && c <= 'Z') || c == '_'
}

fn exec_is_ident_char(c: char) -> (r: bool)
    ensures
        r == is_ident_char(c),
{
    exec_is_ident_start(c) || ('0' <= c && c <= '9')
}

/// The position of the first character at or after `i` that is not a space.
pub open spec fn spec_skip_spaces(s: Seq<char>, i: int) -> int
    decreases s.len() - i,
{
    if 0 <= i < s.len() && s[i] == ' ' {
        spec_skip_spaces(s, i + 1)
    } else {
        i
    }
}

pub proof fn lemma_skip_spaces_bounds(s: Seq<char>, i: int)
    requires
        0 <= i <= s.len(),
    ensures
        i <= spec_skip_spaces(s, i) <= s.len(),
        spec_skip_spaces(s, i) < s.len() ==> s[spec_skip_spaces(s, i)] != ' ',
    decreases s.len() - i,
{
    if i < s.len() && s[i] == ' ' {
        lemma_skip_spaces_bounds(s, i + 1);
    }
}

/// The position of the first identifier-stopping character at or after `i`.
pub open spec fn spec_scan_ident(s: Seq<char>, i: int) -> int
    decreases s.len() - i,
{
    if 0 <= i < s.len() && is_ident_char(s[i]) {
        spec_scan_ident(s, i + 1)
    } else {
        i
    }
}

pub proof fn lemma_scan_ident_bounds(s: Seq<char>, i: int)
    requires
        0 <= i <= s.len(),
    ensures
        i <= spec_scan_ident(s, i) <= s.len(),
        spec_scan_ident(s, i) < s.len() ==> !is_ident_char(s[spec_scan_ident(s, i)]),
    decreases s.len() - i,
{
    if i < s.len() && is_ident_char(s[i]) {
        lemma_scan_ident_bounds(s, i + 1);
    }
}

/// The position of the first comma at or after `i`, or the end of the string.
pub open spec fn spec_find_comma(s: Seq<char>, i: int) -> int
    decreases s.len() - i,
{
    if 0 <= i < s.len() {
        if s[i] == ',' {
            i
        } else {
            spec_find_comma(s, i + 1)
        }
    } else {
        i
    }
}

pub proof fn lemma_find_comma_bounds(s: Seq<char>, i: int)
    requires
        0 <= i <= s.len(),
    ensures
        i <= spec_find_comma(s, i) <= s.len(),
        spec_find_comma(s, i) < s.len() ==> s[spec_find_comma(s, i)] == ',',
    decreases s.len() - i,
{
    if i < s.len() && s[i] != ',' {
        lemma_find_comma_bounds(s, i + 1);
    }
}

/// What one comma-separated item reads as, before its names are interpreted.
pub enum ItemShape {
    /// Nothing but spaces.
    EmptyItem,
    /// A single identifier.
    Bare { ident: Seq<char> },
    /// `key = value`, both identifiers.
    Pair { key: Seq<char>, value: Seq<char> },
    /// Anything else.
    Malformed,
}

/// The shape of one item: skip spaces, read an identifier, and either stop
/// there or read `=` and a second identifier. Any leftover character makes
/// the item malformed.
pub open spec fn spec_item_shape(s: Seq<char>) -> ItemShape {
    let i0 = spec_skip_spaces(s, 0);
    if i0 == s.len() {
        ItemShape::EmptyItem
    } else if !is_ident_start(s[i0]) {
        ItemShape::Malformed
    } else {
        let i1 = spec_scan_ident(s, i0);
        let i2 = spec_skip_spaces(s, i1);
        if i2 == s.len() {
            ItemShape::Bare { ident: s.subrange(i0, i1) }
        } else if s[i2] == '=' {
            let i3 = spec_skip_spaces(s, i2 + 1);
            if i3 == s.len() || !is_ident_start(s[i3]) {
                ItemShape::Malformed
            } else {
                let i4 = spec_scan_ident(s, i3);
                if spec_skip_spaces(s, i4) == s.len() {
                    ItemShape::Pair { key: s.subrange(i0, i1), value: s.subrange(i3, i4) }
                } else {
                    ItemShape::Malformed
                }
            }
        } else {
            ItemShape::Malformed
        }
    }
}

/// The option one item denotes, or the diagnostic it provokes, at `loc`.
///
/// The recognized bare options are `scoped` and `case_insensitive`; the one
/// recognized key is `transform`, whose value must be `uppercase` or
/// `lowercase`. Every other name is reported back, by name where one was
/// read.
pub open spec fn spec_item_option(s: Seq<char>, loc: Location) -> Result<
    RawOption,
    (Seq<char>, Location),
> {
    match spec_item_shape(s) {
        ItemShape::EmptyItem => Err((spec_malformed_item_message(), loc)),
        ItemShape::Malformed => Err((spec_malformed_item_message(), loc)),
        ItemShape::Bare { ident } => if ident == "scoped"@ {
            Ok(RawOption::Scoped { location: loc })
        } else if ident == "case_insensitive"@ {
            Ok(RawOption::CaseInsensitive { location: loc })
        } else {
            Err((spec_unknown_argument_message(ident), loc))
        },
        ItemShape::Pair { key, value } => if key == "transform"@ {
            if value == "uppercase"@ {
                Ok(RawOption::Transform { kind: TransformKind::Uppercase, location: loc })
            } else if value == "lowercase"@ {
                Ok(RawOption::Transform { kind: TransformKind::Lowercase, location: loc })
            } else {
                Err((spec_bad_transform_value_message(), loc))
            }
        } else {
            Err((spec_unknown_argument_message(key), loc))
        },
    }
}

/// Parse one comma-separated item into an option or a diagnostic.
fn parse_item(s: &str, loc: Location) -> (r: Result<RawOption, Diagnostic>)
    ensures
        match r {
            Ok(o) => spec_item_option(s@, loc) == Ok::<RawOption, (Seq<char>, Location)>(o),
            Err(d) => spec_item_option(s@, loc) == Err::<RawOption, (Seq<char>, Location)>(d@),
        },
{
    let len = s.unicode_len();
    let i0 = skip_spaces(s, 0);
    if i0 == len {
        return Err(Diagnostic { message: malformed_item_message(), location: loc });
    }
    if !exec_is_ident_start(s.get_char(i0)) {
        return Err(Diagnostic { message: malformed_item_message(), location: loc });
    }
    let i1 = scan_ident(s, i0);
    let ident = s.substring_char(i0, i1);
    let i2 = skip_spaces(s, i1);
    if i2 == len {
        if str_eq(ident, "scoped") {
            return Ok(RawOption::Scoped { location: loc });
        }
        if str_eq(ident, "case_insensitive") {
            return Ok(RawOption::CaseInsensitive { location: loc });
        }
        return Err(Diagnostic { message: unknown_argument_message(ident), location: loc });
    }
    if s.get_char(i2) != '=' {
        return Err(Diagnostic { message: malformed_item_message(), location: loc });
    }
    let i3 = skip_spaces(s, i2 + 1);
    if i3 == len {
        return Err(Diagnostic { message: malformed_item_message(), location: loc });
    }
    if !exec_is_ident_start(s.get_char(i3)) {
        return Err(Diagnostic { message: malformed_item_message(), location: loc });
    }
    let i4 = scan_ident(s, i3);
    if skip_spaces(s, i4) != len {
        return Err(Diagnostic { message: malformed_item_message(), location: loc });
    }
    if !str_eq(ident, "transform") {
        return Err(Diagnostic { message: unknown_argument_message(ident), location: loc });
    }
    let value = s.substring_char(i3, i4);
    if str_eq(value, "uppercase") {
        return Ok(RawOption::Transform { kind: TransformKind::Uppercase, location: loc });
    }
    if str_eq(value, "lowercase") {
        return Ok(RawOption::Transform { kind: TransformKind::Lowercase, location: loc });
    }
    Err(Diagnostic { message: bad_transform_value_message(), location: loc })
}

fn skip_spaces(s: &str, i: usize) -> (j: usize)
    requires
        i <= s@.len(),
    ensures
        j == spec_skip_spaces(s@, i as int),
        i <= j <= s@.len(),
{
    let len = s.unicode_len();
    let mut j = i;
    while j < len && s.get_char(j) == ' '
        invariant
            len == s@.len(),
            i <= j <= len,
            spec_skip_spaces(s@, i as int) == spec_skip_spaces(s@, j as int),
        decreases len - j,
    {
        j = j + 1;
    }
    j
}

fn scan_ident(s: &str, i: usize) -> (j: usize)
    requires
        i <= s@.len(),
    ensures
        j == spec_scan_ident(s@, i as int),
        i <= j <= s@.len(),
{
    let len = s.unicode_len();
    let mut j = i;
    while j < len && exec_is_ident_char(s.get_char(j))
        invariant
            len == s@.len(),
            i <= j <= len,
            spec_scan_ident(s@, i as int) == spec_scan_ident(s@, j as int),
        decreases len - j,
    {
        j = j + 1;
    }
    j
}

fn find_comma(s: &str, i: usize) -> (j: usize)
    requires
        i <= s@.len(),
    ensures
        j == spec_find_comma(s@, i as int),
        i <= j <= s@.len(),
{
    let len = s.unicode_len();
    let mut j = i;
    while j < len && s.get_char(j) != ','
        invariant
            len == s@.len(),
            i <= j <= len,
            spec_find_comma(s@, i as int) == spec_find_comma(s@, j as int),
        decreases len - j,
    {
        j = j + 1;
    }
    j
}

/// A fragment's comma-separated items: splitting never loses text, and a
/// fragment without commas is one item.
pub open spec fn spec_split_items(s: Seq<char>) -> Seq<Seq<char>>
    decreases s.len(),
{
    let k = spec_find_comma(s, 0);
    if 0 <= k < s.len() {
        seq![s.subrange(0, k)] + spec_split_items(s.subrange(k + 1, s.len() as int))
    } else {
        seq![s]
    }
}

/// Split one fragment at its commas.
fn split_items(s: &str) -> (items: Vec<String>)
    ensures
        items.deep_view() == spec_split_items(s@),
    decreases s@.len(),
{
    let len = s.unicode_len();
    let k = find_comma(s, 0);
    if k < len {
        let head = s.substring_char(0, k).to_owned();
        let rest = s.substring_char(k + 1, len);
        let mut items = split_items(rest);
        items.insert(0, head);
        proof {
            assert(items.deep_view() =~= spec_split_items(s@));
        }
        items
    } else {
        let whole = s.to_owned();
        let items = vec![whole];
        proof {
            assert(items.deep_view() =~= spec_split_items(s@));
        }
        items
    }
}

/// The options and diagnostics that the items of one fragment yield, with
/// the items numbered from zero inside fragment `fi`.
pub open spec fn spec_parse_items(items: Seq<Seq<char>>, fi: usize) -> (Seq<RawOption>, Seq<
    (Seq<char>, Location),
>)
    decreases items.len(),
{
    if items.len() == 0 {
        (Seq::empty(), Seq::empty())
    } else {
        let (opts, diags) = spec_parse_items(items.drop_last(), fi);
        let loc = Location::ConfigItem { fragment: fi, item: (items.len() - 1) as usize };
        match spec_item_option(items.last(), loc) {
            Ok(o) => (opts.push(o), diags),
            Err(d) => (opts, diags.push(d)),
        }
    }
}

/// What one whole fragment yields. A fragment holding nothing but spaces is
/// the bare-marker error; anything else is parsed item by item.
pub open spec fn spec_parse_fragment(s: Seq<char>, fi: usize) -> (Seq<RawOption>, Seq<
    (Seq<char>, Location),
>) {
    if spec_skip_spaces(s, 0) == s.len() {
        (
            Seq::empty(),
            seq![
                (spec_empty_fragment_message(), Location::ConfigItem { fragment: fi, item: 0 }),
            ],
        )
    } else {
        spec_parse_items(spec_split_items(s), fi)
    }
}

/// What the whole input yields: the fragments' options and diagnostics
/// concatenated in order.
pub open spec fn spec_parse_fragments(frags: Seq<Seq<char>>) -> (Seq<RawOption>, Seq<
    (Seq<char>, Location),
>)
    decreases frags.len(),
{
    if frags.len() == 0 {
        (Seq::empty(), Seq::empty())
    } else {
        let (opts, diags) = spec_parse_fragments(frags.drop_last());
        let (fopts, fdiags) = spec_parse_fragment(frags.last(), (frags.len() - 1) as usize);
        (opts + fopts, diags + fdiags)
    }
}

/// Parse one fragment.
fn parse_fragment(s: &str, fi: usize) -> (r: (Vec<RawOption>, Vec<Diagnostic>))
    ensures
        r.0@ == spec_parse_fragment(s@, fi).0,
        r.1.deep_view() == spec_parse_fragment(s@, fi).1,
{
    let len = s.unicode_len();
    if skip_spaces(s, 0) == len {
        let d = Diagnostic {
            message: empty_fragment_message(),
            location: Location::ConfigItem { fragment: fi, item: 0 },
        };
        let diags = vec![d];
        proof {
            assert(diags.deep_view() =~= spec_parse_fragment(s@, fi).1);
        }
        return (Vec::new(), diags);
    }
    let items = split_items(s);
    let mut opts: Vec<RawOption> = Vec::new();
    let mut diags: Vec<Diagnostic> = Vec::new();
    let n = items.len();
    for j in 0..n
        invariant
            n == items@.len(),
            items.deep_view() == spec_split_items(s@),
            opts@ == spec_parse_items(items.deep_view().take(j as int), fi).0,
            diags.deep_view() == spec_parse_items(items.deep_view().take(j as int), fi).1,
    {
        proof {
            assert(items.deep_view().take(j + 1).drop_last() =~= items.deep_view().take(j as int));
            assert(items.deep_view().take(j + 1).last() == items.deep_view()[j as int]);
        }
        let loc = Location::ConfigItem { fragment: fi, item: j };
        match parse_item(items[j].as_str(), loc) {
            Ok(o) => {
                opts.push(o);
            },
            Err(d) => {
                diags.push(d);
            },
        }
        proof {
            assert(diags.deep_view() =~= spec_parse_items(items.deep_view().take(j + 1), fi).1);
        }
    }
    proof {
        assert(items.deep_view().take(n as int) =~= items.deep_view());
    }
    (opts, diags)
}

/// Parse the raw configuration fragments attached to one declaration into
/// typed options, reporting one diagnostic per malformed item. All fragments
/// are scanned whatever errors were already found.
pub fn parse_fragments(fragments: &Vec<String>) -> (r: (Vec<RawOption>, Vec<Diagnostic>))
    ensures
        r.0@ == spec_parse_fragments(fragments.deep_view()).0,
        r.1.deep_view() == spec_parse_fragments(fragments.deep_view()).1,
{
    let mut opts: Vec<RawOption> = Vec::new();
    let mut diags: Vec<Diagnostic> = Vec::new();
    let n = fragments.len();
    for fi in 0..n
        invariant
            n == fragments@.len(),
            opts@ == spec_parse_fragments(fragments.deep_view().take(fi as int)).0,
            diags.deep_view() == spec_parse_fragments(fragments.deep_view().take(fi as int)).1,
    {
        proof {
            assert(fragments.deep_view().take(fi + 1).drop_last() =~= fragments.deep_view().take(
                fi as int,
            ));
            assert(fragments.deep_view().take(fi + 1).last() == fragments.deep_view()[fi as int]);
        }
        let (mut fopts, mut fdiags) = parse_fragment(fragments[fi].as_str(), fi);
        opts.append(&mut fopts);
        diags.append(&mut fdiags);
        proof {
            assert(opts@ =~= spec_parse_fragments(fragments.deep_view().take(fi + 1)).0);
            assert(diags.deep_view() =~= spec_parse_fragments(fragments.deep_view().take(fi + 1)).1);
        }
    }
    proof {
        assert(fragments.deep_view().take(n as int) =~= fragments.deep_view());
    }
    (opts, diags)
}

} // verus!
