//! Container image tags: their structure, how they are read from and written
//! to text, and how two tags compare.
//!
//! A tag reads `major.minor.patch-variant`, and a variant reads
//! `(prefix)(major)(affix)(minor)(affix)(patch)(suffix)`.
use vstd::prelude::*;

use crate::text::{decimal, first_index, is_digit, parse_u64, split_by, starts_with_nocase, trim};

verus! {

// ---------------------------------------------------------------------------
// Types and their models
// ---------------------------------------------------------------------------

/// The qualifier after the first `-` of a tag, such as `alpine3.22-slim`.
#[derive(Debug, PartialEq, Eq)]
pub struct TagVariant {
    /// The leading run of non-digits (`alpine`, `debian-`).
    pub prefix: Option<String>,
    pub major: Option<u64>,
    pub minor: Option<u64>,
    pub patch: Option<u64>,
    /// The separators between consecutive numbers; empty when every one of
    /// them is the default `.`.
    pub affixes: Vec<String>,
    /// A trailing run of non-digits that starts with `-` or `_`.
    pub suffix: Option<String>,
}

/// A container image tag.
#[derive(Debug, PartialEq, Eq)]
pub struct Tag {
    pub major: Option<u64>,
    pub minor: Option<u64>,
    pub patch: Option<u64>,
    pub variant: Option<TagVariant>,
    /// Set for references without a tag, which name an earlier build stage.
    pub allowed_missing: bool,
    /// Set for the reserved tag `latest`.
    pub latest: bool,
}

/// The mathematical content of a [`TagVariant`].
pub struct VariantModel {
    pub prefix: Option<Seq<char>>,
    pub major: Option<u64>,
    pub minor: Option<u64>,
    pub patch: Option<u64>,
    pub affixes: Seq<Seq<char>>,
    pub suffix: Option<Seq<char>>,
}

/// The mathematical content of a [`Tag`].
pub struct TagModel {
    pub major: Option<u64>,
    pub minor: Option<u64>,
    pub patch: Option<u64>,
    pub variant: Option<VariantModel>,
    pub allowed_missing: bool,
    pub latest: bool,
}

pub open spec fn opt_view(o: Option<String>) -> Option<Seq<char>> {
    match o {
        Some(s) => Some(s@),
        None => None,
    }
}

pub open spec fn string_views(v: Seq<String>) -> Seq<Seq<char>> {
    v.map_values(|s: String| s@)
}

impl View for TagVariant {
    type V = VariantModel;

    open spec fn view(&self) -> VariantModel {
        VariantModel {
            prefix: opt_view(self.prefix),
            major: self.major,
            minor: self.minor,
            patch: self.patch,
            affixes: string_views(self.affixes@),
            suffix: opt_view(self.suffix),
        }
    }
}

impl View for Tag {
    type V = TagModel;

    open spec fn view(&self) -> TagModel {
        TagModel {
            major: self.major,
            minor: self.minor,
            patch: self.patch,
            variant: match self.variant {
                Some(v) => Some(v@),
                None => None,
            },
            allowed_missing: self.allowed_missing,
            latest: self.latest,
        }
    }
}

/// The tag with every part absent and both flags unset.
pub open spec fn zero_tag() -> TagModel {
    TagModel {
        major: None,
        minor: None,
        patch: None,
        variant: None,
        allowed_missing: false,
        latest: false,
    }
}

/// The tag given to a reference without `:tag`.
pub open spec fn missing_tag() -> TagModel {
    TagModel { allowed_missing: true, ..zero_tag() }
}

pub open spec fn latest_tag() -> TagModel {
    TagModel { latest: true, ..zero_tag() }
}

// ---------------------------------------------------------------------------
// Parsing
// ---------------------------------------------------------------------------

/// The maximal runs of `s` that are all digits or all non-digits, in order.
pub open spec fn runs(s: Seq<char>) -> Seq<Seq<char>>
    decreases s.len(),
{
    if s.len() == 0 {
        Seq::empty()
    } else {
        let r = runs(s.drop_last());
        let c = s.last();
        if r.len() > 0 && r.last().len() > 0 && is_digit(r.last().last()) == is_digit(c) {
            r.update(r.len() - 1, r.last().push(c))
        } else {
            r.push(seq![c])
        }
    }
}

pub open spec fn is_digit_run(t: Seq<char>) -> bool {
    t.len() > 0 && is_digit(t[0])
}

pub open spec fn is_suffix_run(t: Seq<char>) -> bool {
    t.len() > 0 && (t[0] == '-' || t[0] == '_')
}

/// The numbers read from the digit runs of `rs`; runs too large for 64 bits
/// are skipped.
pub open spec fn run_numbers(rs: Seq<Seq<char>>) -> Seq<u64>
    decreases rs.len(),
{
    if rs.len() == 0 {
        Seq::empty()
    } else {
        let p = run_numbers(rs.drop_last());
        let t = rs.last();
        if is_digit_run(t) && parse_u64(t) is Some {
            p.push(parse_u64(t)->0)
        } else {
            p
        }
    }
}

/// The non-digit runs of `rs`.
pub open spec fn run_separators(rs: Seq<Seq<char>>) -> Seq<Seq<char>>
    decreases rs.len(),
{
    if rs.len() == 0 {
        Seq::empty()
    } else {
        let p = run_separators(rs.drop_last());
        let t = rs.last();
        if !is_digit_run(t) {
            p.push(t)
        } else {
            p
        }
    }
}

pub open spec fn nth_number(ns: Seq<u64>, i: int) -> Option<u64> {
    if 0 <= i < ns.len() {
        Some(ns[i])
    } else {
        None
    }
}

pub open spec fn dot() -> Seq<char> {
    seq!['.']
}

pub open spec fn all_dots(a: Seq<Seq<char>>) -> bool {
    forall|i: int| 0 <= i < a.len() ==> #[trigger] a[i] == dot()
}

/// The variant read from the text after the first `-` of a tag.
pub open spec fn parse_variant(s: Seq<char>) -> VariantModel {
    let rs = runs(s);
    let has_prefix = rs.len() > 0 && !is_digit_run(rs[0]);
    let body = if has_prefix {
        rs.drop_first()
    } else {
        rs
    };
    let has_suffix = body.len() > 0 && is_suffix_run(body.last());
    let mids = if has_suffix {
        body.drop_last()
    } else {
        body
    };
    let nums = run_numbers(mids);
    let seps = run_separators(mids);
    VariantModel {
        prefix: if has_prefix {
            Some(rs[0])
        } else {
            None
        },
        major: nth_number(nums, 0),
        minor: nth_number(nums, 1),
        patch: nth_number(nums, 2),
        affixes: if all_dots(seps) {
            Seq::empty()
        } else {
            seps
        },
        suffix: if has_suffix {
            Some(body.last())
        } else {
            None
        },
    }
}

pub open spec fn latest_word() -> Seq<char> {
    seq!['l', 'a', 't', 'e', 's', 't']
}

/// `true` when `s`, trimmed, is `latest` in any letter case.
pub open spec fn is_latest_word(s: Seq<char>) -> bool {
    let t = trim(s);
    t.len() == 6 && starts_with_nocase(t, latest_word())
}

pub open spec fn piece_number(pieces: Seq<Seq<char>>, i: int) -> Option<u64> {
    if 0 <= i < pieces.len() {
        parse_u64(pieces[i])
    } else {
        None
    }
}

/// The tag read from `s`. Reading never fails: a part that is not a number
/// is absent, and the empty text gives the zero tag.
pub open spec fn parse_tag(s: Seq<char>) -> TagModel {
    if is_latest_word(s) {
        latest_tag()
    } else {
        let k = first_index(s, '-');
        let version = if k >= 0 {
            s.subrange(0, k)
        } else {
            s
        };
        let pieces = split_by(version, '.');
        TagModel {
            major: piece_number(pieces, 0),
            minor: piece_number(pieces, 1),
            patch: piece_number(pieces, 2),
            variant: if k >= 0 {
                Some(parse_variant(s.subrange(k + 1, s.len() as int)))
            } else {
                None
            },
            allowed_missing: false,
            latest: false,
        }
    }
}

// ---------------------------------------------------------------------------
// Rendering
// ---------------------------------------------------------------------------

pub open spec fn opt_chars(o: Option<Seq<char>>) -> Seq<char> {
    match o {
        Some(s) => s,
        None => Seq::empty(),
    }
}

pub open spec fn opt_decimal(n: Option<u64>) -> Seq<char> {
    match n {
        Some(v) => decimal(v as nat),
        None => Seq::empty(),
    }
}

/// The separator written before the `i`-th number after the first.
pub open spec fn separator(affixes: Seq<Seq<char>>, i: int) -> Seq<char> {
    if 0 <= i < affixes.len() {
        affixes[i]
    } else {
        dot()
    }
}

pub open spec fn render_variant(v: VariantModel) -> Seq<char> {
    opt_chars(v.prefix) + opt_decimal(v.major) + (if v.minor is Some {
        separator(v.affixes, 0) + opt_decimal(v.minor)
    } else {
        Seq::empty()
    }) + (if v.patch is Some {
        separator(v.affixes, 1) + opt_decimal(v.patch)
    } else {
        Seq::empty()
    }) + opt_chars(v.suffix)
}

pub open spec fn has_number(t: TagModel) -> bool {
    t.major is Some || t.minor is Some || t.patch is Some
}

/// The present numbers of a tag, joined by `.`.
pub open spec fn render_numbers(t: TagModel) -> Seq<char> {
    opt_decimal(t.major) + (if t.minor is Some {
        (if t.major is Some {
            dot()
        } else {
            Seq::empty()
        }) + opt_decimal(t.minor)
    } else {
        Seq::empty()
    }) + (if t.patch is Some {
        (if t.major is Some || t.minor is Some {
            dot()
        } else {
            Seq::empty()
        }) + opt_decimal(t.patch)
    } else {
        Seq::empty()
    })
}

/// The text of a tag: `latest`, or the present numbers joined by `.`, then
/// `-` and the variant (the `-` only when a number was written).
pub open spec fn render_tag(t: TagModel) -> Seq<char> {
    if t.latest {
        latest_word()
    } else {
        render_numbers(t) + match t.variant {
            Some(v) => (if has_number(t) {
                seq!['-']
            } else {
                Seq::empty()
            }) + render_variant(v),
            None => Seq::empty(),
        }
    }
}

// ---------------------------------------------------------------------------
// Comparison predicates
// ---------------------------------------------------------------------------

pub open spec fn both_less(a: Option<u64>, b: Option<u64>) -> bool {
    a is Some && b is Some && a->0 < b->0
}

pub open spec fn spec_same_major(a: TagModel, b: TagModel) -> bool {
    a.major is Some && b.major is Some && a.major == b.major
}

pub open spec fn spec_same_minor(a: TagModel, b: TagModel) -> bool {
    a.minor is Some && b.minor is Some && a.minor == b.minor
}

/// Both tags lack a variant, or both have one with equal prefix and suffix;
/// the affixes are not compared.
pub open spec fn spec_same_variant(a: TagModel, b: TagModel) -> bool {
    match (a.variant, b.variant) {
        (None, None) => true,
        (Some(x), Some(y)) => x.prefix == y.prefix && x.suffix == y.suffix,
        _ => false,
    }
}

pub open spec fn spec_next_major(a: TagModel, b: TagModel) -> bool {
    b.patch is Some && both_less(a.major, b.major)
}

pub open spec fn spec_next_minor(a: TagModel, b: TagModel) -> bool {
    spec_same_major(a, b) && both_less(a.minor, b.minor)
}

pub open spec fn variant_bump(x: VariantModel, y: VariantModel) -> bool {
    (x.prefix == y.prefix && both_less(x.major, y.major)) || both_less(x.minor, y.minor)
        || both_less(x.patch, y.patch)
}

pub open spec fn spec_next_patch(a: TagModel, b: TagModel) -> bool {
    spec_same_minor(a, b) && a.patch is Some && b.patch is Some && (a.patch->0 < b.patch->0 || (
    a.variant is Some && b.variant is Some && variant_bump(a.variant->0, b.variant->0)))
}

// ---------------------------------------------------------------------------
// Total order
// ---------------------------------------------------------------------------

/// Lexicographic combination of two comparison results.
pub open spec fn then_cmp(first: int, second: int) -> int {
    if first != 0 {
        first
    } else {
        second
    }
}

pub open spec fn cmp_bool(a: bool, b: bool) -> int {
    if a == b {
        0
    } else if !a {
        -1
    } else {
        1
    }
}

pub open spec fn cmp_u64(a: u64, b: u64) -> int {
    if a < b {
        -1
    } else if a == b {
        0
    } else {
        1
    }
}

/// `None` orders before every `Some`.
pub open spec fn cmp_opt_u64(a: Option<u64>, b: Option<u64>) -> int {
    match (a, b) {
        (None, None) => 0,
        (None, Some(_)) => -1,
        (Some(_), None) => 1,
        (Some(x), Some(y)) => cmp_u64(x, y),
    }
}

/// Lexicographic order of strings by code point, as `str` orders them.
pub open spec fn cmp_chars(a: Seq<char>, b: Seq<char>) -> int
    decreases a.len(),
{
    if a.len() == 0 {
        if b.len() == 0 {
            0
        } else {
            -1
        }
    } else if b.len() == 0 {
        1
    } else if a[0] != b[0] {
        if a[0] < b[0] {
            -1
        } else {
            1
        }
    } else {
        cmp_chars(a.drop_first(), b.drop_first())
    }
}

pub open spec fn cmp_opt_chars(a: Option<Seq<char>>, b: Option<Seq<char>>) -> int {
    match (a, b) {
        (None, None) => 0,
        (None, Some(_)) => -1,
        (Some(_), None) => 1,
        (Some(x), Some(y)) => cmp_chars(x, y),
    }
}

/// Lexicographic order of lists of strings.
pub open spec fn cmp_char_lists(a: Seq<Seq<char>>, b: Seq<Seq<char>>) -> int
    decreases a.len(),
{
    if a.len() == 0 {
        if b.len() == 0 {
            0
        } else {
            -1
        }
    } else if b.len() == 0 {
        1
    } else {
        then_cmp(cmp_chars(a[0], b[0]), cmp_char_lists(a.drop_first(), b.drop_first()))
    }
}

/// Variants order by prefix, major, minor, patch, affixes, then suffix.
pub open spec fn cmp_variant(x: VariantModel, y: VariantModel) -> int {
    then_cmp(
        cmp_opt_chars(x.prefix, y.prefix),
        then_cmp(
            cmp_opt_u64(x.major, y.major),
            then_cmp(
                cmp_opt_u64(x.minor, y.minor),
                then_cmp(
                    cmp_opt_u64(x.patch, y.patch),
                    then_cmp(
                        cmp_char_lists(x.affixes, y.affixes),
                        cmp_opt_chars(x.suffix, y.suffix),
                    ),
                ),
            ),
        ),
    )
}

pub open spec fn cmp_opt_variant(a: Option<VariantModel>, b: Option<VariantModel>) -> int {
    match (a, b) {
        (None, None) => 0,
        (None, Some(_)) => -1,
        (Some(_), None) => 1,
        (Some(x), Some(y)) => cmp_variant(x, y),
    }
}

/// Tags order by `latest`, major, minor, patch, variant, then the stage
/// reference flag; an absent part orders before a present one.
pub open spec fn cmp_tag(a: TagModel, b: TagModel) -> int {
    then_cmp(
        cmp_bool(a.latest, b.latest),
        then_cmp(
            cmp_opt_u64(a.major, b.major),
            then_cmp(
                cmp_opt_u64(a.minor, b.minor),
                then_cmp(
                    cmp_opt_u64(a.patch, b.patch),
                    then_cmp(
                        cmp_opt_variant(a.variant, b.variant),
                        cmp_bool(a.allowed_missing, b.allowed_missing),
                    ),
                ),
            ),
        ),
    )
}

pub open spec fn tag_le(a: TagModel, b: TagModel) -> bool {
    cmp_tag(a, b) <= 0
}

pub open spec fn tag_lt(a: TagModel, b: TagModel) -> bool {
    cmp_tag(a, b) < 0
}

} // verus!
