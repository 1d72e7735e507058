//! The comparison predicates between a current tag and a candidate, and the
//! total order on tags, with the facts that make it a total order.
use vstd::prelude::*;

use crate::tag::{
    cmp_bool, cmp_char_lists, cmp_chars, cmp_opt_chars, cmp_opt_u64, cmp_opt_variant, cmp_tag,
    cmp_u64, cmp_variant, opt_view, spec_next_major, spec_next_minor, spec_next_patch,
    spec_same_major, spec_same_minor, spec_same_variant, string_views, tag_le, tag_lt, variant_bump, zero_tag, Tag, TagModel, TagVariant, VariantModel,
};
use crate::text::chars_of;

verus! {

// ---------------------------------------------------------------------------
// Copies and the default tag
// ---------------------------------------------------------------------------

fn clone_opt_string(o: &Option<String>) -> (r: Option<String>)
    ensures
        opt_view(r) == opt_view(*o),
{
    match o {
        Some(s) => Some(s.clone()),
        None => None,
    }
}

impl Clone for TagVariant {
    fn clone(&self) -> (r: TagVariant)
        ensures
            r@ == self@,
    {
        let mut affixes: Vec<String> = Vec::new();
        let mut i: usize = 0;
        while i < self.affixes.len()
            invariant
                i <= self.affixes.len(),
                string_views(affixes@) == string_views(self.affixes@).subrange(0, i as int),
            decreases self.affixes.len() - i,
        {
            let ghost before = string_views(affixes@);
            let piece = self.affixes[i].clone();
            proof {
                assert(piece@ == self.affixes@[i as int]@);
            }
            affixes.push(piece);
            proof {
                assert(string_views(affixes@) =~= before.push(piece@));
            }
            i = i + 1;
            proof {
                assert(string_views(affixes@) =~= string_views(self.affixes@).subrange(0, i as int));
            }
        }
        proof {
            assert(string_views(self.affixes@).subrange(0, i as int) =~= string_views(
                self.affixes@,
            ));
        }
        TagVariant {
            prefix: clone_opt_string(&self.prefix),
            major: self.major,
            minor: self.minor,
            patch: self.patch,
            affixes,
            suffix: clone_opt_string(&self.suffix),
        }
    }
}

impl Clone for Tag {
    fn clone(&self) -> (r: Tag)
        ensures
            r@ == self@,
    {
        let variant = match &self.variant {
            Some(v) => Some(v.clone()),
            None => None,
        };
        Tag {
            major: self.major,
            minor: self.minor,
            patch: self.patch,
            variant,
            allowed_missing: self.allowed_missing,
            latest: self.latest,
        }
    }
}

impl Default for Tag {
    /// The zero tag: every part absent, both flags unset.
    fn default() -> (r: Tag)
        ensures
            r@ == zero_tag(),
    {
        Tag {
            major: None,
            minor: None,
            patch: None,
            variant: None,
            allowed_missing: false,
            latest: false,
        }
    }
}

// ---------------------------------------------------------------------------
// Predicates
// ---------------------------------------------------------------------------

fn both_less_exec(a: Option<u64>, b: Option<u64>) -> (r: bool)
    ensures
        r == crate::tag::both_less(a, b),
{
    match (a, b) {
        (Some(x), Some(y)) => x < y,
        _ => false,
    }
}

fn same_opt_string(a: &Option<String>, b: &Option<String>) -> (r: bool)
    ensures
        r == (opt_view(*a) == opt_view(*b)),
{
    match (a, b) {
        (None, None) => true,
        (Some(x), Some(y)) => x.eq(y),
        _ => false,
    }
}

impl TagVariant {
    /// Both prefixes are absent, or both are present and equal.
    pub fn is_same_prefix(&self, rhs: &TagVariant) -> (r: bool)
        ensures
            r == (self@.prefix == rhs@.prefix),
    {
        same_opt_string(&self.prefix, &rhs.prefix)
    }

    /// Both suffixes are absent, or both are present and equal.
    pub fn is_same_suffix(&self, rhs: &TagVariant) -> (r: bool)
        ensures
            r == (self@.suffix == rhs@.suffix),
    {
        same_opt_string(&self.suffix, &rhs.suffix)
    }

    /// The separators between the numbers are the same.
    pub fn is_same_affix(&self, rhs: &TagVariant) -> (r: bool)
        ensures
            r == (self@.affixes == rhs@.affixes),
    {
        let c = compare_string_lists(&self.affixes, &rhs.affixes);
        proof {
            lemma_cmp_char_lists(self@.affixes, rhs@.affixes);
        }
        c == 0
    }

    /// Both majors are present and `rhs` has the greater one.
    pub fn is_next_major(&self, rhs: &TagVariant) -> (r: bool)
        ensures
            r == crate::tag::both_less(self@.major, rhs@.major),
    {
        both_less_exec(self.major, rhs.major)
    }

    /// Both minors are present and `rhs` has the greater one.
    pub fn is_next_minor(&self, rhs: &TagVariant) -> (r: bool)
        ensures
            r == crate::tag::both_less(self@.minor, rhs@.minor),
    {
        both_less_exec(self.minor, rhs.minor)
    }

    /// Both patches are present and `rhs` has the greater one.
    pub fn is_next_patch(&self, rhs: &TagVariant) -> (r: bool)
        ensures
            r == crate::tag::both_less(self@.patch, rhs@.patch),
    {
        both_less_exec(self.patch, rhs.patch)
    }

    /// Some number of the variant grew: the major (under an equal prefix),
    /// the minor or the patch.
    pub fn is_bumped_by(&self, rhs: &TagVariant) -> (r: bool)
        ensures
            r == variant_bump(self@, rhs@),
    {
        (self.is_same_prefix(rhs) && self.is_next_major(rhs)) || self.is_next_minor(rhs)
            || self.is_next_patch(rhs)
    }
}

impl Tag {
    /// Both majors are present and equal.
    pub fn is_same_major(&self, rhs: &Tag) -> (r: bool)
        ensures
            r == spec_same_major(self@, rhs@),
    {
        match (self.major, rhs.major) {
            (Some(x), Some(y)) => x == y,
            _ => false,
        }
    }

    /// Both minors are present and equal.
    pub fn is_same_minor(&self, rhs: &Tag) -> (r: bool)
        ensures
            r == spec_same_minor(self@, rhs@),
    {
        match (self.minor, rhs.minor) {
            (Some(x), Some(y)) => x == y,
            _ => false,
        }
    }

    pub fn has_patch(&self) -> (r: bool)
        ensures
            r == (self.patch is Some),
    {
        self.patch.is_some()
    }

    /// Neither tag has a variant, or both have one with the same prefix and
    /// suffix.
    pub fn is_same_variant(&self, rhs: &Tag) -> (r: bool)
        ensures
            r == spec_same_variant(self@, rhs@),
    {
        match (&self.variant, &rhs.variant) {
            (None, None) => true,
            (Some(x), Some(y)) => x.is_same_prefix(y) && x.is_same_suffix(y),
            _ => false,
        }
    }

    /// `rhs` has a patch number and a greater major.
    pub fn is_next_major(&self, rhs: &Tag) -> (r: bool)
        ensures
            r == spec_next_major(self@, rhs@),
    {
        rhs.has_patch() && both_less_exec(self.major, rhs.major)
    }

    /// Same major, and `rhs` has a greater minor.
    pub fn is_next_minor(&self, rhs: &Tag) -> (r: bool)
        ensures
            r == spec_next_minor(self@, rhs@),
    {
        self.is_same_major(rhs) && both_less_exec(self.minor, rhs.minor)
    }

    /// Same minor, both have a patch, and either the patch grew or a number
    /// of the variant did.
    pub fn is_next_patch(&self, rhs: &Tag) -> (r: bool)
        ensures
            r == spec_next_patch(self@, rhs@),
    {
        if !self.is_same_minor(rhs) {
            return false;
        }
        match (self.patch, rhs.patch) {
            (Some(c), Some(n)) => {
                c < n || match (&self.variant, &rhs.variant) {
                    (Some(x), Some(y)) => x.is_bumped_by(y),
                    _ => false,
                }
            },
            _ => false,
        }
    }
}

// ---------------------------------------------------------------------------
// Executable comparison
// ---------------------------------------------------------------------------

fn compare_u64(a: u64, b: u64) -> (r: i8)
    ensures
        r as int == cmp_u64(a, b),
{
    if a < b {
        -1
    } else if a == b {
        0
    } else {
        1
    }
}

fn compare_opt_u64(a: Option<u64>, b: Option<u64>) -> (r: i8)
    ensures
        r as int == cmp_opt_u64(a, b),
{
    match (a, b) {
        (None, None) => 0,
        (None, Some(_)) => -1,
        (Some(_), None) => 1,
        (Some(x), Some(y)) => compare_u64(x, y),
    }
}

fn compare_bool(a: bool, b: bool) -> (r: i8)
    ensures
        r as int == cmp_bool(a, b),
{
    if a == b {
        0
    } else if !a {
        -1
    } else {
        1
    }
}

fn compare_char_vecs(a: &Vec<char>, b: &Vec<char>) -> (r: i8)
    ensures
        r as int == cmp_chars(a@, b@),
{
    let mut i: usize = 0;
    proof {
        assert(a@.subrange(0, a@.len() as int) =~= a@);
        assert(b@.subrange(0, b@.len() as int) =~= b@);
    }
    loop
        invariant
            i <= a.len(),
            i <= b.len(),
            cmp_chars(a@, b@) == cmp_chars(
                a@.subrange(i as int, a@.len() as int),
                b@.subrange(i as int, b@.len() as int),
            ),
        decreases a.len() - i,
    {
        let ghost sa = a@.subrange(i as int, a@.len() as int);
        let ghost sb = b@.subrange(i as int, b@.len() as int);
        if i == a.len() {
            if i == b.len() {
                return 0;
            } else {
                return -1;
            }
        }
        if i == b.len() {
            return 1;
        }
        proof {
            assert(sa[0] == a@[i as int]);
            assert(sb[0] == b@[i as int]);
        }
        if a[i] != b[i] {
            if a[i] < b[i] {
                return -1;
            } else {
                return 1;
            }
        }
        proof {
            assert(sa.drop_first() =~= a@.subrange(i + 1, a@.len() as int));
            assert(sb.drop_first() =~= b@.subrange(i + 1, b@.len() as int));
        }
        i = i + 1;
    }
}

fn compare_strings(a: &String, b: &String) -> (r: i8)
    ensures
        r as int == cmp_chars(a@, b@),
{
    let x = chars_of(a.as_str());
    let y = chars_of(b.as_str());
    compare_char_vecs(&x, &y)
}

fn compare_opt_strings(a: &Option<String>, b: &Option<String>) -> (r: i8)
    ensures
        r as int == cmp_opt_chars(opt_view(*a), opt_view(*b)),
{
    match (a, b) {
        (None, None) => 0,
        (None, Some(_)) => -1,
        (Some(_), None) => 1,
        (Some(x), Some(y)) => compare_strings(x, y),
    }
}

fn compare_string_lists(a: &Vec<String>, b: &Vec<String>) -> (r: i8)
    ensures
        r as int == cmp_char_lists(string_views(a@), string_views(b@)),
{
    let ghost va = string_views(a@);
    let ghost vb = string_views(b@);
    let mut i: usize = 0;
    proof {
        assert(va.subrange(0, va.len() as int) =~= va);
        assert(vb.subrange(0, vb.len() as int) =~= vb);
    }
    loop
        invariant
            i <= a.len(),
            i <= b.len(),
            va == string_views(a@),
            vb == string_views(b@),
            cmp_char_lists(va, vb) == cmp_char_lists(
                va.subrange(i as int, va.len() as int),
                vb.subrange(i as int, vb.len() as int),
            ),
        decreases a.len() - i,
    {
        let ghost sa = va.subrange(i as int, va.len() as int);
        let ghost sb = vb.subrange(i as int, vb.len() as int);
        if i == a.len() {
            if i == b.len() {
                return 0;
            } else {
                return -1;
            }
        }
        if i == b.len() {
            return 1;
        }
        let c = compare_strings(&a[i], &b[i]);
        proof {
            assert(sa[0] == a@[i as int]@);
            assert(sb[0] == b@[i as int]@);
        }
        if c != 0 {
            return c;
        }
        proof {
            assert(sa.drop_first() =~= va.subrange(i + 1, va.len() as int));
            assert(sb.drop_first() =~= vb.subrange(i + 1, vb.len() as int));
        }
        i = i + 1;
    }
}

impl TagVariant {
    /// Compares by prefix, major, minor, patch, affixes, then suffix:
    /// negative, zero or positive as `self` orders before, equal to or after
    /// `rhs`.
    pub fn compare(&self, rhs: &TagVariant) -> (r: i8)
        ensures
            r as int == cmp_variant(self@, rhs@),
    {
        let c = compare_opt_strings(&self.prefix, &rhs.prefix);
        if c != 0 {
            return c;
        }
        let c = compare_opt_u64(self.major, rhs.major);
        if c != 0 {
            return c;
        }
        let c = compare_opt_u64(self.minor, rhs.minor);
        if c != 0 {
            return c;
        }
        let c = compare_opt_u64(self.patch, rhs.patch);
        if c != 0 {
            return c;
        }
        let c = compare_string_lists(&self.affixes, &rhs.affixes);
        if c != 0 {
            return c;
        }
        compare_opt_strings(&self.suffix, &rhs.suffix)
    }
}

impl Tag {
    /// Compares by `latest`, major, minor, patch, variant, then the stage
    /// reference flag: negative, zero or positive as `self` orders before,
    /// equal to or after `rhs`.
    pub fn compare(&self, rhs: &Tag) -> (r: i8)
        ensures
            r as int == cmp_tag(self@, rhs@),
    {
        let c = compare_bool(self.latest, rhs.latest);
        if c != 0 {
            return c;
        }
        let c = compare_opt_u64(self.major, rhs.major);
        if c != 0 {
            return c;
        }
        let c = compare_opt_u64(self.minor, rhs.minor);
        if c != 0 {
            return c;
        }
        let c = compare_opt_u64(self.patch, rhs.patch);
        if c != 0 {
            return c;
        }
        let c: i8 = match (&self.variant, &rhs.variant) {
            (None, None) => 0,
            (None, Some(_)) => -1,
            (Some(_), None) => 1,
            (Some(x), Some(y)) => x.compare(y),
        };
        if c != 0 {
            return c;
        }
        compare_bool(self.allowed_missing, rhs.allowed_missing)
    }
}

// ---------------------------------------------------------------------------
// The order is total
// ---------------------------------------------------------------------------

pub proof fn lemma_cmp_chars(a: Seq<char>, b: Seq<char>)
    ensures
        cmp_chars(a, b) == -cmp_chars(b, a),
        (cmp_chars(a, b) == 0) == (a == b),
        -1 <= cmp_chars(a, b) <= 1,
    decreases a.len(),
{
    if a.len() > 0 && b.len() > 0 && a[0] == b[0] {
        lemma_cmp_chars(a.drop_first(), b.drop_first());
        if a.drop_first() == b.drop_first() {
            assert forall|i: int| 0 <= i < a.len() implies a[i] == b[i] by {
                if i > 0 {
                    assert(a[i] == a.drop_first()[i - 1]);
                    assert(b[i] == b.drop_first()[i - 1]);
                }
            }
            assert(a =~= b);
        }
    }
    if a.len() == 0 && b.len() == 0 {
        assert(a =~= b);
    }
}

pub proof fn lemma_cmp_chars_trans(a: Seq<char>, b: Seq<char>, c: Seq<char>)
    requires
        cmp_chars(a, b) <= 0,
        cmp_chars(b, c) <= 0,
    ensures
        cmp_chars(a, c) <= 0,
    decreases a.len(),
{
    if a.len() > 0 && b.len() > 0 && c.len() > 0 && a[0] == b[0] && b[0] == c[0] {
        lemma_cmp_chars_trans(a.drop_first(), b.drop_first(), c.drop_first());
    }
}

pub proof fn lemma_cmp_char_lists(a: Seq<Seq<char>>, b: Seq<Seq<char>>)
    ensures
        cmp_char_lists(a, b) == -cmp_char_lists(b, a),
        (cmp_char_lists(a, b) == 0) == (a == b),
        -1 <= cmp_char_lists(a, b) <= 1,
    decreases a.len(),
{
    if a.len() > 0 && b.len() > 0 {
        lemma_cmp_chars(a[0], b[0]);
        lemma_cmp_char_lists(a.drop_first(), b.drop_first());
        if a[0] == b[0] && a.drop_first() == b.drop_first() {
            assert forall|i: int| 0 <= i < a.len() implies a[i] == b[i] by {
                if i > 0 {
                    assert(a[i] == a.drop_first()[i - 1]);
                    assert(b[i] == b.drop_first()[i - 1]);
                }
            }
            assert(a =~= b);
        }
    }
    if a.len() == 0 && b.len() == 0 {
        assert(a =~= b);
    }
}

pub proof fn lemma_cmp_char_lists_trans(a: Seq<Seq<char>>, b: Seq<Seq<char>>, c: Seq<Seq<char>>)
    requires
        cmp_char_lists(a, b) <= 0,
        cmp_char_lists(b, c) <= 0,
    ensures
        cmp_char_lists(a, c) <= 0,
    decreases a.len(),
{
    if a.len() > 0 && b.len() > 0 && c.len() > 0 {
        lemma_cmp_chars(a[0], b[0]);
        lemma_cmp_chars(b[0], c[0]);
        lemma_cmp_chars(a[0], c[0]);
        lemma_cmp_chars_trans(a[0], b[0], c[0]);
        if a[0] == b[0] && b[0] == c[0] {
            lemma_cmp_char_lists_trans(a.drop_first(), b.drop_first(), c.drop_first());
        }
    }
}

pub proof fn lemma_cmp_opt_chars(a: Option<Seq<char>>, b: Option<Seq<char>>)
    ensures
        cmp_opt_chars(a, b) == -cmp_opt_chars(b, a),
        (cmp_opt_chars(a, b) == 0) == (a == b),
        -1 <= cmp_opt_chars(a, b) <= 1,
{
    if a is Some && b is Some {
        lemma_cmp_chars(a->0, b->0);
    }
}

pub proof fn lemma_cmp_opt_chars_trans(
    a: Option<Seq<char>>,
    b: Option<Seq<char>>,
    c: Option<Seq<char>>,
)
    requires
        cmp_opt_chars(a, b) <= 0,
        cmp_opt_chars(b, c) <= 0,
    ensures
        cmp_opt_chars(a, c) <= 0,
{
    if a is Some && b is Some && c is Some {
        lemma_cmp_chars_trans(a->0, b->0, c->0);
    }
}

pub proof fn lemma_cmp_variant(x: VariantModel, y: VariantModel)
    ensures
        cmp_variant(x, y) == -cmp_variant(y, x),
        (cmp_variant(x, y) == 0) == (x == y),
        -1 <= cmp_variant(x, y) <= 1,
{
    lemma_cmp_opt_chars(x.prefix, y.prefix);
    lemma_cmp_opt_chars(x.suffix, y.suffix);
    lemma_cmp_char_lists(x.affixes, y.affixes);
}

pub proof fn lemma_cmp_variant_trans(x: VariantModel, y: VariantModel, z: VariantModel)
    requires
        cmp_variant(x, y) <= 0,
        cmp_variant(y, z) <= 0,
    ensures
        cmp_variant(x, z) <= 0,
{
    lemma_cmp_variant(x, y);
    lemma_cmp_variant(y, z);
    lemma_cmp_variant(x, z);
    lemma_cmp_opt_chars(x.prefix, y.prefix);
    lemma_cmp_opt_chars(y.prefix, z.prefix);
    lemma_cmp_opt_chars(x.prefix, z.prefix);
    lemma_cmp_opt_chars(x.suffix, y.suffix);
    lemma_cmp_opt_chars(y.suffix, z.suffix);
    lemma_cmp_opt_chars(x.suffix, z.suffix);
    lemma_cmp_char_lists(x.affixes, y.affixes);
    lemma_cmp_char_lists(y.affixes, z.affixes);
    lemma_cmp_char_lists(x.affixes, z.affixes);
    if cmp_opt_chars(x.prefix, y.prefix) <= 0 && cmp_opt_chars(y.prefix, z.prefix) <= 0 {
        lemma_cmp_opt_chars_trans(x.prefix, y.prefix, z.prefix);
    }
    if cmp_char_lists(x.affixes, y.affixes) <= 0 && cmp_char_lists(y.affixes, z.affixes) <= 0 {
        lemma_cmp_char_lists_trans(x.affixes, y.affixes, z.affixes);
    }
    if cmp_opt_chars(x.suffix, y.suffix) <= 0 && cmp_opt_chars(y.suffix, z.suffix) <= 0 {
        lemma_cmp_opt_chars_trans(x.suffix, y.suffix, z.suffix);
    }
}

pub proof fn lemma_cmp_opt_variant(a: Option<VariantModel>, b: Option<VariantModel>)
    ensures
        cmp_opt_variant(a, b) == -cmp_opt_variant(b, a),
        (cmp_opt_variant(a, b) == 0) == (a == b),
        -1 <= cmp_opt_variant(a, b) <= 1,
{
    if a is Some && b is Some {
        lemma_cmp_variant(a->0, b->0);
    }
}

/// Two tags compare in opposite ways from either side, and compare equal
/// exactly when they are equal.
pub proof fn lemma_cmp_tag(a: TagModel, b: TagModel)
    ensures
        cmp_tag(a, b) == -cmp_tag(b, a),
        (cmp_tag(a, b) == 0) == (a == b),
        -1 <= cmp_tag(a, b) <= 1,
{
    lemma_cmp_opt_variant(a.variant, b.variant);
}

/// The order on tags is transitive.
pub proof fn lemma_cmp_tag_trans(a: TagModel, b: TagModel, c: TagModel)
    requires
        tag_le(a, b),
        tag_le(b, c),
    ensures
        tag_le(a, c),
        tag_lt(a, b) || tag_lt(b, c) ==> tag_lt(a, c),
{
    lemma_cmp_tag(a, b);
    lemma_cmp_tag(b, c);
    lemma_cmp_tag(a, c);
    lemma_cmp_opt_variant(a.variant, b.variant);
    lemma_cmp_opt_variant(b.variant, c.variant);
    lemma_cmp_opt_variant(a.variant, c.variant);
    if a.variant is Some && b.variant is Some && c.variant is Some && cmp_variant(
        a.variant->0,
        b.variant->0,
    ) <= 0 && cmp_variant(b.variant->0, c.variant->0) <= 0 {
        lemma_cmp_variant_trans(a.variant->0, b.variant->0, c.variant->0);
    }
}

} // verus!
