//! Facts that relate several operations of the library.
use vstd::prelude::*;

use crate::cache::{file_is_fresh, TagCache};
use crate::image::{full_name, ImageModel};
use crate::tag::{parse_tag, render_tag, spec_next_major, spec_next_minor, spec_same_major, zero_tag, TagModel};
use crate::text::{lemma_leading_spaces_bound, lemma_trailing_spaces_bound, split_by, trim, trim_start};

verus! {

/// A tag has the same major as itself exactly when it has a major, and it is
/// never the next minor of itself.
pub proof fn lemma_compare_with_itself(t: TagModel)
    ensures
        spec_same_major(t, t) <==> t.major is Some,
        !spec_next_minor(t, t),
{
}

/// Being a next major is transitive on the major numbers.
pub proof fn lemma_next_major_transitive(a: TagModel, b: TagModel, c: TagModel)
    requires
        spec_next_major(a, b),
        spec_next_major(b, c),
    ensures
        a.major is Some && c.major is Some && a.major->0 < c.major->0,
{
}

/// The empty text reads as the zero tag, and the zero tag writes as the
/// empty text.
pub proof fn lemma_empty_tag()
    ensures
        parse_tag(Seq::empty()) == zero_tag(),
        render_tag(zero_tag()) == Seq::<char>::empty(),
{
    let e = Seq::<char>::empty();
    lemma_leading_spaces_bound(e);
    assert(trim_start(e) =~= e);
    lemma_trailing_spaces_bound(e);
    assert(trim(e) =~= e);
    assert(split_by(e, '.') == seq![e]);
    assert(render_tag(zero_tag()) =~= e);
}

/// Once the tag list of an image's repository is put in the cache (by
/// `TagCache::insert`, or by `load_cache_file` from a file younger than an
/// hour), every later lookup of that repository gives exactly that list:
/// `TagCache::lookup` returns it and `plan_tag_lookup` answers `Cached` with
/// it, as long as no other list is stored for the repository.
pub proof fn lemma_populated_cache_is_served(
    before: TagCache,
    after: TagCache,
    image: ImageModel,
    tags: Seq<TagModel>,
    age_secs: u64,
)
    requires
        age_secs < 3600,
        after@ == before@.insert(full_name(image), tags),
    ensures
        file_is_fresh(age_secs),
        after@.contains_key(full_name(image)),
        after@[full_name(image)] == tags,
{
}

} // verus!
