//! The tag cache: tag lists by repository, in memory, with the rules for the
//! per-repository files that mirror it on disk.
use vstd::prelude::*;

use crate::error::Error;
use crate::image::{full_name, query_url, ContainerImage, ImageModel, Registry};
use crate::select::tag_views;
use crate::tag::{Tag, TagModel};
use crate::text::{append_str, chars_of, string_of};

verus! {

/// How long, in seconds, a cache file on disk stays valid.
pub const DURATION_HOUR_AS_SECS: u64 = 3600;

/// Tag lists by repository full name. A later entry for a repository
/// replaces an earlier one. The entries are kept in a list rather than a
/// `HashMap<String, _>`: vstd gives `HashMap` lookups a meaning only for keys
/// whose hashing it models, which `String` keys are not, so a map would leave
/// `lookup` without a provable result.
pub struct TagCache {
    entries: Vec<(String, Vec<Tag>)>,
}

/// The map that a list of entries stands for: later entries win.
pub open spec fn entries_map(es: Seq<(Seq<char>, Seq<TagModel>)>) -> Map<Seq<char>, Seq<TagModel>>
    decreases es.len(),
{
    if es.len() == 0 {
        Map::empty()
    } else {
        entries_map(es.drop_last()).insert(es.last().0, es.last().1)
    }
}

pub open spec fn entry_views(es: Seq<(String, Vec<Tag>)>) -> Seq<(Seq<char>, Seq<TagModel>)> {
    es.map_values(|e: (String, Vec<Tag>)| (e.0@, tag_views(e.1@)))
}

impl View for TagCache {
    type V = Map<Seq<char>, Seq<TagModel>>;

    closed spec fn view(&self) -> Map<Seq<char>, Seq<TagModel>> {
        entries_map(entry_views(self.entries@))
    }
}

fn clone_tags(v: &Vec<Tag>) -> (r: Vec<Tag>)
    ensures
        tag_views(r@) == tag_views(v@),
{
    let mut out: Vec<Tag> = Vec::new();
    let mut i: usize = 0;
    while i < v.len()
        invariant
            i <= v.len(),
            tag_views(out@) == tag_views(v@).subrange(0, i as int),
        decreases v.len() - i,
    {
        let ghost before = tag_views(out@);
        let t = v[i].clone();
        out.push(t);
        proof {
            assert(tag_views(out@) =~= before.push(v@[i as int]@));
        }
        i = i + 1;
        proof {
            assert(tag_views(out@) =~= tag_views(v@).subrange(0, i as int));
        }
    }
    proof {
        assert(tag_views(v@).subrange(0, i as int) =~= tag_views(v@));
    }
    out
}

impl TagCache {
    /// An empty cache.
    pub fn new() -> (r: TagCache)
        ensures
            r@ == Map::<Seq<char>, Seq<TagModel>>::empty(),
    {
        let r = TagCache { entries: Vec::new() };
        proof {
            assert(entry_views(r.entries@) =~= Seq::<(Seq<char>, Seq<TagModel>)>::empty());
        }
        r
    }

    /// The tag list cached for `repository`.
    pub fn lookup(&self, repository: &str) -> (r: Option<Vec<Tag>>)
        ensures
            r is Some <==> self@.contains_key(repository@),
            r matches Some(v) ==> tag_views(v@) == self@[repository@],
    {
        let ghost ev = entry_views(self.entries@);
        let key = repository.to_string();
        let mut i: usize = self.entries.len();
        proof {
            assert(ev.subrange(0, i as int) =~= ev);
        }
        while i > 0
            invariant
                i <= self.entries.len(),
                key@ == repository@,
                ev == entry_views(self.entries@),
                entries_map(ev) == self@,
                forall|j: int| i <= j < ev.len() ==> ev[j].0 != repository@,
                entries_map(ev).contains_key(repository@) ==> entries_map(ev.subrange(0, i as int)).contains_key(repository@)
                    && entries_map(ev.subrange(0, i as int))[repository@] == entries_map(ev)[repository@],
                !entries_map(ev).contains_key(repository@) ==> !entries_map(ev.subrange(0, i as int)).contains_key(
                    repository@,
                ),
            decreases i,
        {
            let k = i - 1;
            proof {
                assert(ev.subrange(0, i as int).drop_last() =~= ev.subrange(0, k as int));
                assert(ev.subrange(0, i as int).last() == ev[k as int]);
            }
            if self.entries[k].0.eq(&key) {
                proof {
                    assert(ev[k as int].0 == repository@);
                }
                return Some(clone_tags(&self.entries[k].1));
            }
            i = k;
        }
        None
    }

    /// Records `tags` as the list of `repository`.
    pub fn insert(&mut self, repository: &str, tags: &Vec<Tag>)
        ensures
            final(self)@ == old(self)@.insert(repository@, tag_views(tags@)),
    {
        let ghost before = entry_views(self.entries@);
        let copy = clone_tags(tags);
        self.entries.push((repository.to_string(), copy));
        proof {
            let after = entry_views(self.entries@);
            assert(after =~= before.push((repository@, tag_views(tags@))));
            assert(after.drop_last() =~= before);
        }
    }
}

/// A cache file of this age, in seconds, may still be used.
pub open spec fn file_is_fresh(age_secs: u64) -> bool {
    age_secs < DURATION_HOUR_AS_SECS
}

/// Whether a cache file of this age, in seconds, may still be used.
pub fn is_cache_fresh(age_secs: u64) -> (r: bool)
    ensures
        r == file_is_fresh(age_secs),
{
    age_secs < DURATION_HOUR_AS_SECS
}

/// Takes in the cache file of `repository`: `age_secs` is its age and
/// `content` the tags read from it, `None` when it is missing or unreadable.
/// A fresh, readable file fills the cache; a stale or unreadable one is
/// ignored and leaves the cache as it was, without error. Returns whether
/// the file was used.
pub fn load_cache_file(cache: &mut TagCache, repository: &str, age_secs: u64, content: Option<Vec<Tag>>) -> (r: bool)
    ensures
        r == (file_is_fresh(age_secs) && content is Some),
        r ==> final(cache)@ == old(cache)@.insert(repository@, tag_views(content->0@)),
        !r ==> final(cache)@ == old(cache)@,
{
    match content {
        Some(tags) => {
            if is_cache_fresh(age_secs) {
                cache.insert(repository, &tags);
                true
            } else {
                false
            }
        },
        None => false,
    }
}

/// `s` with every `/` replaced by `-`.
pub open spec fn dashed(s: Seq<char>) -> Seq<char> {
    s.map_values(|c: char| if c == '/' { '-' } else { c })
}

/// The name of the cache file of a repository: `library/node` gives
/// `library-node.json`.
pub fn cache_file_name(repository: &str) -> (r: String)
    ensures
        r@ == dashed(repository@) + ".json"@,
{
    let v = chars_of(repository);
    let mut out: Vec<char> = Vec::new();
    let mut i: usize = 0;
    while i < v.len()
        invariant
            i <= v.len(),
            v@ == repository@,
            out@ == dashed(v@.subrange(0, i as int)),
        decreases v.len() - i,
    {
        let c = v[i];
        out.push(if c == '/' { '-' } else { c });
        i = i + 1;
        proof {
            assert(out@ =~= dashed(v@.subrange(0, i as int)));
        }
    }
    proof {
        assert(v@.subrange(0, i as int) =~= v@);
    }
    append_str(&mut out, ".json");
    string_of(&out)
}

/// Where the tags of an image come from.
#[derive(Debug)]
pub enum TagSource {
    /// The image names a build stage or has no repository: it has no tags.
    NoTags,
    /// The cache holds the tag list of the repository.
    Cached(Vec<Tag>),
    /// The tag list must be fetched from this address.
    Fetch(String),
}

/// The image has no repository to ask about.
pub open spec fn has_no_repository(m: ImageModel) -> bool {
    m.tag.allowed_missing || full_name(m).len() == 0 || full_name(m) == seq!['/'] || (m.group is None
        && m.name.len() == 0)
}

impl ContainerImage {
    /// Decides where the tags of the image come from: none for a stage
    /// reference or an image without repository, the cache when it holds
    /// the repository, else a fetch from the registry (not available for
    /// the Google Container Registry).
    pub fn plan_tag_lookup(&self, cache: &TagCache) -> (r: Result<TagSource, Error>)
        ensures
            has_no_repository(self@) ==> r matches Ok(TagSource::NoTags),
            !has_no_repository(self@) && cache@.contains_key(full_name(self@)) ==> (r matches Ok(
                TagSource::Cached(v),
            ) && tag_views(v@) == cache@[full_name(self@)]),
            !has_no_repository(self@) && !cache@.contains_key(full_name(self@)) && self@.registry
                != Registry::Gcr ==> (r matches Ok(TagSource::Fetch(u)) && u@ == query_url(self@)),
            !has_no_repository(self@) && !cache@.contains_key(full_name(self@)) && self@.registry
                == Registry::Gcr ==> (r matches Err(Error::NotImplemented(n)) && n@ == full_name(
                self@,
            )),
    {
        let full = self.get_full_name();
        let fc = chars_of(full.as_str());
        let empty_name = self.get_group().is_none() && self.get_name().as_str().is_empty();
        let is_slash = fc.len() == 1 && fc[0] == '/';
        proof {
            if full@ == seq!['/'] {
                assert(fc@[0] == '/');
            }
            if is_slash {
                assert(fc@ =~= seq!['/']);
            }
        }
        if self.get_tag().allowed_missing || fc.len() == 0 || is_slash || empty_name {
            return Ok(TagSource::NoTags);
        }
        match cache.lookup(full.as_str()) {
            Some(v) => Ok(TagSource::Cached(v)),
            None => {
                if self.is_gcr() {
                    Err(Error::NotImplemented(full))
                } else {
                    Ok(TagSource::Fetch(self.get_query_url()))
                }
            },
        }
    }
}

} // verus!
