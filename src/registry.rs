//! Registry answers: the tag listings of Docker Hub and of the Microsoft
//! Container Registry, turned into sorted tag lists, and the walk over the
//! pages of a Docker Hub listing.
use vstd::prelude::*;

use crate::error::{Error, ParseError};
use crate::select::{holds, sort_dedup, strictly_sorted, tag_views};
use crate::tag::{opt_view, parse_tag, string_views, Tag, TagModel};

verus! {

/// The number of Docker Hub entries collected when no limit is given.
pub const TAG_RESULT_LIMIT: u16 = 2000;

/// One image of a Docker Hub tag entry.
#[derive(Debug)]
pub struct HubImage {
    pub architecture: String,
}

/// One tag entry of a Docker Hub listing page.
#[derive(Debug)]
pub struct DockerHubResult {
    pub name: String,
    pub images: Vec<HubImage>,
}

/// One page of a Docker Hub tag listing.
#[derive(Debug)]
pub struct DockerHubResponse {
    /// The address of the next page, if any.
    pub next: Option<String>,
    pub results: Vec<DockerHubResult>,
}

/// One tag entry of a Microsoft Container Registry listing.
#[derive(Debug)]
pub struct McrResponseEntry {
    pub name: String,
    pub architecture: Option<String>,
}

/// A tag listing from one of the supported registries.
#[derive(Debug)]
pub enum RegistryResponse {
    DockerHub(DockerHubResponse),
    MicrosoftContainerRegistry(Vec<McrResponseEntry>),
}

/// A listed tag: its text and the architectures it is built for.
pub struct EntryModel {
    pub name: Seq<char>,
    pub archs: Seq<Seq<char>>,
}

impl View for DockerHubResult {
    type V = EntryModel;

    open spec fn view(&self) -> EntryModel {
        EntryModel {
            name: self.name@,
            archs: self.images@.map_values(|i: HubImage| i.architecture@),
        }
    }
}

impl View for McrResponseEntry {
    type V = EntryModel;

    open spec fn view(&self) -> EntryModel {
        EntryModel {
            name: self.name@,
            archs: match self.architecture {
                Some(a) => seq![a@],
                None => Seq::empty(),
            },
        }
    }
}

pub open spec fn hub_entries(v: Seq<DockerHubResult>) -> Seq<EntryModel> {
    v.map_values(|r: DockerHubResult| r@)
}

pub open spec fn mcr_entries(v: Seq<McrResponseEntry>) -> Seq<EntryModel> {
    v.map_values(|r: McrResponseEntry| r@)
}

impl View for RegistryResponse {
    type V = Seq<EntryModel>;

    open spec fn view(&self) -> Seq<EntryModel> {
        match self {
            RegistryResponse::DockerHub(r) => hub_entries(r.results@),
            RegistryResponse::MicrosoftContainerRegistry(v) => mcr_entries(v@),
        }
    }
}

/// A tag is worth keeping when it has a major number or a variant; other
/// strings that registries list are noise.
pub open spec fn keeps(t: TagModel) -> bool {
    t.major is Some || t.variant is Some
}

/// The entry is kept under the architecture filter.
pub open spec fn entry_selected(e: EntryModel, arch: Option<Seq<char>>) -> bool {
    match arch {
        None => true,
        Some(a) => e.archs.contains(a),
    }
}

/// `x` is among the tags that the listing yields under the filter.
pub open spec fn listed(entries: Seq<EntryModel>, arch: Option<Seq<char>>, x: TagModel) -> bool {
    exists|i: int|
        0 <= i < entries.len() && entry_selected(entries[i], arch) && #[trigger] parse_tag(
            entries[i].name,
        ) == x && keeps(x)
}

/// The kept tags of the selected entries, in listing order.
pub open spec fn selected_tags(entries: Seq<EntryModel>, arch: Option<Seq<char>>) -> Seq<TagModel>
    decreases entries.len(),
{
    if entries.len() == 0 {
        Seq::empty()
    } else {
        let p = selected_tags(entries.drop_last(), arch);
        let t = parse_tag(entries.last().name);
        if entry_selected(entries.last(), arch) && keeps(t) {
            p.push(t)
        } else {
            p
        }
    }
}

pub proof fn lemma_selected_tags(entries: Seq<EntryModel>, arch: Option<Seq<char>>)
    ensures
        forall|x: TagModel| holds(selected_tags(entries, arch), x) <==> listed(entries, arch, x),
    decreases entries.len(),
{
    if entries.len() > 0 {
        let init = entries.drop_last();
        lemma_selected_tags(init, arch);
        let p = selected_tags(init, arch);
        let q = selected_tags(entries, arch);
        let n = entries.len() - 1;
        assert forall|x: TagModel| holds(q, x) <==> listed(entries, arch, x) by {
            if holds(q, x) {
                let k = choose|k: int| 0 <= k < q.len() && q[k] == x;
                if k < p.len() {
                    assert(q[k] == p[k]);
                    assert(holds(p, x));
                    assert(listed(init, arch, x));
                    let j = choose|j: int|
                        0 <= j < init.len() && entry_selected(init[j], arch) && #[trigger] parse_tag(
                            init[j].name,
                        ) == x && keeps(x);
                    assert(entries[j] == init[j]);
                } else {
                    assert(parse_tag(entries[n].name) == x);
                }
            }
            if listed(entries, arch, x) {
                let j = choose|j: int|
                    0 <= j < entries.len() && entry_selected(entries[j], arch) && #[trigger] parse_tag(
                        entries[j].name,
                    ) == x && keeps(x);
                if j < n {
                    assert(init[j] == entries[j]);
                    assert(listed(init, arch, x));
                    let k = choose|k: int| 0 <= k < p.len() && p[k] == x;
                    assert(q[k] == x);
                } else {
                    assert(q[p.len() as int] == x);
                }
            }
        }
    }
}

fn entry_offers(archs: &Vec<String>, arch: &Option<String>) -> (r: bool)
    ensures
        r == entry_selected(EntryModel { name: Seq::empty(), archs: string_views(archs@) }, opt_view(*arch)),
{
    match arch {
        None => true,
        Some(a) => {
            let ghost av = string_views(archs@);
            let mut i: usize = 0;
            while i < archs.len()
                invariant
                    i <= archs.len(),
                    opt_view(*arch) == Some(a@),
                    av == string_views(archs@),
                    forall|j: int| 0 <= j < i ==> av[j] != a@,
                decreases archs.len() - i,
            {
                if archs[i].eq(a) {
                    proof {
                        assert(av[i as int] == a@);
                        assert(av.contains(a@));
                    }
                    return true;
                }
                i = i + 1;
            }
            false
        },
    }
}

impl RegistryResponse {
    fn entry_count(&self) -> (r: usize)
        ensures
            r == self@.len(),
    {
        match self {
            RegistryResponse::DockerHub(h) => h.results.len(),
            RegistryResponse::MicrosoftContainerRegistry(v) => v.len(),
        }
    }

    /// The name of entry `i` and whether it is built for `arch`.
    fn entry(&self, i: usize, arch: &Option<String>) -> (r: (String, bool))
        requires
            i < self@.len(),
        ensures
            r.0@ == self@[i as int].name,
            r.1 == entry_selected(self@[i as int], opt_view(*arch)),
    {
        match self {
            RegistryResponse::DockerHub(h) => {
                let e = &h.results[i];
                let mut archs: Vec<String> = Vec::new();
                let mut j: usize = 0;
                while j < e.images.len()
                    invariant
                        j <= e.images.len(),
                        string_views(archs@) == e.images@.subrange(0, j as int).map_values(
                            |x: HubImage| x.architecture@,
                        ),
                    decreases e.images.len() - j,
                {
                    let ghost before = string_views(archs@);
                    let a = e.images[j].architecture.clone();
                    archs.push(a);
                    proof {
                        assert(string_views(archs@) =~= before.push(
                            e.images@[j as int].architecture@,
                        ));
                        assert(e.images@.subrange(0, j + 1).map_values(|x: HubImage| x.architecture@)
                            =~= e.images@.subrange(0, j as int).map_values(
                            |x: HubImage| x.architecture@,
                        ).push(e.images@[j as int].architecture@));
                    }
                    j = j + 1;
                    proof {
                        assert(string_views(archs@) =~= e.images@.subrange(
                            0,
                            j as int,
                        ).map_values(|x: HubImage| x.architecture@));
                    }
                }
                proof {
                    assert(e.images@.subrange(0, j as int) =~= e.images@);
                    assert(self@[i as int] == e@);
                }
                let offered = entry_offers(&archs, arch);
                (e.name.clone(), offered)
            },
            RegistryResponse::MicrosoftContainerRegistry(v) => {
                let e = &v[i];
                let mut archs: Vec<String> = Vec::new();
                if let Some(a) = &e.architecture {
                    archs.push(a.clone());
                }
                proof {
                    assert(self@[i as int] == e@);
                    assert(string_views(archs@) =~= e@.archs);
                }
                let offered = entry_offers(&archs, arch);
                (e.name.clone(), offered)
            },
        }
    }

    fn collect_tags(&self, arch: &Option<String>) -> (r: Vec<Tag>)
        ensures
            strictly_sorted(tag_views(r@)),
            forall|x: TagModel| holds(tag_views(r@), x) <==> listed(self@, opt_view(*arch), x),
    {
        let ghost es = self@;
        let ghost av = opt_view(*arch);
        let n = self.entry_count();
        let mut kept: Vec<Tag> = Vec::new();
        let mut i: usize = 0;
        proof {
            assert(tag_views(kept@) =~= selected_tags(es.subrange(0, 0), av));
        }
        while i < n
            invariant
                i <= n == es.len(),
                es == self@,
                av == opt_view(*arch),
                tag_views(kept@) == selected_tags(es.subrange(0, i as int), av),
            decreases n - i,
        {
            let (name, offered) = self.entry(i, arch);
            let ghost before = tag_views(kept@);
            proof {
                assert(es.subrange(0, i + 1).drop_last() =~= es.subrange(0, i as int));
                assert(es.subrange(0, i + 1).last() == es[i as int]);
            }
            if offered {
                let t = Tag::parse(name.as_str());
                if t.major.is_some() || t.variant.is_some() {
                    let ghost tv = t@;
                    kept.push(t);
                    proof {
                        assert(tag_views(kept@) =~= before.push(tv));
                    }
                }
            }
            i = i + 1;
        }
        proof {
            assert(es.subrange(0, i as int) =~= es);
            lemma_selected_tags(es, av);
        }
        sort_dedup(kept)
    }

    /// The tags of the listing, parsed, without the noise entries (neither a
    /// major number nor a variant), sorted and each once.
    pub fn get_tags(&self) -> (r: Vec<Tag>)
        ensures
            strictly_sorted(tag_views(r@)),
            forall|x: TagModel| holds(tag_views(r@), x) <==> listed(self@, None, x),
    {
        self.collect_tags(&None)
    }

    /// As [`RegistryResponse::get_tags`], keeping only the entries built for
    /// `arch`.
    pub fn get_tags_for_arch(&self, arch: &str) -> (r: Vec<Tag>)
        ensures
            strictly_sorted(tag_views(r@)),
            forall|x: TagModel| holds(tag_views(r@), x) <==> listed(self@, Some(arch@), x),
    {
        let a = Some(arch.to_string());
        self.collect_tags(&a)
    }
}

// ---------------------------------------------------------------------------
// Docker Hub pages
// ---------------------------------------------------------------------------

/// What fetching one page gave.
pub enum PageOutcome {
    /// The page was read.
    Page(DockerHubResponse),
    /// The page arrived but its body could not be read as a listing.
    Unreadable,
    /// The request failed.
    Unreachable,
}

/// What to do after a page.
#[derive(Debug)]
pub enum PagerStep {
    /// Fetch the page at this address.
    Fetch(String),
    /// The listing is complete.
    Done,
    /// Give up with this error.
    Failed(Error),
}

/// The entries of a Docker Hub listing collected so far.
pub struct TagPager {
    pub full_name: String,
    pub limit: usize,
    pub results: Vec<DockerHubResult>,
}

impl TagPager {
    /// A walk over the listing of `full_name` that stops after `limit`
    /// entries (2000 when no limit is given).
    pub fn new(full_name: String, limit: Option<u16>) -> (r: TagPager)
        ensures
            r.full_name@ == full_name@,
            r.limit == (match limit {
                Some(l) => l,
                None => TAG_RESULT_LIMIT,
            }) as usize,
            r.results@.len() == 0,
    {
        let l = match limit {
            Some(l) => l,
            None => TAG_RESULT_LIMIT,
        };
        TagPager { full_name, limit: l as usize, results: Vec::new() }
    }

    /// Takes in one fetched page and decides the next step.
    ///
    /// A failed request fails the walk. An unreadable page fails it when
    /// nothing was collected yet and ends it otherwise. A page without
    /// entries ends the walk whatever its `next` says. Otherwise its entries
    /// are added, and the walk goes on to `next` while there is one and the
    /// limit is not reached.
    pub fn on_page(&mut self, outcome: PageOutcome) -> (r: PagerStep)
        ensures
            final(self).full_name == old(self).full_name,
            final(self).limit == old(self).limit,
            match outcome {
                PageOutcome::Unreachable => {
                    &&& final(self).results@ == old(self).results@
                    &&& r matches PagerStep::Failed(Error::ImageNotFound(n)) && n@ == old(self).full_name@
                },
                PageOutcome::Unreadable => {
                    &&& final(self).results@ == old(self).results@
                    &&& if old(self).results@.len() == 0 {
                        r matches PagerStep::Failed(Error::Parse(ParseError::InvalidDockerhubResponse))
                    } else {
                        r is Done
                    }
                },
                PageOutcome::Page(p) => if p.results@.len() == 0 {
                    &&& final(self).results@ == old(self).results@
                    &&& r is Done
                } else {
                    &&& final(self).results@ == old(self).results@ + p.results@
                    &&& if final(self).results@.len() >= old(self).limit {
                        r is Done
                    } else {
                        match p.next {
                            Some(u) => r matches PagerStep::Fetch(x) && x@ == u@,
                            None => r is Done,
                        }
                    }
                },
            },
    {
        match outcome {
            PageOutcome::Unreachable => PagerStep::Failed(Error::ImageNotFound(self.full_name.clone())),
            PageOutcome::Unreadable => {
                if self.results.len() == 0 {
                    PagerStep::Failed(Error::Parse(ParseError::InvalidDockerhubResponse))
                } else {
                    PagerStep::Done
                }
            },
            PageOutcome::Page(page) => {
                let DockerHubResponse { next, results } = page;
                if results.len() == 0 {
                    return PagerStep::Done;
                }
                let mut results = results;
                self.results.append(&mut results);
                if self.results.len() >= self.limit {
                    PagerStep::Done
                } else {
                    match next {
                        Some(u) => PagerStep::Fetch(u),
                        None => PagerStep::Done,
                    }
                }
            },
        }
    }

    /// The collected entries as one listing.
    pub fn into_response(self) -> (r: RegistryResponse)
        ensures
            r@ == hub_entries(self.results@),
    {
        RegistryResponse::DockerHub(DockerHubResponse { next: None, results: self.results })
    }
}

} // verus!
