//! The arguments of the command line modes, and the small decisions the modes
//! make on their own: which files count as Dockerfiles, which are excluded,
//! and what a quiet run prints.
use vstd::prelude::*;

use crate::image::{full_name, ContainerImage};
use crate::select::{best_candidate, find_candidate_tag, opt_tag_view, tag_views, Strategy};
use crate::tag::{render_tag, Tag};
use crate::text::{chars_of, slice_of, starts_with_nocase, starts_with_nocase_exec, string_of};

verus! {

/// The parsed command line.
#[derive(Debug)]
pub struct Cli {
    pub mode: Mode,
}

/// The four ways of running.
#[derive(Debug)]
pub enum Mode {
    /// One image reference in, its successor out.
    Input(InputArguments),
    /// One image reference in, its successor under every strategy out.
    Overview(OverviewArguments),
    /// Update the images of one Dockerfile.
    File(SingleFileArguments),
    /// Update the images of every Dockerfile below a folder.
    Multi(MultiFileArguments),
}

#[derive(Debug)]
pub struct SingleFileArguments {
    pub file: String,
    pub strat: Strategy,
    pub dry_run: bool,
    pub common: CommonOptions,
}

#[derive(Debug)]
pub struct InputArguments {
    pub input: String,
    pub strat: Strategy,
    pub common: CommonOptions,
}

#[derive(Debug)]
pub struct OverviewArguments {
    pub input: String,
    pub common: CommonOptions,
}

#[derive(Debug)]
pub struct CommonOptions {
    /// Keep only tags built for this architecture.
    pub arch: Option<String>,
    /// The number of Docker Hub entries to collect at most.
    pub tag_search_limit: Option<u16>,
    pub debug: bool,
    /// Print only the result.
    pub quiet: bool,
}

#[derive(Debug)]
pub struct MultiFileArguments {
    pub folder: String,
    pub strat: Strategy,
    pub dry_run: bool,
    /// Files whose path ends with one of these are skipped.
    pub exclude_file: Vec<String>,
    /// Image references that are never updated.
    pub ignore_versions: Vec<String>,
    pub common: CommonOptions,
}

/// A file is taken for a Dockerfile when its name starts with `dockerfile`
/// in any letter case.
pub fn is_dockerfile_name(file_name: &str) -> (r: bool)
    ensures
        r == starts_with_nocase(file_name@, "dockerfile"@),
{
    let v = chars_of(file_name);
    starts_with_nocase_exec(&v, "dockerfile")
}

pub open spec fn ends_with(s: Seq<char>, suffix: Seq<char>) -> bool {
    suffix.len() <= s.len() && s.subrange(s.len() - suffix.len(), s.len() as int) == suffix
}

fn ends_with_exec(s: &Vec<char>, suffix: &Vec<char>) -> (r: bool)
    ensures
        r == ends_with(s@, suffix@),
{
    if suffix.len() > s.len() {
        return false;
    }
    let tail = slice_of(s, s.len() - suffix.len(), s.len());
    let mut i: usize = 0;
    while i < suffix.len()
        invariant
            i <= suffix.len() == tail.len(),
            suffix.len() <= s.len(),
            tail@ == s@.subrange(s.len() - suffix.len(), s.len() as int),
            forall|j: int| 0 <= j < i ==> tail@[j] == suffix@[j],
        decreases suffix.len() - i,
    {
        if tail[i] != suffix[i] {
            proof {
                assert(tail@[i as int] != suffix@[i as int]);
                assert(tail@ != suffix@);
            }
            return false;
        }
        i = i + 1;
    }
    proof {
        assert(tail@ =~= suffix@);
    }
    true
}

/// The path ends with one of the excluded names.
pub fn is_excluded(path: &str, exclude_file: &Vec<String>) -> (r: bool)
    ensures
        r == exists|i: int| 0 <= i < exclude_file.len() && ends_with(path@, #[trigger] exclude_file@[i]@),
{
    let p = chars_of(path);
    let mut i: usize = 0;
    while i < exclude_file.len()
        invariant
            i <= exclude_file.len(),
            p@ == path@,
            forall|j: int| 0 <= j < i ==> !ends_with(path@, #[trigger] exclude_file@[j]@),
        decreases exclude_file.len() - i,
    {
        let e = chars_of(exclude_file[i].as_str());
        if ends_with_exec(&p, &e) {
            return true;
        }
        i = i + 1;
    }
    false
}

pub open spec fn trim_end_dots(s: Seq<char>) -> Seq<char>
    decreases s.len(),
{
    if s.len() > 0 && s.last() == '.' {
        trim_end_dots(s.drop_last())
    } else {
        s
    }
}

/// What a quiet run of the input mode prints for a found tag:
/// `repository:tag`, without trailing dots.
pub fn quiet_answer(image: &ContainerImage, found: &Tag) -> (r: String)
    ensures
        r@ == full_name(image@) + seq![':'] + trim_end_dots(render_tag(found@)),
{
    let mut out = chars_of(image.get_full_name().as_str());
    out.push(':');
    let t = found.render_chars();
    let mut end: usize = t.len();
    proof {
        assert(t@.subrange(0, end as int) =~= t@);
    }
    while end > 0 && t[end - 1] == '.'
        invariant
            end <= t.len(),
            trim_end_dots(t@) == trim_end_dots(t@.subrange(0, end as int)),
        decreases end,
    {
        proof {
            assert(t@.subrange(0, end as int).drop_last() =~= t@.subrange(0, end - 1));
        }
        end = end - 1;
    }
    let kept = slice_of(&t, 0, end);
    let ghost before = out@;
    crate::text::append_chars(&mut out, &kept);
    proof {
        assert(out@ =~= before + kept@);
    }
    string_of(&out)
}

/// Every strategy, in the order the overview lists them.
pub open spec fn all_strategies_spec() -> Seq<Strategy> {
    seq![
        Strategy::Latest,
        Strategy::NextPatch,
        Strategy::LatestPatch,
        Strategy::NextMinor,
        Strategy::LatestMinor,
        Strategy::NextMajor,
        Strategy::LatestMajor,
    ]
}

/// Every strategy, in the order the overview lists them.
pub fn all_strategies() -> (r: Vec<Strategy>)
    ensures
        r@ == all_strategies_spec(),
        r@ == seq![
            Strategy::Latest,
            Strategy::NextPatch,
            Strategy::LatestPatch,
            Strategy::NextMinor,
            Strategy::LatestMinor,
            Strategy::NextMajor,
            Strategy::LatestMajor,
        ],
{
    let r = vec![
        Strategy::Latest,
        Strategy::NextPatch,
        Strategy::LatestPatch,
        Strategy::NextMinor,
        Strategy::LatestMinor,
        Strategy::NextMajor,
        Strategy::LatestMajor,
    ];
    proof {
        assert(r@ =~= seq![
            Strategy::Latest,
            Strategy::NextPatch,
            Strategy::LatestPatch,
            Strategy::NextMinor,
            Strategy::LatestMinor,
            Strategy::NextMajor,
            Strategy::LatestMajor,
        ]);
    }
    r
}

/// The successor of `current` in `tags` under each strategy of
/// `all_strategies`, in that order.
pub fn overview(current: &Tag, tags: &Vec<Tag>) -> (r: Vec<(Strategy, Option<Tag>)>)
    ensures
        r@.len() == 7,
        forall|i: int| 0 <= i < 7 ==> #[trigger] r@[i].0 == all_strategies_spec()[i],
        forall|i: int|
            0 <= i < 7 ==> opt_tag_view(#[trigger] r@[i].1) == best_candidate(
                current@,
                tag_views(tags@),
                r@[i].0,
            ),
{
    let all = all_strategies();
    let mut out: Vec<(Strategy, Option<Tag>)> = Vec::new();
    let mut i: usize = 0;
    while i < all.len()
        invariant
            i <= all.len() == 7,
            out@.len() == i,
            all@ == all_strategies_spec(),
            forall|j: int| 0 <= j < i ==> #[trigger] out@[j].0 == all@[j],
            forall|j: int|
                0 <= j < i ==> opt_tag_view(#[trigger] out@[j].1) == best_candidate(
                    current@,
                    tag_views(tags@),
                    out@[j].0,
                ),
        decreases all.len() - i,
    {
        let s = all[i];
        let found = find_candidate_tag(current, tags, &s);
        out.push((s, found));
        i = i + 1;
    }
    out
}

} // verus!
