//! Upgrade strategies, the choice of a successor tag, and sorted tag lists.
use vstd::prelude::*;

use crate::tag::{
    spec_next_major, spec_next_minor, spec_next_patch, spec_same_variant, tag_le, tag_lt, Tag,
    TagModel,
};
use crate::tag_order::{lemma_cmp_tag, lemma_cmp_tag_trans};

verus! {

/// Which successor of the current tag to look for.
#[derive(Clone, Copy, Debug, PartialEq, Eq, Structural)]
pub enum Strategy {
    /// The greatest successor of any kind.
    Latest,
    NextPatch,
    LatestPatch,
    NextMinor,
    LatestMinor,
    NextMajor,
    LatestMajor,
}

impl Default for Strategy {
    fn default() -> (r: Strategy)
        ensures
            r == Strategy::Latest,
    {
        Strategy::Latest
    }
}

/// The name of a strategy as it is written on the command line.
pub open spec fn strategy_name(s: Strategy) -> Seq<char> {
    match s {
        Strategy::Latest => "latest"@,
        Strategy::NextPatch => "next-patch"@,
        Strategy::LatestPatch => "latest-patch"@,
        Strategy::NextMinor => "next-minor"@,
        Strategy::LatestMinor => "latest-minor"@,
        Strategy::NextMajor => "next-major"@,
        Strategy::LatestMajor => "latest-major"@,
    }
}

impl Strategy {
    /// The name of the strategy as it is written on the command line.
    pub fn name(&self) -> (r: &'static str)
        ensures
            r@ == strategy_name(*self),
    {
        match self {
            Strategy::Latest => "latest",
            Strategy::NextPatch => "next-patch",
            Strategy::LatestPatch => "latest-patch",
            Strategy::NextMinor => "next-minor",
            Strategy::LatestMinor => "latest-minor",
            Strategy::NextMajor => "next-major",
            Strategy::LatestMajor => "latest-major",
        }
    }
}

/// `x` is a successor of `current` of the kind that `s` asks for.
pub open spec fn matches_strategy(current: TagModel, x: TagModel, s: Strategy) -> bool {
    match s {
        Strategy::NextPatch | Strategy::LatestPatch => spec_next_patch(current, x),
        Strategy::NextMinor | Strategy::LatestMinor => spec_next_minor(current, x),
        Strategy::NextMajor | Strategy::LatestMajor => spec_next_major(current, x),
        Strategy::Latest => spec_next_major(current, x) || spec_next_minor(current, x)
            || spec_next_patch(current, x),
    }
}

/// `x` keeps the variant of `current` and is a successor under `s`.
pub open spec fn is_candidate(current: TagModel, x: TagModel, s: Strategy) -> bool {
    spec_same_variant(current, x) && matches_strategy(current, x, s)
}

/// The `Next*` strategies take the least candidate, the others the greatest.
pub open spec fn takes_least(s: Strategy) -> bool {
    s == Strategy::NextPatch || s == Strategy::NextMinor || s == Strategy::NextMajor
}

pub open spec fn tag_views(v: Seq<Tag>) -> Seq<TagModel> {
    v.map_values(|t: Tag| t@)
}

/// `t` comes first among the candidates (`Next*`) or last (the others).
pub open spec fn is_best(t: TagModel, x: TagModel, s: Strategy) -> bool {
    if takes_least(s) {
        tag_le(t, x)
    } else {
        tag_le(x, t)
    }
}

/// The tag that `find_candidate_tag` picks from `list`: a candidate that
/// comes first (`Next*`) or last (the others) among all candidates.
pub open spec fn best_candidate(current: TagModel, list: Seq<TagModel>, s: Strategy) -> Option<TagModel> {
    if exists|i: int| 0 <= i < list.len() && is_candidate(current, #[trigger] list[i], s) {
        Some(
            choose|t: TagModel|
                (exists|i: int| 0 <= i < list.len() && #[trigger] list[i] == t) && is_candidate(current, t, s)
                    && forall|i: int|
                    0 <= i < list.len() && is_candidate(current, #[trigger] list[i], s) ==> is_best(t, list[i], s),
        )
    } else {
        None
    }
}

pub open spec fn opt_tag_view(o: Option<Tag>) -> Option<TagModel> {
    match o {
        Some(t) => Some(t@),
        None => None,
    }
}

fn matches_strategy_exec(current: &Tag, x: &Tag, s: Strategy) -> (r: bool)
    ensures
        r == matches_strategy(current@, x@, s),
{
    match s {
        Strategy::NextPatch | Strategy::LatestPatch => current.is_next_patch(x),
        Strategy::NextMinor | Strategy::LatestMinor => current.is_next_minor(x),
        Strategy::NextMajor | Strategy::LatestMajor => current.is_next_major(x),
        Strategy::Latest => current.is_next_major(x) || current.is_next_minor(x)
            || current.is_next_patch(x),
    }
}

/// Finds the successor of `starting_tag` in `tag_list` under `strategy`:
/// among the tags with the same variant that the strategy accepts, the least
/// for the `Next*` strategies and the greatest for the others. `None` when
/// no tag qualifies.
pub fn find_candidate_tag(starting_tag: &Tag, tag_list: &Vec<Tag>, strategy: &Strategy) -> (r:
    Option<Tag>)
    ensures
        r is None <==> !(exists|i: int|
            0 <= i < tag_list.len() && is_candidate(starting_tag@, #[trigger] tag_list@[i]@, *strategy)),
        r matches Some(t) ==> {
            &&& exists|i: int| 0 <= i < tag_list.len() && #[trigger] tag_list@[i]@ == t@
            &&& is_candidate(starting_tag@, t@, *strategy)
            &&& forall|i: int|
                0 <= i < tag_list.len() && is_candidate(starting_tag@, #[trigger] tag_list@[i]@, *strategy)
                    ==> is_best(t@, tag_list@[i]@, *strategy)
        },
        opt_tag_view(r) == best_candidate(starting_tag@, tag_views(tag_list@), *strategy),
{
    let s = *strategy;
    let least = match s {
        Strategy::NextPatch | Strategy::NextMinor | Strategy::NextMajor => true,
        _ => false,
    };
    let mut best: Option<usize> = None;
    let mut i: usize = 0;
    while i < tag_list.len()
        invariant
            i <= tag_list.len(),
            s == *strategy,
            least == takes_least(s),
            best is None <==> !(exists|j: int|
                0 <= j < i && is_candidate(starting_tag@, #[trigger] tag_list@[j]@, s)),
            best matches Some(b) ==> {
                &&& b < i
                &&& is_candidate(starting_tag@, tag_list@[b as int]@, s)
                &&& forall|j: int|
                    0 <= j < i && is_candidate(starting_tag@, #[trigger] tag_list@[j]@, s)
                        ==> is_best(tag_list@[b as int]@, tag_list@[j]@, s)
            },
        decreases tag_list.len() - i,
    {
        let x = &tag_list[i];
        if starting_tag.is_same_variant(x) && matches_strategy_exec(starting_tag, x, s) {
            match best {
                None => {
                    best = Some(i);
                    proof {
                        lemma_cmp_tag(x@, x@);
                    }
                },
                Some(b) => {
                    let c = x.compare(&tag_list[b]);
                    let ghost bv = tag_list@[b as int]@;
                    proof {
                        lemma_cmp_tag(x@, bv);
                    }
                    let better = if least {
                        c < 0
                    } else {
                        c > 0
                    };
                    if better {
                        best = Some(i);
                        proof {
                            assert forall|j: int|
                                0 <= j < i + 1 && is_candidate(
                                    starting_tag@,
                                    #[trigger] tag_list@[j]@,
                                    s,
                                ) implies is_best(x@, tag_list@[j]@, s) by {
                                if j < i {
                                    if least {
                                        lemma_cmp_tag_trans(x@, bv, tag_list@[j]@);
                                    } else {
                                        lemma_cmp_tag_trans(tag_list@[j]@, bv, x@);
                                    }
                                } else {
                                    lemma_cmp_tag(x@, x@);
                                }
                            }
                        }
                    } else {
                        proof {
                            assert(is_best(bv, x@, s));
                        }
                    }
                },
            }
        }
        i = i + 1;
    }
    let ghost lv = tag_views(tag_list@);
    proof {
        assert forall|i: int| 0 <= i < tag_list.len() implies #[trigger] lv[i] == tag_list@[i]@ by {}
    }
    match best {
        None => {
            proof {
                if exists|i: int| 0 <= i < lv.len() && is_candidate(starting_tag@, #[trigger] lv[i], s) {
                    let i = choose|i: int| 0 <= i < lv.len() && is_candidate(starting_tag@, #[trigger] lv[i], s);
                    assert(is_candidate(starting_tag@, tag_list@[i]@, s));
                }
            }
            None
        },
        Some(b) => {
            let r = tag_list[b].clone();
            proof {
                let t = r@;
                assert(lv[b as int] == t);
                assert(exists|i: int| 0 <= i < lv.len() && is_candidate(starting_tag@, #[trigger] lv[i], s));
                let c = best_candidate(starting_tag@, lv, s)->0;
                assert(exists|i: int| 0 <= i < lv.len() && #[trigger] lv[i] == t);
                assert(is_best(t, c, s) && is_best(c, t, s)) by {
                    let ic = choose|i: int| 0 <= i < lv.len() && #[trigger] lv[i] == c;
                    assert(lv[ic] == tag_list@[ic]@);
                    assert(is_candidate(starting_tag@, tag_list@[ic]@, s));
                }
                lemma_cmp_tag(t, c);
            }
            Some(r)
        },
    }
}

/// `v` is strictly increasing in the tag order, so without duplicates.
pub open spec fn strictly_sorted(v: Seq<TagModel>) -> bool {
    forall|i: int, j: int| 0 <= i < j < v.len() ==> tag_lt(#[trigger] v[i], #[trigger] v[j])
}

pub open spec fn holds(v: Seq<TagModel>, x: TagModel) -> bool {
    exists|i: int| 0 <= i < v.len() && v[i] == x
}

/// The tags of `tags` in ascending order, each once.
#[verifier::spinoff_prover]
#[verifier::rlimit(80)]
pub fn sort_dedup(tags: Vec<Tag>) -> (r: Vec<Tag>)
    ensures
        strictly_sorted(tag_views(r@)),
        forall|x: TagModel| holds(tag_views(r@), x) <==> holds(tag_views(tags@), x),
{
    let mut out: Vec<Tag> = Vec::new();
    let mut k: usize = 0;
    while k < tags.len()
        invariant
            k <= tags.len(),
            strictly_sorted(tag_views(out@)),
            forall|x: TagModel|
                holds(tag_views(out@), x) <==> holds(tag_views(tags@.subrange(0, k as int)), x),
        decreases tags.len() - k,
    {
        let t = &tags[k];
        let ghost tv = t@;
        let ghost before = tag_views(out@);
        let mut p: usize = 0;
        while p < out.len() && out[p].compare(t) < 0
            invariant
                p <= out.len(),
                before == tag_views(out@),
                tv == t@,
                forall|i: int| 0 <= i < p ==> tag_lt(#[trigger] before[i], tv),
            decreases out.len() - p,
        {
            p = p + 1;
        }
        let ghost prefix_k = tag_views(tags@.subrange(0, k as int));
        let ghost next_k = tag_views(tags@.subrange(0, k + 1));
        proof {
            assert(next_k =~= prefix_k.push(tv));
            assert forall|x: TagModel| holds(next_k, x) <==> holds(prefix_k, x) || x == tv by {
                if holds(next_k, x) {
                    let i = choose|i: int| 0 <= i < next_k.len() && next_k[i] == x;
                    if i < prefix_k.len() {
                        assert(prefix_k[i] == x);
                    }
                }
                if holds(prefix_k, x) {
                    let i = choose|i: int| 0 <= i < prefix_k.len() && prefix_k[i] == x;
                    assert(next_k[i] == x);
                }
                if x == tv {
                    assert(next_k[prefix_k.len() as int] == x);
                }
            }
        }
        let same = p < out.len() && out[p].compare(t) == 0;
        if same {
            proof {
                lemma_cmp_tag(before[p as int], tv);
                assert(holds(before, tv));
            }
        } else {
            let copy = t.clone();
            proof {
                if p < out.len() {
                    lemma_cmp_tag(before[p as int], tv);
                }
            }
            out.insert(p, copy);
            proof {
                let after = tag_views(out@);
                assert(after =~= before.insert(p as int, tv));
                assert forall|i: int, j: int| 0 <= i < j < after.len() implies tag_lt(
                    #[trigger] after[i],
                    #[trigger] after[j],
                ) by {
                    if j < p {
                        assert(after[i] == before[i] && after[j] == before[j]);
                    } else if j == p {
                        assert(after[i] == before[i]);
                    } else if i == p {
                        assert(after[j] == before[j - 1]);
                        if j - 1 > p {
                            assert(tag_lt(before[p as int], before[j - 1]));
                            lemma_cmp_tag_trans(tv, before[p as int], before[j - 1]);
                        }
                    } else if i < p {
                        assert(after[i] == before[i] && after[j] == before[j - 1]);
                        assert(tag_lt(before[i], tv));
                        assert(tag_lt(tv, before[p as int]));
                        if j - 1 > p {
                            lemma_cmp_tag_trans(tv, before[p as int], before[j - 1]);
                        }
                        lemma_cmp_tag_trans(before[i], tv, before[j - 1]);
                    } else {
                        assert(after[i] == before[i - 1] && after[j] == before[j - 1]);
                    }
                }
                assert forall|x: TagModel| holds(after, x) <==> holds(before, x) || x == tv by {
                    if holds(after, x) {
                        let i = choose|i: int| 0 <= i < after.len() && after[i] == x;
                        if i < p {
                            assert(before[i] == x);
                        } else if i > p {
                            assert(before[i - 1] == x);
                        }
                    }
                    if holds(before, x) {
                        let i = choose|i: int| 0 <= i < before.len() && before[i] == x;
                        if i < p {
                            assert(after[i] == x);
                        } else {
                            assert(after[i + 1] == x);
                        }
                    }
                    if x == tv {
                        assert(after[p as int] == x);
                    }
                }
            }
        }
        k = k + 1;
    }
    proof {
        assert(tags@.subrange(0, tags@.len() as int) =~= tags@);
    }
    out
}

} // verus!
