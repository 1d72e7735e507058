//! Planning and applying tag updates to the base images of a Dockerfile.
use vstd::prelude::*;

use crate::dockerfile::{
    all_lines_parse, applied, base_count, base_images, instruction_views, last_update, lines,
    parsed_lines, planned_updates, remote_list, render_instructions, update_views, with_tag,
    DockerInstruction, Dockerfile, DockerfileModel, DockerfileUpdate,
};
use crate::error::{Error, ParseError};
use crate::image::{ContainerImage, ImageModel};
use crate::select::{find_candidate_tag, opt_tag_view, tag_views, Strategy};
use crate::tag::{Tag, TagModel};

verus! {

pub open spec fn remote_views(v: Seq<Vec<Tag>>) -> Seq<Seq<TagModel>> {
    v.map_values(|l: Vec<Tag>| tag_views(l@))
}

pub open spec fn image_views(v: Seq<ContainerImage>) -> Seq<ImageModel> {
    v.map_values(|m: ContainerImage| m@)
}

fn contains_image(list: &Vec<ContainerImage>, image: &ContainerImage) -> (r: bool)
    ensures
        r == image_views(list@).contains(image@),
{
    let ghost lv = image_views(list@);
    let mut i: usize = 0;
    while i < list.len()
        invariant
            i <= list.len(),
            lv == image_views(list@),
            forall|j: int| 0 <= j < i ==> lv[j] != image@,
        decreases list.len() - i,
    {
        if list[i].same_as(image) {
            proof {
                assert(lv[i as int] == image@);
            }
            return true;
        }
        i = i + 1;
    }
    false
}

impl Clone for DockerInstruction {
    fn clone(&self) -> (r: DockerInstruction)
        ensures
            r@ == self@,
    {
        match self {
            DockerInstruction::From(image, alias) => {
                let a = match alias {
                    Some(x) => Some(x.clone()),
                    None => None,
                };
                DockerInstruction::From(image.clone(), a)
            },
            DockerInstruction::Raw(s) => DockerInstruction::Raw(s.clone()),
        }
    }
}

impl Clone for Dockerfile {
    fn clone(&self) -> (r: Dockerfile)
        ensures
            r@ == self@,
    {
        let mut instructions: Vec<DockerInstruction> = Vec::new();
        let mut i: usize = 0;
        while i < self.instructions.len()
            invariant
                i <= self.instructions.len(),
                instruction_views(instructions@) == instruction_views(self.instructions@).subrange(
                    0,
                    i as int,
                ),
            decreases self.instructions.len() - i,
        {
            let ghost before = instruction_views(instructions@);
            let c = self.instructions[i].clone();
            instructions.push(c);
            proof {
                assert(instruction_views(instructions@) =~= before.push(c@));
            }
            i = i + 1;
            proof {
                assert(instruction_views(instructions@) =~= instruction_views(
                    self.instructions@,
                ).subrange(0, i as int));
            }
        }
        proof {
            assert(instruction_views(self.instructions@).subrange(0, i as int) =~= instruction_views(
                self.instructions@,
            ));
        }
        let path = match &self.path {
            Some(p) => Some(p.clone()),
            None => None,
        };
        Dockerfile { instructions, path }
    }
}

impl Dockerfile {
    /// Proposes new tags for the base images. `remote_tags[k]` is the tag list
    /// of the `k`-th base image (a missing entry counts as an empty list);
    /// an image equal to one of `ignore_versions` gets no update.
    pub fn generate_image_updates(
        &self,
        strategy: &Strategy,
        remote_tags: &Vec<Vec<Tag>>,
        ignore_versions: &Vec<ContainerImage>,
    ) -> (r: DockerfileUpdate)
        ensures
            r.dockerfile@ == self@,
            update_views(r.updates@) == planned_updates(
                base_images(self@.instructions),
                *strategy,
                remote_views(remote_tags@),
                image_views(ignore_versions@),
            ),
    {
        let bases = self.get_base_images_mut();
        let ghost bv = bases@.map_values(|m: ContainerImage| m@);
        let ghost rv = remote_views(remote_tags@);
        let ghost iv = image_views(ignore_versions@);
        let empty: Vec<Tag> = Vec::new();
        let mut updates: Vec<(usize, Tag)> = Vec::new();
        let mut k: usize = 0;
        proof {
            assert(update_views(updates@) =~= planned_updates(bv.subrange(0, 0), *strategy, rv, iv));
        }
        while k < bases.len()
            invariant
                k <= bases.len(),
                bv == bases@.map_values(|m: ContainerImage| m@),
                rv == remote_views(remote_tags@),
                iv == image_views(ignore_versions@),
                empty@.len() == 0,
                update_views(updates@) == planned_updates(bv.subrange(0, k as int), *strategy, rv, iv),
            decreases bases.len() - k,
        {
            let list = if k < remote_tags.len() {
                &remote_tags[k]
            } else {
                &empty
            };
            proof {
                assert(tag_views(list@) =~= remote_list(rv, k as int));
                let sub = bv.subrange(0, k + 1);
                assert(sub.drop_last() =~= bv.subrange(0, k as int));
                assert(sub[k as int] == bases@[k as int]@);
            }
            let found = find_candidate_tag(bases[k].get_tag(), list, strategy);
            let ghost before = update_views(updates@);
            match found {
                Some(t) => {
                    if !contains_image(ignore_versions, &bases[k]) {
                        updates.push((k, t));
                        proof {
                            assert(update_views(updates@) =~= before.push((k as int, t@)));
                        }
                    }
                },
                None => {},
            }
            k = k + 1;
        }
        proof {
            assert(bv.subrange(0, k as int) =~= bv);
        }
        DockerfileUpdate { dockerfile: self.clone(), updates }
    }

    /// Proposes and applies new tags for all base images, ignoring none.
    pub fn update_images(&mut self, strategy: &Strategy, remote_tags: &Vec<Vec<Tag>>)
        ensures
            final(self)@ == (DockerfileModel {
                instructions: applied(
                    old(self)@.instructions,
                    planned_updates(
                        base_images(old(self)@.instructions),
                        *strategy,
                        remote_views(remote_tags@),
                        Seq::empty(),
                    ),
                ),
                ..old(self)@
            }),
    {
        let none: Vec<ContainerImage> = Vec::new();
        proof {
            assert(image_views(none@) =~= Seq::<ImageModel>::empty());
        }
        let plan = self.generate_image_updates(strategy, remote_tags, &none);
        *self = plan.apply();
    }
}

fn last_update_for(updates: &Vec<(usize, Tag)>, k: usize) -> (r: Option<Tag>)
    ensures
        opt_tag_view(r) == last_update(update_views(updates@), k as int),
{
    let ghost uv = update_views(updates@);
    let mut found: Option<usize> = None;
    let mut j: usize = 0;
    proof {
        assert(uv.subrange(0, 0) =~= Seq::<(int, TagModel)>::empty());
    }
    while j < updates.len()
        invariant
            j <= updates.len(),
            uv == update_views(updates@),
            found is None ==> last_update(uv.subrange(0, j as int), k as int) is None,
            found matches Some(f) ==> f < j && last_update(uv.subrange(0, j as int), k as int) == Some(
                updates@[f as int].1@,
            ),
        decreases updates.len() - j,
    {
        proof {
            assert(uv.subrange(0, j + 1).drop_last() =~= uv.subrange(0, j as int));
            assert(uv.subrange(0, j + 1).last() == uv[j as int]);
        }
        if updates[j].0 == k {
            found = Some(j);
        }
        j = j + 1;
    }
    proof {
        assert(uv.subrange(0, j as int) =~= uv);
    }
    match found {
        Some(f) => Some(updates[f].1.clone()),
        None => None,
    }
}

fn retagged(instr: &DockerInstruction, tag: &Tag) -> (r: DockerInstruction)
    ensures
        r@ == with_tag(instr@, tag@),
{
    match instr {
        DockerInstruction::From(image, alias) => {
            let mut img = image.clone();
            img.set_tag(tag);
            let a = match alias {
                Some(x) => Some(x.clone()),
                None => None,
            };
            DockerInstruction::From(img, a)
        },
        DockerInstruction::Raw(s) => DockerInstruction::Raw(s.clone()),
    }
}

impl DockerfileUpdate {
    /// A copy of the Dockerfile in which each base image carries the tag of
    /// the last update naming its position.
    pub fn apply(&self) -> (r: Dockerfile)
        ensures
            r@ == (DockerfileModel {
                instructions: applied(self.dockerfile@.instructions, update_views(self.updates@)),
                ..self.dockerfile@
            }),
    {
        let ghost is = self.dockerfile@.instructions;
        let ghost uv = update_views(self.updates@);
        let src = &self.dockerfile.instructions;
        let mut out: Vec<DockerInstruction> = Vec::new();
        let mut k: usize = 0;
        let mut i: usize = 0;
        while i < src.len()
            invariant
                i <= src.len(),
                is == instruction_views(src@),
                uv == update_views(self.updates@),
                src == &self.dockerfile.instructions,
                k == base_count(is, i as int),
                k <= i,
                instruction_views(out@) == applied(is, uv).subrange(0, i as int),
            decreases src.len() - i,
        {
            let ghost before = instruction_views(out@);
            let instr = &src[i];
            proof {
                assert(is[i as int] == instr@);
            }
            let ghost a = applied(is, uv);
            if instr.has_valid_image() {
                match last_update_for(&self.updates, k) {
                    Some(t) => {
                        let n = retagged(instr, &t);
                        proof {
                            assert(n@ == a[i as int]);
                        }
                        out.push(n);
                    },
                    None => {
                        let n = instr.clone();
                        proof {
                            assert(n@ == a[i as int]);
                        }
                        out.push(n);
                    },
                }
                k = k + 1;
            } else {
                let n = instr.clone();
                proof {
                    assert(n@ == a[i as int]);
                }
                out.push(n);
            }
            proof {
                assert(instruction_views(out@) =~= before.push(a[i as int]));
                assert(instruction_views(out@) =~= a.subrange(0, i + 1));
            }
            i = i + 1;
        }
        proof {
            assert(applied(is, uv).subrange(0, i as int) =~= applied(is, uv));
        }
        let path = match &self.dockerfile.path {
            Some(p) => Some(p.clone()),
            None => None,
        };
        Dockerfile { instructions: out, path }
    }
}

/// Rewrites a Dockerfile's content: every base image takes the tag that
/// `strategy` chooses from its remote list (`remote_tags[k]` for the `k`-th
/// base image); all other lines stay as they were. Fails as
/// [`Dockerfile::parse`] does.
pub fn handle_file(content: &str, strategy: &Strategy, remote_tags: &Vec<Vec<Tag>>) -> (r: Result<
    String,
    Error,
>)
    ensures
        content@.len() == 0 ==> r == Err::<String, Error>(Error::Parse(ParseError::EmptyFile)),
        content@.len() > 0 && !all_lines_parse(lines(content@)) ==> r == Err::<String, Error>(
            Error::Parse(ParseError::EmptyImage),
        ),
        content@.len() > 0 && all_lines_parse(lines(content@)) ==> (r matches Ok(s) && s@
            == render_instructions(
            applied(
                parsed_lines(lines(content@)),
                planned_updates(
                    base_images(parsed_lines(lines(content@))),
                    *strategy,
                    remote_views(remote_tags@),
                    Seq::empty(),
                ),
            ),
        )),
{
    match Dockerfile::parse(content) {
        Ok(mut dockerfile) => {
            dockerfile.update_images(strategy, remote_tags);
            Ok(dockerfile.to_string())
        },
        Err(e) => Err(e),
    }
}

} // verus!
