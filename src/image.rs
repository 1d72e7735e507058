//! Image references `[registry/][group/]name[:tag]` for Docker Hub, the
//! Microsoft Container Registry and the Google Container Registry.
use vstd::prelude::*;

use crate::error::{Error, ParseError};
use crate::tag::{missing_tag, opt_view, parse_tag, render_tag, zero_tag, Tag, TagModel};
use crate::text::{
    append_chars, append_str, chars_of, find_char, first_index, lemma_first_index_bound, slice_of,
    starts_with_nocase, starts_with_nocase_exec, string_of, trim, trim_chars,
};

verus! {

/// Group, name and tag of an image.
#[derive(Debug, PartialEq, Eq)]
pub struct ImageMetadata {
    pub group: Option<String>,
    pub name: String,
    pub tag: Tag,
}

/// An image reference, by the registry it lives in.
#[derive(Debug, PartialEq, Eq)]
pub enum ContainerImage {
    Dockerhub(ImageMetadata),
    Mcr(ImageMetadata),
    Gcr(ImageMetadata),
}

/// The registry families.
#[derive(Clone, Copy, Debug, PartialEq, Eq, Structural)]
pub enum Registry {
    Dockerhub,
    Mcr,
    Gcr,
}

/// The mathematical content of an image reference.
pub struct ImageModel {
    pub registry: Registry,
    pub group: Option<Seq<char>>,
    pub name: Seq<char>,
    pub tag: TagModel,
}

impl View for ImageMetadata {
    type V = ImageModel;

    /// The metadata alone; the registry is left at Docker Hub.
    open spec fn view(&self) -> ImageModel {
        ImageModel {
            registry: Registry::Dockerhub,
            group: opt_view(self.group),
            name: self.name@,
            tag: self.tag@,
        }
    }
}

impl View for ContainerImage {
    type V = ImageModel;

    open spec fn view(&self) -> ImageModel {
        match self {
            ContainerImage::Dockerhub(m) => m@,
            ContainerImage::Mcr(m) => ImageModel { registry: Registry::Mcr, ..m@ },
            ContainerImage::Gcr(m) => ImageModel { registry: Registry::Gcr, ..m@ },
        }
    }
}

// ---------------------------------------------------------------------------
// Specification
// ---------------------------------------------------------------------------

pub open spec fn mcr_prefix() -> Seq<char> {
    "mcr.microsoft.com/"@
}

pub open spec fn gcr_prefix() -> Seq<char> {
    "gcr.io/"@
}

pub open spec fn slash() -> Seq<char> {
    seq!['/']
}

pub open spec fn colon() -> Seq<char> {
    seq![':']
}

/// `[group/]name[:tag]` read from `s`; `None` when `s` is blank.
///
/// A trailing `:` is ignored. The group is the text before the first `/`.
/// Without `:`, the reference names an earlier build stage: the tag is the
/// stage marker.
pub open spec fn parse_metadata(s: Seq<char>) -> Option<ImageModel> {
    let c = if s.len() > 0 && s.last() == ':' {
        s.drop_last()
    } else {
        s
    };
    if trim(c).len() == 0 {
        None
    } else {
        let ks = first_index(c, '/');
        let group = if ks >= 0 {
            Some(c.subrange(0, ks))
        } else {
            None
        };
        let rest = if ks >= 0 {
            c.subrange(ks + 1, c.len() as int)
        } else {
            c
        };
        let kc = first_index(rest, ':');
        if kc >= 0 {
            Some(
                ImageModel {
                    registry: Registry::Dockerhub,
                    group,
                    name: rest.subrange(0, kc),
                    tag: parse_tag(rest.subrange(kc + 1, rest.len() as int)),
                },
            )
        } else {
            Some(ImageModel { registry: Registry::Dockerhub, group, name: rest, tag: missing_tag() })
        }
    }
}

pub open spec fn with_registry(m: Option<ImageModel>, r: Registry) -> Option<ImageModel> {
    match m {
        Some(x) => Some(ImageModel { registry: r, ..x }),
        None => None,
    }
}

/// The image read from a reference; the registry is told by the prefix
/// `mcr.microsoft.com/` or `gcr.io/` (in any letter case), else Docker Hub.
pub open spec fn parse_image(s: Seq<char>) -> Option<ImageModel> {
    if starts_with_nocase(s, mcr_prefix()) {
        with_registry(
            parse_metadata(s.subrange(mcr_prefix().len() as int, s.len() as int)),
            Registry::Mcr,
        )
    } else if starts_with_nocase(s, gcr_prefix()) {
        with_registry(
            parse_metadata(s.subrange(gcr_prefix().len() as int, s.len() as int)),
            Registry::Gcr,
        )
    } else {
        parse_metadata(s)
    }
}

pub open spec fn registry_prefix(r: Registry) -> Seq<char> {
    match r {
        Registry::Dockerhub => Seq::empty(),
        Registry::Mcr => mcr_prefix(),
        Registry::Gcr => gcr_prefix(),
    }
}

pub open spec fn group_part(g: Option<Seq<char>>) -> Seq<char> {
    match g {
        Some(x) => x + slash(),
        None => Seq::empty(),
    }
}

/// The text of an image reference: registry prefix, `group/`, name, and
/// `:tag` unless the reference names a build stage.
pub open spec fn render_image(m: ImageModel) -> Seq<char> {
    registry_prefix(m.registry) + group_part(m.group) + m.name + (if m.tag.allowed_missing {
        Seq::empty()
    } else {
        colon() + render_tag(m.tag)
    })
}

/// The repository name used for registry queries and the tag cache.
pub open spec fn full_name(m: ImageModel) -> Seq<char> {
    match m.registry {
        Registry::Dockerhub => if m.tag.allowed_missing {
            m.name
        } else {
            match m.group {
                Some(g) => g + slash() + m.name,
                None => "library/"@ + m.name,
            }
        },
        _ => group_part(m.group) + m.name,
    }
}

pub open spec fn group_string(m: ImageModel) -> Seq<char> {
    match m.group {
        Some(g) => g,
        None => Seq::empty(),
    }
}

pub open spec fn query_url(m: ImageModel) -> Seq<char> {
    match m.registry {
        Registry::Dockerhub => "https://hub.docker.com/v2/repositories/"@ + full_name(m)
            + "/tags?page_size=100"@,
        Registry::Mcr => "https://mcr.microsoft.com/api/v1/catalog/"@ + full_name(m)
            + "/tags?reg=mar"@,
        Registry::Gcr => "https://artifactregistry.clients6.google.com/v1/projects/"@ + group_string(m)
            + "/locations/us/repositories/gcr.io/packages/"@ + m.name + "/versions"@,
    }
}

// ---------------------------------------------------------------------------
// Implementation
// ---------------------------------------------------------------------------

fn clone_opt_string(o: &Option<String>) -> (r: Option<String>)
    ensures
        opt_view(r) == opt_view(*o),
{
    match o {
        Some(s) => Some(s.clone()),
        None => None,
    }
}

impl Clone for ImageMetadata {
    fn clone(&self) -> (r: ImageMetadata)
        ensures
            r@ == self@,
    {
        ImageMetadata {
            group: clone_opt_string(&self.group),
            name: self.name.clone(),
            tag: self.tag.clone(),
        }
    }
}

impl Clone for ContainerImage {
    fn clone(&self) -> (r: ContainerImage)
        ensures
            r@ == self@,
    {
        match self {
            ContainerImage::Dockerhub(m) => ContainerImage::Dockerhub(m.clone()),
            ContainerImage::Mcr(m) => ContainerImage::Mcr(m.clone()),
            ContainerImage::Gcr(m) => ContainerImage::Gcr(m.clone()),
        }
    }
}

impl Default for ContainerImage {
    /// A Docker Hub image with no group, an empty name and the zero tag.
    fn default() -> (r: ContainerImage)
        ensures
            r@ == (ImageModel {
                registry: Registry::Dockerhub,
                group: None,
                name: Seq::empty(),
                tag: zero_tag(),
            }),
    {
        ContainerImage::Dockerhub(
            ImageMetadata { group: None, name: String::new(), tag: Tag::default() },
        )
    }
}

fn stage_tag() -> (r: Tag)
    ensures
        r@ == missing_tag(),
{
    Tag {
        major: None,
        minor: None,
        patch: None,
        variant: None,
        allowed_missing: true,
        latest: false,
    }
}

impl ImageMetadata {
    /// Reads `[group/]name[:tag]`; fails only on blank text.
    pub fn parse_chars(s: &Vec<char>) -> (r: Result<ImageMetadata, Error>)
        ensures
            parse_metadata(s@) is None ==> r == Err::<ImageMetadata, Error>(
                Error::Parse(ParseError::EmptyImage),
            ),
            parse_metadata(s@) matches Some(m) ==> r matches Ok(x) && x@ == m,
    {
        let c = if s.len() > 0 && s[s.len() - 1] == ':' {
            slice_of(s, 0, s.len() - 1)
        } else {
            slice_of(s, 0, s.len())
        };
        proof {
            assert(s@.subrange(0, s@.len() as int) =~= s@);
            if s@.len() > 0 {
                assert(s@.subrange(0, s@.len() - 1) =~= s@.drop_last());
            }
        }
        let t = trim_chars(&c);
        if t.len() == 0 {
            return Err(Error::Parse(ParseError::EmptyImage));
        }
        proof {
            lemma_first_index_bound(c@, '/');
            lemma_first_index_bound(c@, ':');
        }
        let (group, rest) = match find_char(&c, '/') {
            Some(ks) => (Some(string_of(&slice_of(&c, 0, ks))), slice_of(&c, ks + 1, c.len())),
            None => (None, slice_of(&c, 0, c.len())),
        };
        proof {
            assert(c@.subrange(0, c@.len() as int) =~= c@);
            lemma_first_index_bound(rest@, ':');
        }
        match find_char(&rest, ':') {
            Some(kc) => {
                let name = slice_of(&rest, 0, kc);
                let tag_text = slice_of(&rest, kc + 1, rest.len());
                let tag_str = string_of(&tag_text);
                Ok(ImageMetadata { group, name: string_of(&name), tag: Tag::parse(tag_str.as_str()) })
            },
            None => Ok(ImageMetadata { group, name: string_of(&rest), tag: stage_tag() }),
        }
    }
}

impl ContainerImage {
    fn metadata(&self) -> (r: &ImageMetadata)
        ensures
            r@.group == self@.group,
            r@.name == self@.name,
            r@.tag == self@.tag,
    {
        match self {
            ContainerImage::Dockerhub(m) => m,
            ContainerImage::Mcr(m) => m,
            ContainerImage::Gcr(m) => m,
        }
    }

    /// Reads an image reference; fails only when the reference is blank.
    pub fn parse(s: &str) -> (r: Result<ContainerImage, Error>)
        ensures
            parse_image(s@) is None ==> r == Err::<ContainerImage, Error>(
                Error::Parse(ParseError::EmptyImage),
            ),
            parse_image(s@) matches Some(m) ==> r matches Ok(x) && x@ == m,
    {
        let v = chars_of(s);
        Self::parse_chars(&v)
    }

    pub fn parse_chars(v: &Vec<char>) -> (r: Result<ContainerImage, Error>)
        ensures
            parse_image(v@) is None ==> r == Err::<ContainerImage, Error>(
                Error::Parse(ParseError::EmptyImage),
            ),
            parse_image(v@) matches Some(m) ==> r matches Ok(x) && x@ == m,
    {
        let mcr = chars_of("mcr.microsoft.com/");
        let gcr = chars_of("gcr.io/");
        if starts_with_nocase_exec(v, "mcr.microsoft.com/") {
            let rest = slice_of(v, mcr.len(), v.len());
            match ImageMetadata::parse_chars(&rest) {
                Ok(m) => Ok(ContainerImage::Mcr(m)),
                Err(e) => Err(e),
            }
        } else if starts_with_nocase_exec(v, "gcr.io/") {
            let rest = slice_of(v, gcr.len(), v.len());
            match ImageMetadata::parse_chars(&rest) {
                Ok(m) => Ok(ContainerImage::Gcr(m)),
                Err(e) => Err(e),
            }
        } else {
            match ImageMetadata::parse_chars(v) {
                Ok(m) => Ok(ContainerImage::Dockerhub(m)),
                Err(e) => Err(e),
            }
        }
    }

    pub fn registry(&self) -> (r: Registry)
        ensures
            r == self@.registry,
    {
        match self {
            ContainerImage::Dockerhub(_) => Registry::Dockerhub,
            ContainerImage::Mcr(_) => Registry::Mcr,
            ContainerImage::Gcr(_) => Registry::Gcr,
        }
    }

    pub fn is_dockerhub(&self) -> (r: bool)
        ensures
            r == (self@.registry == Registry::Dockerhub),
    {
        match self {
            ContainerImage::Dockerhub(_) => true,
            _ => false,
        }
    }

    pub fn is_mcr(&self) -> (r: bool)
        ensures
            r == (self@.registry == Registry::Mcr),
    {
        match self {
            ContainerImage::Mcr(_) => true,
            _ => false,
        }
    }

    pub fn is_gcr(&self) -> (r: bool)
        ensures
            r == (self@.registry == Registry::Gcr),
    {
        match self {
            ContainerImage::Gcr(_) => true,
            _ => false,
        }
    }

    /// The group, such as `library` or `dotnet`, when one was written.
    pub fn get_group(&self) -> (r: Option<String>)
        ensures
            opt_view(r) == self@.group,
    {
        clone_opt_string(&self.metadata().group)
    }

    /// The group, or the empty string when none was written.
    pub fn get_group_string(&self) -> (r: String)
        ensures
            r@ == group_string(self@),
    {
        match &self.metadata().group {
            Some(g) => g.clone(),
            None => String::new(),
        }
    }

    /// The name, such as `node` or `aspnet`.
    pub fn get_name(&self) -> (r: &String)
        ensures
            r@ == self@.name,
    {
        &self.metadata().name
    }

    pub fn get_tag(&self) -> (r: &Tag)
        ensures
            r@ == self@.tag,
    {
        &self.metadata().tag
    }

    /// The tag is the reserved `latest`.
    pub fn is_latest(&self) -> (r: bool)
        ensures
            r == self@.tag.latest,
    {
        self.metadata().tag.latest
    }

    /// Every part is empty: no group, an empty name and the zero tag.
    pub fn is_empty(&self) -> (r: bool)
        ensures
            r == (self@.group is None && self@.name.len() == 0 && self@.tag == zero_tag()),
    {
        let m = self.metadata();
        let t = &m.tag;
        m.group.is_none() && m.name.as_str().is_empty() && t.major.is_none() && t.minor.is_none()
            && t.patch.is_none() && t.variant.is_none() && !t.allowed_missing && !t.latest
    }

    /// Replaces the tag, keeping registry, group and name.
    pub fn set_tag(&mut self, tag: &Tag)
        ensures
            final(self)@ == (ImageModel { tag: tag@, ..old(self)@ }),
    {
        match self {
            ContainerImage::Dockerhub(m) => {
                m.tag = tag.clone();
            },
            ContainerImage::Mcr(m) => {
                m.tag = tag.clone();
            },
            ContainerImage::Gcr(m) => {
                m.tag = tag.clone();
            },
        }
    }

    /// Replaces the tag of the image.
    pub fn update_image_tag(&mut self, new_tag: &Tag)
        ensures
            final(self)@ == (ImageModel { tag: new_tag@, ..old(self)@ }),
    {
        self.set_tag(new_tag);
    }

    fn push_group(&self, out: &mut Vec<char>)
        ensures
            final(out)@ == old(out)@ + group_part(self@.group),
    {
        match &self.metadata().group {
            Some(g) => {
                let gc = chars_of(g.as_str());
                append_chars(out, &gc);
                out.push('/');
                proof {
                    assert(final(out)@ =~= old(out)@ + group_part(self@.group));
                }
            },
            None => {
                proof {
                    assert(final(out)@ =~= old(out)@ + group_part(self@.group));
                }
            },
        }
    }

    /// The reference as text: registry prefix, group, name and tag.
    pub fn render_chars(&self) -> (r: Vec<char>)
        ensures
            r@ == render_image(self@),
    {
        let mut out: Vec<char> = Vec::new();
        match self {
            ContainerImage::Dockerhub(_) => {},
            ContainerImage::Mcr(_) => append_str(&mut out, "mcr.microsoft.com/"),
            ContainerImage::Gcr(_) => append_str(&mut out, "gcr.io/"),
        }
        proof {
            assert(out@ =~= registry_prefix(self@.registry));
        }
        self.push_group(&mut out);
        let name = chars_of(self.get_name().as_str());
        append_chars(&mut out, &name);
        let tag = self.get_tag();
        if !tag.allowed_missing {
            out.push(':');
            let tc = tag.render_chars();
            append_chars(&mut out, &tc);
        }
        proof {
            assert(out@ =~= render_image(self@));
        }
        out
    }

    /// The reference as text.
    pub fn to_string(&self) -> (r: String)
        ensures
            r@ == render_image(self@),
    {
        let v = self.render_chars();
        string_of(&v)
    }

    fn full_name_chars(&self) -> (r: Vec<char>)
        ensures
            r@ == full_name(self@),
    {
        let mut out: Vec<char> = Vec::new();
        let name = chars_of(self.get_name().as_str());
        match self {
            ContainerImage::Dockerhub(m) => {
                if m.tag.allowed_missing {
                    append_chars(&mut out, &name);
                } else {
                    match &m.group {
                        Some(g) => {
                            let gc = chars_of(g.as_str());
                            append_chars(&mut out, &gc);
                            out.push('/');
                        },
                        None => {
                            append_str(&mut out, "library/");
                        },
                    }
                    append_chars(&mut out, &name);
                }
            },
            _ => {
                self.push_group(&mut out);
                append_chars(&mut out, &name);
            },
        }
        proof {
            assert(out@ =~= full_name(self@));
        }
        out
    }

    /// The repository name: `group/name`, with `library` standing in for a
    /// missing group on Docker Hub; a stage reference gives its bare name.
    pub fn get_full_name(&self) -> (r: String)
        ensures
            r@ == full_name(self@),
    {
        let v = self.full_name_chars();
        string_of(&v)
    }

    /// `group/name:tag`, with an empty group when none was written.
    pub fn get_full_tagged_name(&self) -> (r: String)
        ensures
            r@ == group_string(self@) + slash() + self@.name + colon() + render_tag(self@.tag),
    {
        let mut out: Vec<char> = Vec::new();
        let g = self.get_group_string();
        append_str(&mut out, g.as_str());
        out.push('/');
        append_str(&mut out, self.get_name().as_str());
        out.push(':');
        let tc = self.get_tag().render_chars();
        append_chars(&mut out, &tc);
        proof {
            assert(out@ =~= group_string(self@) + slash() + self@.name + colon() + render_tag(
                self@.tag,
            ));
        }
        string_of(&out)
    }

    /// `name:tag`.
    pub fn get_tagged_name(&self) -> (r: String)
        ensures
            r@ == self@.name + colon() + render_tag(self@.tag),
    {
        let mut out: Vec<char> = Vec::new();
        append_str(&mut out, self.get_name().as_str());
        out.push(':');
        let tc = self.get_tag().render_chars();
        append_chars(&mut out, &tc);
        proof {
            assert(out@ =~= self@.name + colon() + render_tag(self@.tag));
        }
        string_of(&out)
    }

    /// The address that lists the tags of the repository.
    pub fn get_query_url(&self) -> (r: String)
        ensures
            r@ == query_url(self@),
    {
        let mut out: Vec<char> = Vec::new();
        match self {
            ContainerImage::Dockerhub(_) => {
                append_str(&mut out, "https://hub.docker.com/v2/repositories/");
                let f = self.full_name_chars();
                append_chars(&mut out, &f);
                append_str(&mut out, "/tags?page_size=100");
            },
            ContainerImage::Mcr(_) => {
                append_str(&mut out, "https://mcr.microsoft.com/api/v1/catalog/");
                let f = self.full_name_chars();
                append_chars(&mut out, &f);
                append_str(&mut out, "/tags?reg=mar");
            },
            ContainerImage::Gcr(_) => {
                append_str(&mut out, "https://artifactregistry.clients6.google.com/v1/projects/");
                let g = self.get_group_string();
                append_str(&mut out, g.as_str());
                append_str(&mut out, "/locations/us/repositories/gcr.io/packages/");
                append_str(&mut out, self.get_name().as_str());
                append_str(&mut out, "/versions");
            },
        }
        proof {
            assert(out@ =~= query_url(self@));
        }
        string_of(&out)
    }

    /// The two references are equal in registry, group, name and tag.
    pub fn same_as(&self, other: &ContainerImage) -> (r: bool)
        ensures
            r == (self@ == other@),
    {
        let a = self.metadata();
        let b = other.metadata();
        let same_group = match (&a.group, &b.group) {
            (None, None) => true,
            (Some(x), Some(y)) => x.eq(y),
            _ => false,
        };
        let same = self.registry() == other.registry() && same_group && a.name.eq(&b.name)
            && a.tag.compare(&b.tag) == 0;
        proof {
            crate::tag_order::lemma_cmp_tag(a.tag@, b.tag@);
        }
        same
    }
}

impl core::str::FromStr for ContainerImage {
    type Err = Error;

    fn from_str(s: &str) -> (r: Result<ContainerImage, Error>)
        ensures
            parse_image(s@) is None ==> r == Err::<ContainerImage, Error>(
                Error::Parse(ParseError::EmptyImage),
            ),
            parse_image(s@) matches Some(m) ==> r matches Ok(x) && x@ == m,
    {
        ContainerImage::parse(s)
    }
}

} // verus!
