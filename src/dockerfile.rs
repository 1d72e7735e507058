//! Dockerfiles as a list of lines, of which only `FROM` lines are understood,
//! and the updates of their image tags.
use vstd::prelude::*;

use crate::error::{Error, ParseError};
use crate::image::{parse_image, render_image, ContainerImage, ImageModel};
use crate::select::{best_candidate, Strategy};
use crate::tag::{opt_view, Tag, TagModel};
use crate::text::{
    append_chars, append_str, ascii_lower, chars_of, lower_char, slice_of, split_by, split_chars,
    starts_with_nocase, starts_with_nocase_exec, string_of, trim, trim_chars, trim_start,
    trim_start_chars, views,
};

verus! {

// ---------------------------------------------------------------------------
// Types
// ---------------------------------------------------------------------------

/// One line of a Dockerfile.
#[derive(Debug, PartialEq, Eq)]
pub enum DockerInstruction {
    /// A `FROM` line: the base image and the stage alias after `AS`.
    From(ContainerImage, Option<String>),
    /// Any other line, kept exactly as written.
    Raw(String),
}

/// A Dockerfile: its lines, and the path it was read from, if any.
#[derive(Debug, PartialEq, Eq)]
pub struct Dockerfile {
    pub instructions: Vec<DockerInstruction>,
    pub path: Option<String>,
}

/// The proposed new tags of a Dockerfile's base images, by the position of
/// the image among the base images.
#[derive(Debug, PartialEq, Eq)]
pub struct DockerfileUpdate {
    pub dockerfile: Dockerfile,
    pub updates: Vec<(usize, Tag)>,
}

pub enum InstructionModel {
    From(ImageModel, Option<Seq<char>>),
    Raw(Seq<char>),
}

pub struct DockerfileModel {
    pub instructions: Seq<InstructionModel>,
    pub path: Option<Seq<char>>,
}

impl View for DockerInstruction {
    type V = InstructionModel;

    open spec fn view(&self) -> InstructionModel {
        match self {
            DockerInstruction::From(image, alias) => InstructionModel::From(image@, opt_view(*alias)),
            DockerInstruction::Raw(s) => InstructionModel::Raw(s@),
        }
    }
}

pub open spec fn instruction_views(v: Seq<DockerInstruction>) -> Seq<InstructionModel> {
    v.map_values(|i: DockerInstruction| i@)
}

impl View for Dockerfile {
    type V = DockerfileModel;

    open spec fn view(&self) -> DockerfileModel {
        DockerfileModel {
            instructions: instruction_views(self.instructions@),
            path: opt_view(self.path),
        }
    }
}

pub open spec fn update_views(v: Seq<(usize, Tag)>) -> Seq<(int, TagModel)> {
    v.map_values(|u: (usize, Tag)| (u.0 as int, u.1@))
}

// ---------------------------------------------------------------------------
// FROM lines
// ---------------------------------------------------------------------------

/// `s` with every pair of spaces, from the left, replaced by one space
/// (`str::replace("  ", " ")`).
pub open spec fn collapse_spaces(s: Seq<char>) -> Seq<char>
    decreases s.len(),
{
    if s.len() == 0 {
        s
    } else if s.len() >= 2 && s[0] == ' ' && s[1] == ' ' {
        seq![' '] + collapse_spaces(s.subrange(2, s.len() as int))
    } else {
        seq![s[0]] + collapse_spaces(s.drop_first())
    }
}

/// ` as`, in any letter case, starts at `i`.
pub open spec fn as_at(s: Seq<char>, i: int) -> bool {
    0 <= i && i + 3 <= s.len() && s[i] == ' ' && ascii_lower(s[i + 1]) == 'a' && ascii_lower(
        s[i + 2],
    ) == 's'
}

/// The first position at or after `i` where ` as` starts, or -1.
pub open spec fn as_index_from(s: Seq<char>, i: int) -> int
    decreases s.len() - i,
{
    if i < 0 || i + 3 > s.len() {
        -1
    } else if as_at(s, i) {
        i
    } else {
        as_index_from(s, i + 1)
    }
}

/// The text of a `FROM` line after its keyword, trimmed.
pub open spec fn from_argument(line: Seq<char>) -> Seq<char> {
    let t = collapse_spaces(trim_start(line));
    trim(
        if starts_with_nocase(t, "from"@) {
            t.subrange("from"@.len() as int, t.len() as int)
        } else {
            t
        },
    )
}

/// The image text and the stage alias of a `FROM` line.
pub open spec fn from_parts(line: Seq<char>) -> (Seq<char>, Option<Seq<char>>) {
    let w = from_argument(line);
    let k = as_index_from(w, 0);
    if k < 0 {
        (trim(w), None)
    } else {
        (trim(w.subrange(0, k)), Some(trim(w.subrange(k + 3, w.len() as int))))
    }
}

/// The image and stage alias of a `FROM` line; `None` when the image is blank.
pub open spec fn parse_from(line: Seq<char>) -> Option<(ImageModel, Option<Seq<char>>)> {
    let (image, alias) = from_parts(line);
    match parse_image(image) {
        Some(m) => Some((m, alias)),
        None => None,
    }
}

/// After leading whitespace, the line starts with `FROM ` in any letter case.
pub open spec fn is_from_line(line: Seq<char>) -> bool {
    starts_with_nocase(trim_start(line), "from "@)
}

/// One line read as an instruction; `None` when a `FROM` line names no image.
pub open spec fn parse_instruction_spec(line: Seq<char>) -> Option<InstructionModel> {
    if is_from_line(line) {
        match parse_from(line) {
            Some((m, a)) => Some(InstructionModel::From(m, a)),
            None => None,
        }
    } else {
        Some(InstructionModel::Raw(line))
    }
}

pub open spec fn render_instruction(i: InstructionModel) -> Seq<char> {
    match i {
        InstructionModel::From(m, Some(a)) => "FROM "@ + render_image(m) + " AS "@ + a + seq!['\n'],
        InstructionModel::From(m, None) => "FROM "@ + render_image(m) + seq!['\n'],
        InstructionModel::Raw(s) => s + seq!['\n'],
    }
}

// ---------------------------------------------------------------------------
// Whole files
// ---------------------------------------------------------------------------

pub open spec fn strip_cr(p: Seq<char>) -> Seq<char> {
    if p.len() > 0 && p.last() == '\r' {
        p.drop_last()
    } else {
        p
    }
}

/// The lines of `s` as `str::lines` gives them: split at `\n`, a `\r`
/// before the `\n` dropped, and no empty line after a final `\n`.
pub open spec fn lines(s: Seq<char>) -> Seq<Seq<char>> {
    let ps = split_by(s, '\n');
    let n = if ps.last().len() == 0 {
        ps.len() - 1
    } else {
        ps.len() as int
    };
    Seq::new(
        n as nat,
        |i: int|
            if i + 1 < ps.len() {
                strip_cr(ps[i])
            } else {
                ps[i]
            },
    )
}

pub proof fn lemma_line_at(s: Seq<char>, i: int)
    requires
        0 <= i < lines(s).len(),
    ensures
        lines(s)[i] == (if i + 1 < split_by(s, '\n').len() {
            strip_cr(split_by(s, '\n')[i])
        } else {
            split_by(s, '\n')[i]
        }),
        i < split_by(s, '\n').len(),
{
    crate::text::lemma_split_by_nonempty(s, '\n');
}

pub open spec fn all_lines_parse(ls: Seq<Seq<char>>) -> bool {
    forall|i: int| 0 <= i < ls.len() ==> (#[trigger] parse_instruction_spec(ls[i])) is Some
}

pub open spec fn parsed_lines(ls: Seq<Seq<char>>) -> Seq<InstructionModel> {
    Seq::new(ls.len(), |i: int| parse_instruction_spec(ls[i])->0)
}

/// The text of a list of instructions, each followed by a newline.
pub open spec fn render_instructions(is: Seq<InstructionModel>) -> Seq<char>
    decreases is.len(),
{
    if is.len() == 0 {
        Seq::empty()
    } else {
        render_instructions(is.drop_last()) + render_instruction(is.last())
    }
}

/// A `FROM` line whose image is a real image, not a stage alias.
pub open spec fn is_base(i: InstructionModel) -> bool {
    match i {
        InstructionModel::From(m, _) => !m.tag.allowed_missing,
        _ => false,
    }
}

/// The number of base images among the first `n` instructions.
pub open spec fn base_count(is: Seq<InstructionModel>, n: int) -> nat
    decreases n,
{
    if n <= 0 {
        0
    } else {
        base_count(is, n - 1) + if is_base(is[n - 1]) {
            1nat
        } else {
            0nat
        }
    }
}

pub open spec fn image_of(i: InstructionModel) -> ImageModel {
    match i {
        InstructionModel::From(m, _) => m,
        InstructionModel::Raw(_) => arbitrary(),
    }
}

/// The base images, in file order.
pub open spec fn base_images(is: Seq<InstructionModel>) -> Seq<ImageModel>
    decreases is.len(),
{
    if is.len() == 0 {
        Seq::empty()
    } else if is_base(is.last()) {
        base_images(is.drop_last()).push(image_of(is.last()))
    } else {
        base_images(is.drop_last())
    }
}

pub open spec fn remote_list(remote: Seq<Seq<TagModel>>, k: int) -> Seq<TagModel> {
    if 0 <= k < remote.len() {
        remote[k]
    } else {
        Seq::empty()
    }
}

/// The updates proposed for `bases`: for each base image, in order, the tag
/// chosen from its remote list, unless none qualifies or the image is
/// ignored.
pub open spec fn planned_updates(
    bases: Seq<ImageModel>,
    s: Strategy,
    remote: Seq<Seq<TagModel>>,
    ignore: Seq<ImageModel>,
) -> Seq<(int, TagModel)>
    decreases bases.len(),
{
    if bases.len() == 0 {
        Seq::empty()
    } else {
        let k = bases.len() - 1;
        let p = planned_updates(bases.drop_last(), s, remote, ignore);
        match best_candidate(bases[k].tag, remote_list(remote, k), s) {
            Some(t) => if ignore.contains(bases[k]) {
                p
            } else {
                p.push((k, t))
            },
            None => p,
        }
    }
}

/// The tag of the last update for the `k`-th base image, if any.
pub open spec fn last_update(us: Seq<(int, TagModel)>, k: int) -> Option<TagModel>
    decreases us.len(),
{
    if us.len() == 0 {
        None
    } else if us.last().0 == k {
        Some(us.last().1)
    } else {
        last_update(us.drop_last(), k)
    }
}

pub open spec fn with_tag(i: InstructionModel, t: TagModel) -> InstructionModel {
    match i {
        InstructionModel::From(m, a) => InstructionModel::From(ImageModel { tag: t, ..m }, a),
        InstructionModel::Raw(s) => InstructionModel::Raw(s),
    }
}

/// The instructions with the updates applied: each base image takes the tag
/// of the last update naming its position.
pub open spec fn applied(is: Seq<InstructionModel>, us: Seq<(int, TagModel)>) -> Seq<InstructionModel> {
    Seq::new(
        is.len(),
        |i: int|
            if is_base(is[i]) && last_update(us, base_count(is, i) as int) is Some {
                with_tag(is[i], last_update(us, base_count(is, i) as int)->0)
            } else {
                is[i]
            },
    )
}

// ---------------------------------------------------------------------------
// Implementation: FROM lines
// ---------------------------------------------------------------------------

fn collapse_spaces_chars(v: &Vec<char>) -> (r: Vec<char>)
    ensures
        r@ == collapse_spaces(v@),
{
    let mut out: Vec<char> = Vec::new();
    let mut i: usize = 0;
    proof {
        assert(v@.subrange(0, v@.len() as int) =~= v@);
        assert(out@ + collapse_spaces(v@) =~= collapse_spaces(v@));
    }
    while i < v.len()
        invariant
            i <= v.len(),
            out@ + collapse_spaces(v@.subrange(i as int, v@.len() as int)) == collapse_spaces(v@),
        decreases v.len() - i,
    {
        let ghost rest = v@.subrange(i as int, v@.len() as int);
        if i + 1 < v.len() && v[i] == ' ' && v[i + 1] == ' ' {
            out.push(' ');
            proof {
                assert(rest.subrange(2, rest.len() as int) =~= v@.subrange(i + 2, v@.len() as int));
                assert(rest[0] == ' ' && rest[1] == ' ');
                assert(out@ + collapse_spaces(v@.subrange(i + 2, v@.len() as int)) =~= old_out_plus(
                    out@,
                    rest,
                ));
            }
            i = i + 2;
        } else {
            out.push(v[i]);
            proof {
                assert(rest.drop_first() =~= v@.subrange(i + 1, v@.len() as int));
                assert(rest[0] == v@[i as int]);
                assert(!(rest.len() >= 2 && rest[0] == ' ' && rest[1] == ' '));
                assert(out@ + collapse_spaces(v@.subrange(i + 1, v@.len() as int)) =~= old_out_plus(
                    out@,
                    rest,
                ));
            }
            i = i + 1;
        }
    }
    proof {
        assert(v@.subrange(i as int, v@.len() as int) =~= Seq::<char>::empty());
        assert(out@ + Seq::<char>::empty() =~= out@);
    }
    out
}

/// The collapse of `rest` written after `out` without its last character,
/// which is the first character that collapsing `rest` writes.
spec fn old_out_plus(out: Seq<char>, rest: Seq<char>) -> Seq<char> {
    out.drop_last() + collapse_spaces(rest)
}

fn as_index(w: &Vec<char>) -> (r: Option<usize>)
    ensures
        r is None <==> as_index_from(w@, 0) < 0,
        r matches Some(k) ==> k == as_index_from(w@, 0) && k + 3 <= w.len(),
{
    let mut i: usize = 0;
    while i < w.len() && w.len() - i >= 3
        invariant
            i <= w.len(),
            as_index_from(w@, 0) == as_index_from(w@, i as int),
        decreases w.len() - i,
    {
        if w[i] == ' ' && lower_char(w[i + 1]) == 'a' && lower_char(w[i + 2]) == 's' {
            return Some(i);
        }
        i = i + 1;
    }
    None
}

impl ContainerImage {
    /// Reads the image and the stage alias of a `FROM` line.
    ///
    /// The keyword is dropped, then the first ` as` (in any letter case)
    /// separates the image from the alias. Fails when the image is blank.
    pub fn parse_from_line(line: &str) -> (r: Result<(ContainerImage, Option<String>), Error>)
        ensures
            parse_from(line@) is None ==> r == Err::<(ContainerImage, Option<String>), Error>(
                Error::Parse(ParseError::EmptyImage),
            ),
            parse_from(line@) matches Some((m, a)) ==> r matches Ok((x, y)) && x@ == m && opt_view(y)
                == a,
    {
        let v = chars_of(line);
        let ts = trim_start_chars(&v);
        let t = collapse_spaces_chars(&ts);
        let kw = chars_of("from");
        let w0 = if starts_with_nocase_exec(&t, "from") {
            slice_of(&t, kw.len(), t.len())
        } else {
            slice_of(&t, 0, t.len())
        };
        proof {
            assert(t@.subrange(0, t@.len() as int) =~= t@);
        }
        let w = trim_chars(&w0);
        let (image_text, alias) = match as_index(&w) {
            None => (trim_chars(&w), None),
            Some(k) => {
                let left = slice_of(&w, 0, k);
                let right = slice_of(&w, k + 3, w.len());
                let a = trim_chars(&right);
                (trim_chars(&left), Some(string_of(&a)))
            },
        };
        match ContainerImage::parse_chars(&image_text) {
            Ok(m) => Ok((m, alias)),
            Err(e) => Err(e),
        }
    }

    fn from_line_text(&self, alias: &Option<String>) -> (r: Vec<char>)
        ensures
            r@ == render_instruction(InstructionModel::From(self@, opt_view(*alias))),
    {
        let mut out: Vec<char> = Vec::new();
        append_str(&mut out, "FROM ");
        let img = self.render_chars();
        append_chars(&mut out, &img);
        match alias {
            Some(a) => {
                append_str(&mut out, " AS ");
                append_str(&mut out, a.as_str());
            },
            None => {},
        }
        out.push('\n');
        proof {
            assert(out@ =~= render_instruction(InstructionModel::From(self@, opt_view(*alias))));
        }
        out
    }
}

impl DockerInstruction {
    /// Reads one line. A line that starts (after whitespace) with `FROM ` in
    /// any letter case is a `FROM` instruction and fails when it names no
    /// image; any other line is kept as it is.
    pub fn parse_instruction(line: &str) -> (r: Result<DockerInstruction, Error>)
        ensures
            parse_instruction_spec(line@) is None ==> r == Err::<DockerInstruction, Error>(
                Error::Parse(ParseError::EmptyImage),
            ),
            parse_instruction_spec(line@) matches Some(i) ==> r matches Ok(x) && x@ == i,
    {
        let v = chars_of(line);
        let ts = trim_start_chars(&v);
        if starts_with_nocase_exec(&ts, "from ") {
            match ContainerImage::parse_from_line(line) {
                Ok((image, alias)) => Ok(DockerInstruction::From(image, alias)),
                Err(e) => Err(e),
            }
        } else {
            Ok(DockerInstruction::Raw(line.to_string()))
        }
    }

    /// The line as text, with its newline.
    pub fn render_chars(&self) -> (r: Vec<char>)
        ensures
            r@ == render_instruction(self@),
    {
        match self {
            DockerInstruction::From(image, alias) => image.from_line_text(alias),
            DockerInstruction::Raw(s) => {
                let mut out = chars_of(s.as_str());
                out.push('\n');
                proof {
                    assert(out@ =~= render_instruction(self@));
                }
                out
            },
        }
    }

    /// A `FROM` line naming a real image, not an earlier stage.
    pub fn has_valid_image(&self) -> (r: bool)
        ensures
            r == is_base(self@),
    {
        match self {
            DockerInstruction::From(image, _) => !image.get_tag().allowed_missing,
            DockerInstruction::Raw(_) => false,
        }
    }

    /// The full image reference of a `FROM` line, as text.
    pub fn get_full_image_name(&self) -> (r: Option<String>)
        ensures
            r is Some <==> self@ is From,
            r matches Some(x) ==> x@ == render_image(image_of(self@)),
    {
        match self {
            DockerInstruction::From(image, _) => Some(image.to_string()),
            DockerInstruction::Raw(_) => None,
        }
    }

    /// `name:tag` of the image of a `FROM` line.
    pub fn get_only_image_name(&self) -> (r: Option<String>)
        ensures
            r is Some <==> self@ is From,
            r matches Some(x) ==> x@ == image_of(self@).name + seq![':'] + crate::tag::render_tag(
                image_of(self@).tag,
            ),
    {
        match self {
            DockerInstruction::From(image, _) => Some(image.get_tagged_name()),
            DockerInstruction::Raw(_) => None,
        }
    }

    /// The tag of the image of a `FROM` line.
    pub fn get_image_tag(&self) -> (r: Option<&Tag>)
        ensures
            r is Some <==> self@ is From,
            r matches Some(x) ==> x@ == image_of(self@).tag,
    {
        match self {
            DockerInstruction::From(image, _) => Some(image.get_tag()),
            DockerInstruction::Raw(_) => None,
        }
    }

    /// The stage alias of a `FROM` line.
    pub fn get_stage_name(&self) -> (r: Option<String>)
        ensures
            opt_view(r) == match self@ {
                InstructionModel::From(_, a) => a,
                InstructionModel::Raw(_) => None,
            },
    {
        match self {
            DockerInstruction::From(_, Some(a)) => Some(a.clone()),
            _ => None,
        }
    }

    /// The image of a `FROM` line.
    pub fn get_image(&self) -> (r: Option<ContainerImage>)
        ensures
            r is Some <==> self@ is From,
            r matches Some(x) ==> x@ == image_of(self@),
    {
        match self {
            DockerInstruction::From(image, _) => Some(image.clone()),
            DockerInstruction::Raw(_) => None,
        }
    }
}


// ---------------------------------------------------------------------------
// Implementation: whole files
// ---------------------------------------------------------------------------

fn strip_cr_chars(v: Vec<char>) -> (r: Vec<char>)
    ensures
        r@ == strip_cr(v@),
{
    if v.len() > 0 && v[v.len() - 1] == '\r' {
        let r = slice_of(&v, 0, v.len() - 1);
        proof {
            assert(r@ =~= v@.drop_last());
        }
        r
    } else {
        v
    }
}

impl Dockerfile {
    /// Reads a Dockerfile. Empty content is refused; a `FROM` line without an
    /// image fails the whole file; every other line is kept as written.
    #[verifier::spinoff_prover]
    pub fn parse(content: &str) -> (r: Result<Dockerfile, Error>)
        ensures
            content@.len() == 0 ==> r == Err::<Dockerfile, Error>(Error::Parse(ParseError::EmptyFile)),
            content@.len() > 0 && !all_lines_parse(lines(content@)) ==> r == Err::<Dockerfile, Error>(
                Error::Parse(ParseError::EmptyImage),
            ),
            content@.len() > 0 && all_lines_parse(lines(content@)) ==> (r matches Ok(d) && d@
                == (DockerfileModel { instructions: parsed_lines(lines(content@)), path: None })),
    {
        let v = chars_of(content);
        if v.len() == 0 {
            return Err(Error::Parse(ParseError::EmptyFile));
        }
        let pieces = split_chars(&v, '\n');
        let ghost ps = views(pieces@);
        let ghost ls = lines(content@);
        let n: usize = if pieces[pieces.len() - 1].len() == 0 {
            pieces.len() - 1
        } else {
            pieces.len()
        };
        proof {
            assert(ps.last() == pieces@[pieces.len() - 1]@);
            assert(ls.len() == n);
        }
        let mut instructions: Vec<DockerInstruction> = Vec::new();
        let mut i: usize = 0;
        while i < n
            invariant
                i <= n <= pieces.len(),
                ps == views(pieces@),
                ls == lines(content@),
                ls.len() == n,
                ps == split_by(content@, '\n'),
                forall|j: int| 0 <= j < i ==> (#[trigger] parse_instruction_spec(ls[j])) is Some,
                instruction_views(instructions@) == parsed_lines(ls).subrange(0, i as int),
            decreases n - i,
        {
            let piece = slice_of(&pieces[i], 0, pieces[i].len());
            proof {
                assert(piece@ =~= ps[i as int]);
            }
            let line_chars = if i + 1 < pieces.len() {
                strip_cr_chars(piece)
            } else {
                piece
            };
            proof {
                lemma_line_at(content@, i as int);
            }
            let line = string_of(&line_chars);
            match DockerInstruction::parse_instruction(line.as_str()) {
                Ok(instr) => {
                    let ghost before = instruction_views(instructions@);
                    instructions.push(instr);
                    proof {
                        assert(instruction_views(instructions@) =~= before.push(instr@));
                        assert(instruction_views(instructions@) =~= parsed_lines(ls).subrange(
                            0,
                            i + 1,
                        ));
                    }
                },
                Err(e) => {
                    proof {
                        assert(!all_lines_parse(ls));
                    }
                    return Err(e);
                },
            }
            i = i + 1;
        }
        proof {
            assert(parsed_lines(ls).subrange(0, n as int) =~= parsed_lines(ls));
        }
        Ok(Dockerfile { instructions, path: None })
    }

    /// The file as text: each line followed by a newline.
    pub fn render_chars(&self) -> (r: Vec<char>)
        ensures
            r@ == render_instructions(self@.instructions),
    {
        let ghost is = self@.instructions;
        let mut out: Vec<char> = Vec::new();
        let mut i: usize = 0;
        proof {
            assert(is.subrange(0, 0) =~= Seq::<InstructionModel>::empty());
        }
        while i < self.instructions.len()
            invariant
                i <= self.instructions.len(),
                is == self@.instructions,
                out@ == render_instructions(is.subrange(0, i as int)),
            decreases self.instructions.len() - i,
        {
            let t = self.instructions[i].render_chars();
            append_chars(&mut out, &t);
            proof {
                assert(is.subrange(0, i + 1).drop_last() =~= is.subrange(0, i as int));
                assert(is[i as int] == self.instructions@[i as int]@);
            }
            i = i + 1;
        }
        proof {
            assert(is.subrange(0, i as int) =~= is);
        }
        out
    }

    /// The file as text.
    pub fn to_string(&self) -> (r: String)
        ensures
            r@ == render_instructions(self@.instructions),
    {
        let v = self.render_chars();
        string_of(&v)
    }

    pub fn get_instructions(&self) -> (r: &Vec<DockerInstruction>)
        ensures
            instruction_views(r@) == self@.instructions,
    {
        &self.instructions
    }

    /// The path the file was read from, if any.
    pub fn get_path(&self) -> (r: Option<String>)
        ensures
            opt_view(r) == self@.path,
    {
        match &self.path {
            Some(p) => Some(p.clone()),
            None => None,
        }
    }

    pub fn set_path(&mut self, path: &str)
        ensures
            final(self)@ == (DockerfileModel { path: Some(path@), ..old(self)@ }),
    {
        self.path = Some(path.to_string());
    }

    /// The path to write the file back to; fails when none was recorded.
    pub fn write_target(&self) -> (r: Result<String, Error>)
        ensures
            self@.path is None ==> r == Err::<String, Error>(Error::MissingPath),
            self@.path matches Some(p) ==> (r matches Ok(x) && x@ == p),
    {
        match &self.path {
            Some(p) => Ok(p.clone()),
            None => Err(Error::MissingPath),
        }
    }

    pub fn clear_path(&mut self)
        ensures
            final(self)@ == (DockerfileModel { path: None, ..old(self)@ }),
    {
        self.path = None;
    }

    /// The images of the `FROM` lines that name a real image rather than an
    /// earlier stage, in file order. Updates refer to them by position in
    /// this list.
    pub fn get_base_images_mut(&self) -> (r: Vec<ContainerImage>)
        ensures
            r@.map_values(|m: ContainerImage| m@) == base_images(self@.instructions),
    {
        let ghost is = self@.instructions;
        let mut out: Vec<ContainerImage> = Vec::new();
        let mut i: usize = 0;
        proof {
            assert(out@.map_values(|m: ContainerImage| m@) =~= base_images(is.subrange(0, 0)));
        }
        while i < self.instructions.len()
            invariant
                i <= self.instructions.len(),
                is == self@.instructions,
                out@.map_values(|m: ContainerImage| m@) == base_images(is.subrange(0, i as int)),
            decreases self.instructions.len() - i,
        {
            let ghost before = out@.map_values(|m: ContainerImage| m@);
            proof {
                assert(is.subrange(0, i + 1).drop_last() =~= is.subrange(0, i as int));
                assert(is[i as int] == self.instructions@[i as int]@);
                assert(is.subrange(0, i + 1).last() == is[i as int]);
            }
            let instr = &self.instructions[i];
            if instr.has_valid_image() {
                match instr {
                    DockerInstruction::From(image, _) => {
                        out.push(image.clone());
                        proof {
                            assert(out@.map_values(|m: ContainerImage| m@) =~= before.push(
                                image_of(is[i as int]),
                            ));
                        }
                    },
                    DockerInstruction::Raw(_) => {},
                }
            }
            i = i + 1;
        }
        proof {
            assert(is.subrange(0, i as int) =~= is);
        }
        out
    }
}

} // verus!
