//! Reading tags from text and writing them back.
use vstd::prelude::*;

use crate::tag::{
    dot, all_dots, is_digit_run, is_suffix_run, latest_word, parse_tag, parse_variant,
    render_tag, render_variant, run_numbers, run_separators, runs, separator, string_views,
    opt_decimal, Tag, TagVariant,
};
use crate::text::{
    append_chars, chars_of, decimal_chars, find_char, is_digit_char, parse_u64_chars,
    slice_of, split_chars, starts_with_nocase_exec, string_of, trim_chars, views,
};

verus! {

/// Splits `v` into its maximal runs of digits and of non-digits.
pub fn runs_of(v: &Vec<char>) -> (r: Vec<Vec<char>>)
    ensures
        views(r@) == runs(v@),
{
    let mut out: Vec<Vec<char>> = Vec::new();
    let mut i: usize = 0;
    proof {
        assert(views(out@) =~= runs(v@.subrange(0, 0)));
    }
    while i < v.len()
        invariant
            i <= v.len(),
            views(out@) == runs(v@.subrange(0, i as int)),
        decreases v.len() - i,
    {
        let c = v[i];
        proof {
            assert(v@.subrange(0, i + 1).drop_last() =~= v@.subrange(0, i as int));
            assert(v@.subrange(0, i + 1).last() == c);
        }
        let n = out.len();
        let ghost before = views(out@);
        let extend = n > 0 && out[n - 1].len() > 0 && is_digit_char(out[n - 1][out[n - 1].len() - 1])
            == is_digit_char(c);
        proof {
            if n > 0 {
                assert(before.last() == out@[n - 1]@);
                if out@[n - 1]@.len() > 0 {
                    assert(before.last().last() == out@[n - 1]@[out@[n - 1]@.len() - 1]);
                }
            }
        }
        if extend {
            let mut last = out.remove(n - 1);
            last.push(c);
            out.push(last);
        } else {
            let mut fresh: Vec<char> = Vec::new();
            fresh.push(c);
            proof {
                assert(fresh@ =~= seq![c]);
            }
            out.push(fresh);
        }
        proof {
            if extend {
                assert(views(out@) =~= before.update(n - 1, before.last().push(c)));
            } else {
                assert(views(out@) =~= before.push(seq![c]));
            }
            assert(views(out@) =~= runs(v@.subrange(0, i + 1)));
        }
        i = i + 1;
    }
    proof {
        assert(v@.subrange(0, v@.len() as int) =~= v@);
    }
    out
}

fn is_digit_run_exec(t: &Vec<char>) -> (r: bool)
    ensures
        r == is_digit_run(t@),
{
    t.len() > 0 && is_digit_char(t[0])
}

fn is_suffix_run_exec(t: &Vec<char>) -> (r: bool)
    ensures
        r == is_suffix_run(t@),
{
    t.len() > 0 && (t[0] == '-' || t[0] == '_')
}

fn number_at(ns: &Vec<u64>, i: usize) -> (r: Option<u64>)
    ensures
        r == crate::tag::nth_number(ns@, i as int),
{
    if i < ns.len() {
        Some(ns[i])
    } else {
        None
    }
}

impl TagVariant {
    /// Reads a variant from the text after the first `-` of a tag.
    pub fn parse_chars(v: &Vec<char>) -> (r: TagVariant)
        ensures
            r@ == parse_variant(v@),
    {
        let rs = runs_of(v);
        let ghost rv = views(rs@);
        let has_prefix = rs.len() > 0 && !is_digit_run_exec(&rs[0]);
        let start: usize = if has_prefix {
            1
        } else {
            0
        };
        let has_suffix = rs.len() > start && is_suffix_run_exec(&rs[rs.len() - 1]);
        let end: usize = if has_suffix {
            rs.len() - 1
        } else {
            rs.len()
        };
        let ghost body = if has_prefix {
            rv.drop_first()
        } else {
            rv
        };
        let ghost mids = if has_suffix {
            body.drop_last()
        } else {
            body
        };
        proof {
            if rs.len() > 0 {
                assert(rv[0] == rs@[0]@);
                assert(rv.last() == rs@[rs.len() - 1]@);
            }
            assert(body =~= rv.subrange(start as int, rv.len() as int));
            if has_suffix {
                assert(body.last() == rs@[rs.len() - 1]@);
            }
            assert(mids =~= rv.subrange(start as int, end as int));
        }
        let mut nums: Vec<u64> = Vec::new();
        let mut seps: Vec<String> = Vec::new();
        let mut only_dots = true;
        let mut j: usize = start;
        proof {
            assert(rv.subrange(start as int, start as int) =~= Seq::<Seq<char>>::empty());
            assert(string_views(seps@) =~= Seq::<Seq<char>>::empty());
        }
        while j < end
            invariant
                start <= j <= end <= rs.len(),
                rv == views(rs@),
                mids == rv.subrange(start as int, end as int),
                nums@ == run_numbers(rv.subrange(start as int, j as int)),
                string_views(seps@) == run_separators(rv.subrange(start as int, j as int)),
                only_dots == all_dots(run_separators(rv.subrange(start as int, j as int))),
            decreases end - j,
        {
            let t = &rs[j];
            let ghost prev = rv.subrange(start as int, j as int);
            let ghost next = rv.subrange(start as int, j + 1);
            proof {
                assert(next.drop_last() =~= prev);
                assert(next.last() == t@);
            }
            if is_digit_run_exec(t) {
                let n = parse_u64_chars(t);
                if let Some(x) = n {
                    nums.push(x);
                }
            } else {
                let piece = string_of(t);
                let is_dot = t.len() == 1 && t[0] == '.';
                proof {
                    assert(is_dot == (t@ == dot())) by {
                        if t@ == dot() {
                            assert(t@.len() == 1 && t@[0] == '.');
                        }
                        if is_dot {
                            assert(t@ =~= dot());
                        }
                    }
                    let ps = run_separators(prev);
                    let ns = run_separators(next);
                    assert(ns == ps.push(t@));
                    if only_dots && is_dot {
                        assert forall|k: int| 0 <= k < ns.len() implies #[trigger] ns[k] == dot() by {
                            if k < ps.len() {
                                assert(ns[k] == ps[k]);
                            }
                        }
                    }
                    if !only_dots {
                        let k = choose|k: int| 0 <= k < ps.len() && ps[k] != dot();
                        assert(ns[k] == ps[k]);
                    }
                    if !is_dot {
                        assert(ns[ps.len() as int] != dot());
                    }
                }
                only_dots = only_dots && is_dot;
                seps.push(piece);
                proof {
                    assert(string_views(seps@) =~= run_separators(next));
                }
            }
            j = j + 1;
        }
        let affixes = if only_dots {
            Vec::new()
        } else {
            seps
        };
        let prefix = if has_prefix {
            Some(string_of(&rs[0]))
        } else {
            None
        };
        let suffix = if has_suffix {
            Some(string_of(&rs[rs.len() - 1]))
        } else {
            None
        };
        let r = TagVariant {
            prefix,
            major: number_at(&nums, 0),
            minor: number_at(&nums, 1),
            patch: number_at(&nums, 2),
            affixes,
            suffix,
        };
        proof {
            if only_dots {
                assert(string_views(r.affixes@) =~= Seq::<Seq<char>>::empty());
            }
            assert(r@.affixes == parse_variant(v@).affixes);
        }
        r
    }

    /// The text of the variant.
    pub fn render_chars(&self) -> (r: Vec<char>)
        ensures
            r@ == render_variant(self@),
    {
        let mut out: Vec<char> = Vec::new();
        if let Some(p) = &self.prefix {
            let pc = chars_of(p.as_str());
            append_chars(&mut out, &pc);
        }
        push_number(&mut out, self.major);
        if self.minor.is_some() {
            self.push_separator(&mut out, 0);
            push_number(&mut out, self.minor);
        }
        if self.patch.is_some() {
            self.push_separator(&mut out, 1);
            push_number(&mut out, self.patch);
        }
        if let Some(s) = &self.suffix {
            let sc = chars_of(s.as_str());
            append_chars(&mut out, &sc);
        }
        proof {
            assert(out@ =~= render_variant(self@));
        }
        out
    }

    fn push_separator(&self, out: &mut Vec<char>, i: usize)
        ensures
            final(out)@ == old(out)@ + separator(self@.affixes, i as int),
    {
        if i < self.affixes.len() {
            let a = chars_of(self.affixes[i].as_str());
            append_chars(out, &a);
        } else {
            out.push('.');
            proof {
                assert(final(out)@ =~= old(out)@ + dot());
            }
        }
    }
}

fn push_number(out: &mut Vec<char>, n: Option<u64>)
    ensures
        final(out)@ == old(out)@ + opt_decimal(n),
{
    match n {
        Some(x) => {
            let d = decimal_chars(x);
            append_chars(out, &d);
        },
        None => {
            proof {
                assert(final(out)@ =~= old(out)@ + opt_decimal(n));
            }
        },
    }
}

impl Tag {
    /// Reads a tag. Reading never fails: a part that is not a number is
    /// absent, and the empty text gives the zero tag.
    pub fn parse(s: &str) -> (r: Tag)
        ensures
            r@ == parse_tag(s@),
    {
        let v = chars_of(s);
        let t = trim_chars(&v);
        let is_latest = t.len() == 6 && starts_with_nocase_exec(&t, "latest");
        proof {
            reveal_strlit("latest");
            assert("latest"@ =~= latest_word());
        }
        if is_latest {
            return Tag {
                major: None,
                minor: None,
                patch: None,
                variant: None,
                allowed_missing: false,
                latest: true,
            };
        }
        let k = find_char(&v, '-');
        proof {
            crate::text::lemma_first_index_bound(v@, '-');
        }
        let version = match k {
            Some(i) => slice_of(&v, 0, i),
            None => slice_of(&v, 0, v.len()),
        };
        proof {
            assert(v@.subrange(0, v@.len() as int) =~= v@);
            crate::text::lemma_first_index_bound(v@, '-');
        }
        let pieces = split_chars(&version, '.');
        proof {
            assert(views(pieces@).len() == pieces@.len());
        }
        let major = if pieces.len() > 0 {
            parse_u64_chars(&pieces[0])
        } else {
            None
        };
        let minor = if pieces.len() > 1 {
            parse_u64_chars(&pieces[1])
        } else {
            None
        };
        let patch = if pieces.len() > 2 {
            parse_u64_chars(&pieces[2])
        } else {
            None
        };
        let variant = match k {
            Some(i) => {
                let rest = slice_of(&v, i + 1, v.len());
                Some(TagVariant::parse_chars(&rest))
            },
            None => None,
        };
        proof {
            let ps = views(pieces@);
            if pieces.len() > 0 {
                assert(ps[0] == pieces@[0]@);
            }
            if pieces.len() > 1 {
                assert(ps[1] == pieces@[1]@);
            }
            if pieces.len() > 2 {
                assert(ps[2] == pieces@[2]@);
            }
        }
        Tag { major, minor, patch, variant, allowed_missing: false, latest: false }
    }

    /// The text of the tag, as characters.
    pub fn render_chars(&self) -> (r: Vec<char>)
        ensures
            r@ == render_tag(self@),
    {
        let mut out: Vec<char> = Vec::new();
        if self.latest {
            crate::text::append_str(&mut out, "latest");
            proof {
                reveal_strlit("latest");
                assert(out@ =~= latest_word());
            }
            return out;
        }
        push_number(&mut out, self.major);
        if self.minor.is_some() {
            if self.major.is_some() {
                out.push('.');
            }
            push_number(&mut out, self.minor);
        }
        if self.patch.is_some() {
            if self.major.is_some() || self.minor.is_some() {
                out.push('.');
            }
            push_number(&mut out, self.patch);
        }
        let ghost numbers = out@;
        proof {
            assert(numbers =~= crate::tag::render_numbers(self@));
        }
        if let Some(var) = &self.variant {
            if self.major.is_some() || self.minor.is_some() || self.patch.is_some() {
                out.push('-');
            }
            let vc = var.render_chars();
            append_chars(&mut out, &vc);
        }
        proof {
            assert(out@ =~= render_tag(self@));
        }
        out
    }

    /// The text of the tag.
    pub fn to_string(&self) -> (r: String)
        ensures
            r@ == render_tag(self@),
    {
        let v = self.render_chars();
        string_of(&v)
    }
}

impl core::str::FromStr for Tag {
    type Err = crate::error::Error;

    fn from_str(s: &str) -> (r: Result<Tag, crate::error::Error>)
        ensures
            r matches Ok(t) && t@ == parse_tag(s@),
    {
        Ok(Tag::parse(s))
    }
}

} // verus!
