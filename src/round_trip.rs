//! Writing a tag and reading it back gives the same tag.
use vstd::prelude::*;

use crate::tag::{
    all_dots, dot, has_number, is_digit_run, is_suffix_run, latest_word, opt_chars, opt_decimal,
    parse_tag, parse_variant, piece_number, render_numbers, render_tag, render_variant, run_numbers,
    run_separators, runs, separator, TagModel, VariantModel,
};
use crate::text::{
    ascii_lower, decimal, first_index, is_digit, is_space,
    leading_spaces, lemma_decimal, lemma_parse_decimal, lemma_split_by_nonempty,
    lemma_trailing_spaces_bound, parse_u64, split_by, starts_with_nocase, trailing_spaces, trim,
    trim_end, trim_start,
};

verus! {

/// A non-empty run of characters that are all digits or all non-digits.
pub open spec fn uniform(x: Seq<char>) -> bool {
    x.len() > 0 && forall|i: int| 0 <= i < x.len() ==> is_digit(#[trigger] x[i]) == is_digit(x[0])
}

pub proof fn lemma_runs_last(s: Seq<char>)
    requires
        s.len() > 0,
    ensures
        runs(s).len() > 0,
        runs(s).last().len() > 0,
        runs(s).last().last() == s.last(),
    decreases s.len(),
{
    if s.len() > 1 {
        lemma_runs_last(s.drop_last());
    }
}

/// Every run is uniform, and neighbouring runs differ in kind.
pub proof fn lemma_runs_wf(s: Seq<char>)
    ensures
        forall|i: int| 0 <= i < runs(s).len() ==> uniform(#[trigger] runs(s)[i]),
        forall|i: int|
            0 <= i < runs(s).len() - 1 ==> is_digit(#[trigger] runs(s)[i][0]) != is_digit(
                runs(s)[i + 1][0],
            ),
    decreases s.len(),
{
    if s.len() > 0 {
        let t = s.drop_last();
        lemma_runs_wf(t);
        let r = runs(t);
        let c = s.last();
        if r.len() > 0 {
            lemma_runs_last(t);
        }
        if r.len() > 0 && r.last().len() > 0 && is_digit(r.last().last()) == is_digit(c) {
            let last = r.last();
            assert(uniform(last));
            assert(uniform(last.push(c))) by {
                assert forall|i: int| 0 <= i < last.push(c).len() implies is_digit(
                    #[trigger] last.push(c)[i],
                ) == is_digit(last.push(c)[0]) by {
                    if i < last.len() {
                        assert(last.push(c)[i] == last[i]);
                    }
                }
            }
            let rr = runs(s);
            assert forall|i: int| 0 <= i < rr.len() - 1 implies is_digit(#[trigger] rr[i][0])
                != is_digit(rr[i + 1][0]) by {
                if i + 1 == rr.len() - 1 {
                    assert(rr[i + 1][0] == last[0]);
                }
            }
        } else {
            let rr = runs(s);
            assert(uniform(seq![c]));
            assert forall|i: int| 0 <= i < rr.len() - 1 implies is_digit(#[trigger] rr[i][0])
                != is_digit(rr[i + 1][0]) by {
                if i + 1 == rr.len() - 1 {
                    assert(rr[i] == r.last());
                    assert(uniform(r.last()));
                    assert(r.last()[r.last().len() - 1] == r.last().last());
                }
            }
        }
    }
}

/// Appending a run of the other kind adds it as a run of its own.
pub proof fn lemma_runs_append(a: Seq<char>, b: Seq<char>)
    requires
        uniform(b),
        a.len() > 0 ==> is_digit(a.last()) != is_digit(b[0]),
    ensures
        runs(a + b) == runs(a).push(b),
    decreases b.len(),
{
    if b.len() == 1 {
        assert((a + b).drop_last() =~= a);
        assert((a + b).last() == b[0]);
        if a.len() > 0 {
            lemma_runs_last(a);
        }
        assert(seq![b[0]] =~= b);
    } else {
        let b1 = b.drop_last();
        assert(uniform(b1)) by {
            assert forall|i: int| 0 <= i < b1.len() implies is_digit(#[trigger] b1[i]) == is_digit(
                b1[0],
            ) by {
                assert(b1[i] == b[i]);
            }
        }
        lemma_runs_append(a, b1);
        assert((a + b).drop_last() =~= a + b1);
        assert((a + b).last() == b.last());
        assert(b1.last() == b[b.len() - 2]);
        assert(b1.push(b.last()) =~= b);
    }
}

pub proof fn lemma_decimal_uniform(n: u64)
    ensures
        uniform(decimal(n as nat)),
        is_digit(decimal(n as nat)[0]),
        is_digit(decimal(n as nat).last()),
{
    lemma_decimal(n as nat);
    let d = decimal(n as nat);
    assert(is_digit(d[0]));
    assert(is_digit(d[d.len() - 1]));
}

/// A uniform run with no digits.
pub open spec fn letters(x: Seq<char>) -> bool {
    uniform(x) && !is_digit(x[0])
}

/// What holds of every variant that parsing produces.
pub open spec fn variant_wf(v: VariantModel) -> bool {
    &&& (v.prefix matches Some(p) ==> letters(p))
    &&& (v.suffix matches Some(x) ==> letters(x) && is_suffix_run(x))
    &&& forall|i: int| 0 <= i < v.affixes.len() ==> letters(#[trigger] v.affixes[i])
    &&& (v.affixes.len() > 0 ==> !all_dots(v.affixes))
    &&& (v.minor is Some ==> v.major is Some)
    &&& (v.patch is Some ==> v.minor is Some)
}

pub proof fn lemma_separators_letters(rs: Seq<Seq<char>>)
    requires
        forall|i: int| 0 <= i < rs.len() ==> uniform(#[trigger] rs[i]),
    ensures
        forall|i: int| 0 <= i < run_separators(rs).len() ==> letters(#[trigger] run_separators(rs)[i]),
    decreases rs.len(),
{
    if rs.len() > 0 {
        let init = rs.drop_last();
        assert forall|i: int| 0 <= i < init.len() implies uniform(#[trigger] init[i]) by {
            assert(init[i] == rs[i]);
        }
        lemma_separators_letters(init);
        let t = rs.last();
        assert(uniform(rs[rs.len() - 1]));
        let p = run_separators(init);
        let q = run_separators(rs);
        assert forall|i: int| 0 <= i < q.len() implies letters(#[trigger] q[i]) by {
            if i < p.len() {
                assert(q[i] == p[i]);
            } else {
                assert(q[i] == t);
                assert(!is_digit_run(t));
            }
        }
    }
}

pub proof fn lemma_parse_variant_wf(s: Seq<char>)
    ensures
        variant_wf(parse_variant(s)),
{
    let rs = runs(s);
    lemma_runs_wf(s);
    let has_prefix = rs.len() > 0 && !is_digit_run(rs[0]);
    let body = if has_prefix {
        rs.drop_first()
    } else {
        rs
    };
    let has_suffix = body.len() > 0 && is_suffix_run(body.last());
    let mids = if has_suffix {
        body.drop_last()
    } else {
        body
    };
    assert forall|i: int| 0 <= i < body.len() implies uniform(#[trigger] body[i]) by {
        if has_prefix {
            assert(body[i] == rs[i + 1]);
        }
    }
    assert forall|i: int| 0 <= i < mids.len() implies uniform(#[trigger] mids[i]) by {
        assert(mids[i] == body[i]);
    }
    lemma_separators_letters(mids);
    if has_suffix {
        assert(uniform(body[body.len() - 1]));
    }
}

/// The number of numbers present in a variant.
pub open spec fn number_count(v: VariantModel) -> nat {
    if v.patch is Some {
        3
    } else if v.minor is Some {
        2
    } else if v.major is Some {
        1
    } else {
        0
    }
}

/// The variants that survive writing and reading back: the recorded
/// separators match the numbers (none, or one between each two), and a
/// variant without numbers has no suffix.
pub open spec fn variant_round_trips(v: VariantModel) -> bool {
    &&& (v.affixes.len() == 0 || v.affixes.len() + 1 == number_count(v))
    &&& (number_count(v) == 0 ==> v.suffix is None)
}

/// The tags that survive writing and reading back: a minor only after a
/// major, a patch only after a minor, and a variant only after some number,
/// itself surviving.
pub open spec fn tag_round_trips(t: TagModel) -> bool {
    t.latest || ((t.minor is Some ==> t.major is Some) && (t.patch is Some ==> t.minor is Some) && (
    t.variant matches Some(v) ==> has_number(t) && variant_round_trips(v)))
}


/// The runs that the text of the numbers and separators of `v` consists of.
pub open spec fn middle_runs(v: VariantModel) -> Seq<Seq<char>> {
    (if v.major is Some {
        seq![opt_decimal(v.major)]
    } else {
        Seq::empty()
    }) + (if v.minor is Some {
        seq![separator(v.affixes, 0), opt_decimal(v.minor)]
    } else {
        Seq::empty()
    }) + (if v.patch is Some {
        seq![separator(v.affixes, 1), opt_decimal(v.patch)]
    } else {
        Seq::empty()
    })
}

pub open spec fn present_numbers(v: VariantModel) -> Seq<u64> {
    (if v.major is Some {
        seq![v.major->0]
    } else {
        Seq::empty()
    }) + (if v.minor is Some {
        seq![v.minor->0]
    } else {
        Seq::empty()
    }) + (if v.patch is Some {
        seq![v.patch->0]
    } else {
        Seq::empty()
    })
}

pub open spec fn written_separators(v: VariantModel) -> Seq<Seq<char>> {
    (if v.minor is Some {
        seq![separator(v.affixes, 0)]
    } else {
        Seq::empty()
    }) + (if v.patch is Some {
        seq![separator(v.affixes, 1)]
    } else {
        Seq::empty()
    })
}

proof fn lemma_separator_letters(v: VariantModel, i: int)
    requires
        variant_wf(v),
        0 <= i,
    ensures
        letters(separator(v.affixes, i)),
{
    if i < v.affixes.len() {
        assert(letters(v.affixes[i]));
    } else {
        assert(uniform(dot()));
    }
}

proof fn lemma_fold_digit(rs: Seq<Seq<char>>, n: u64)
    ensures
        run_numbers(rs.push(decimal(n as nat))) == run_numbers(rs).push(n),
        run_separators(rs.push(decimal(n as nat))) == run_separators(rs),
{
    lemma_parse_decimal(n);
    lemma_decimal_uniform(n);
    let t = rs.push(decimal(n as nat));
    assert(t.drop_last() =~= rs);
}

proof fn lemma_fold_letters(rs: Seq<Seq<char>>, x: Seq<char>)
    requires
        letters(x),
    ensures
        run_numbers(rs.push(x)) == run_numbers(rs),
        run_separators(rs.push(x)) == run_separators(rs).push(x),
{
    let t = rs.push(x);
    assert(t.drop_last() =~= rs);
}

/// Reading the middle runs gives back the numbers, and the separators that
/// were written.
pub proof fn lemma_middle_runs(v: VariantModel)
    requires
        variant_wf(v),
    ensures
        run_numbers(middle_runs(v)) == present_numbers(v),
        run_separators(middle_runs(v)) == written_separators(v),
{
    let e = Seq::<Seq<char>>::empty();
    let m0 = if v.major is Some {
        seq![opt_decimal(v.major)]
    } else {
        e
    };
    if v.major is Some {
        lemma_fold_digit(e, v.major->0);
        assert(e.push(decimal(v.major->0 as nat)) =~= m0);
    }
    let m1 = if v.minor is Some {
        m0.push(separator(v.affixes, 0)).push(opt_decimal(v.minor))
    } else {
        m0
    };
    if v.minor is Some {
        lemma_separator_letters(v, 0);
        lemma_fold_letters(m0, separator(v.affixes, 0));
        lemma_fold_digit(m0.push(separator(v.affixes, 0)), v.minor->0);
    }
    let m2 = if v.patch is Some {
        m1.push(separator(v.affixes, 1)).push(opt_decimal(v.patch))
    } else {
        m1
    };
    if v.patch is Some {
        lemma_separator_letters(v, 1);
        lemma_fold_letters(m1, separator(v.affixes, 1));
        lemma_fold_digit(m1.push(separator(v.affixes, 1)), v.patch->0);
    }
    assert(m2 =~= middle_runs(v));
    assert(run_numbers(m2) =~= present_numbers(v));
    assert(run_separators(m2) =~= written_separators(v));
}


pub open spec fn opt_run(o: Option<Seq<char>>) -> Seq<Seq<char>> {
    match o {
        Some(x) => seq![x],
        None => Seq::empty(),
    }
}

proof fn lemma_extend(a: Seq<char>, t: Seq<Seq<char>>, piece: Seq<char>)
    requires
        runs(a) == t,
        uniform(piece),
        a.len() > 0 ==> is_digit(a.last()) != is_digit(piece[0]),
    ensures
        runs(a + piece) == t.push(piece),
        (a + piece).len() > 0,
        is_digit((a + piece).last()) == is_digit(piece[0]),
{
    lemma_runs_append(a, piece);
    assert((a + piece).last() == piece[piece.len() - 1]);
}

/// The text of a variant is made of its prefix, its numbers and separators,
/// and its suffix, each a run of its own.
#[verifier::spinoff_prover]
#[verifier::rlimit(100)]
pub proof fn lemma_render_variant_runs(v: VariantModel)
    requires
        variant_wf(v),
        variant_round_trips(v),
    ensures
        runs(render_variant(v)) == opt_run(v.prefix) + middle_runs(v) + opt_run(v.suffix),
{
    let e = Seq::<char>::empty();
    let a0 = opt_chars(v.prefix);
    let t0 = opt_run(v.prefix);
    if v.prefix is Some {
        assert(runs(e) =~= Seq::<Seq<char>>::empty());
        lemma_extend(e, Seq::<Seq<char>>::empty(), a0);
        assert(e + a0 =~= a0);
        assert(Seq::<Seq<char>>::empty().push(a0) =~= t0);
    } else {
        assert(runs(a0) =~= t0);
    }
    assert(a0.len() > 0 ==> !is_digit(a0.last())) by {
        if a0.len() > 0 {
            assert(a0.last() == a0[a0.len() - 1]);
        }
    }
    let a1 = a0 + opt_decimal(v.major);
    let t1 = if v.major is Some {
        t0.push(opt_decimal(v.major))
    } else {
        t0
    };
    if v.major is Some {
        lemma_decimal_uniform(v.major->0);
        lemma_extend(a0, t0, opt_decimal(v.major));
    } else {
        assert(a1 =~= a0);
    }
    assert(runs(a1) == t1);
    let s0 = separator(v.affixes, 0);
    let d1 = opt_decimal(v.minor);
    let a2 = if v.minor is Some {
        a1 + s0 + d1
    } else {
        a1
    };
    let t2 = if v.minor is Some {
        t1.push(s0).push(d1)
    } else {
        t1
    };
    if v.minor is Some {
        lemma_separator_letters(v, 0);
        lemma_decimal_uniform(v.minor->0);
        lemma_extend(a1, t1, s0);
        lemma_extend(a1 + s0, t1.push(s0), d1);
    }
    assert(runs(a2) == t2);
    assert(v.minor is Some ==> a2.len() > 0 && is_digit(a2.last()));
    let s1 = separator(v.affixes, 1);
    let d2 = opt_decimal(v.patch);
    let a3 = if v.patch is Some {
        a2 + s1 + d2
    } else {
        a2
    };
    let t3 = if v.patch is Some {
        t2.push(s1).push(d2)
    } else {
        t2
    };
    if v.patch is Some {
        lemma_separator_letters(v, 1);
        lemma_decimal_uniform(v.patch->0);
        lemma_extend(a2, t2, s1);
        lemma_extend(a2 + s1, t2.push(s1), d2);
    }
    assert(runs(a3) == t3);
    let a4 = a3 + opt_chars(v.suffix);
    let t4 = t3 + opt_run(v.suffix);
    if v.suffix is Some {
        let x = v.suffix->0;
        lemma_extend(a3, t3, x);
        assert(t3.push(x) =~= t4);
    } else {
        assert(a4 =~= a3);
        assert(t4 =~= t3);
    }
    assert(t3 =~= t0 + middle_runs(v));
    assert(a4 =~= render_variant(v));
}

/// Writing a variant and reading it back gives the same variant.
#[verifier::spinoff_prover]
#[verifier::rlimit(100)]
pub proof fn lemma_variant_round_trip(v: VariantModel)
    requires
        variant_wf(v),
        variant_round_trips(v),
    ensures
        parse_variant(render_variant(v)) == v,
{
    lemma_render_variant_runs(v);
    lemma_middle_runs(v);
    let rs = runs(render_variant(v));
    let m = middle_runs(v);
    let body = m + opt_run(v.suffix);
    if v.major is Some {
        lemma_decimal_uniform(v.major->0);
        assert(m[0] == opt_decimal(v.major));
    }
    let has_prefix = rs.len() > 0 && !is_digit_run(rs[0]);
    match v.prefix {
        Some(p) => {
            assert(rs[0] == p);
            assert(has_prefix);
            assert(rs.drop_first() =~= body);
        },
        None => {
            assert(rs =~= body);
            if rs.len() > 0 {
                assert(v.major is Some);
                assert(rs[0] == m[0]);
            }
            assert(!has_prefix);
        },
    }
    let has_suffix = body.len() > 0 && is_suffix_run(body.last());
    match v.suffix {
        Some(x) => {
            assert(body.last() == x);
            assert(has_suffix);
            assert(body.drop_last() =~= m);
        },
        None => {
            assert(body =~= m);
            if m.len() > 0 {
                let l = m.last();
                if v.patch is Some {
                    lemma_decimal_uniform(v.patch->0);
                    assert(l == opt_decimal(v.patch));
                } else if v.minor is Some {
                    lemma_decimal_uniform(v.minor->0);
                    assert(l == opt_decimal(v.minor));
                } else {
                    assert(l == opt_decimal(v.major));
                }
                assert(!is_suffix_run(l));
            }
            assert(!has_suffix);
        },
    }
    let nums = present_numbers(v);
    let seps = written_separators(v);
    let w = parse_variant(render_variant(v));
    assert(w.major == v.major);
    assert(w.minor == v.minor);
    assert(w.patch == v.patch);
    if v.affixes.len() == 0 {
        assert(all_dots(seps));
        assert(w.affixes =~= v.affixes);
    } else {
        assert(seps =~= v.affixes);
        assert(w.affixes == v.affixes);
    }
    assert(w.prefix == v.prefix);
    assert(w.suffix == v.suffix);
}

pub proof fn lemma_split_plain(x: Seq<char>, sep: char)
    requires
        forall|i: int| 0 <= i < x.len() ==> x[i] != sep,
    ensures
        split_by(x, sep) == seq![x],
    decreases x.len(),
{
    if x.len() > 0 {
        lemma_split_plain(x.drop_last(), sep);
        assert(x.drop_last().push(x.last()) =~= x);
        assert(x.last() == x[x.len() - 1]);
        assert(seq![x.drop_last()].update(0, x.drop_last().push(x.last())) =~= seq![x]);
    } else {
        assert(x =~= Seq::<char>::empty());
    }
}

pub proof fn lemma_split_concat(a: Seq<char>, b: Seq<char>, sep: char)
    ensures
        split_by(a + seq![sep] + b, sep) == split_by(a, sep) + split_by(b, sep),
    decreases b.len(),
{
    let whole = a + seq![sep] + b;
    if b.len() == 0 {
        assert(whole.drop_last() =~= a);
        assert(whole.last() == sep);
        assert(split_by(b, sep) =~= seq![Seq::<char>::empty()]);
        assert(split_by(a, sep).push(Seq::<char>::empty()) =~= split_by(a, sep) + split_by(b, sep));
    } else {
        let b1 = b.drop_last();
        lemma_split_concat(a, b1, sep);
        lemma_split_by_nonempty(b1, sep);
        assert(whole.drop_last() =~= a + seq![sep] + b1);
        assert(whole.last() == b.last());
        let x = split_by(a, sep);
        let y = split_by(b1, sep);
        if b.last() == sep {
            assert((x + y).push(Seq::<char>::empty()) =~= x + y.push(Seq::<char>::empty()));
        } else {
            let xy = x + y;
            assert(xy.last() == y.last());
            assert(xy.update(xy.len() - 1, xy.last().push(b.last())) =~= x + y.update(
                y.len() - 1,
                y.last().push(b.last()),
            ));
        }
    }
}

pub proof fn lemma_first_index_concat(a: Seq<char>, b: Seq<char>, c: char)
    requires
        forall|i: int| 0 <= i < a.len() ==> a[i] != c,
    ensures
        first_index(a + b, c) == (if first_index(b, c) >= 0 {
            a.len() + first_index(b, c)
        } else {
            -1
        }),
    decreases b.len(),
{
    if b.len() == 0 {
        assert(a + b =~= a);
        lemma_first_index_none(a, c);
    } else {
        lemma_first_index_concat(a, b.drop_last(), c);
        assert((a + b).drop_last() =~= a + b.drop_last());
        assert((a + b).last() == b.last());
    }
}

pub proof fn lemma_first_index_none(a: Seq<char>, c: char)
    requires
        forall|i: int| 0 <= i < a.len() ==> a[i] != c,
    ensures
        first_index(a, c) == -1,
{
    crate::text::lemma_first_index_bound(a, c);
}

pub proof fn lemma_first_index_head(s: Seq<char>, c: char)
    requires
        s.len() > 0,
        s[0] == c,
    ensures
        first_index(s, c) == 0,
    decreases s.len(),
{
    if s.len() > 1 {
        assert(s.drop_last()[0] == c);
        lemma_first_index_head(s.drop_last(), c);
    } else {
        assert(first_index(s.drop_last(), c) == -1);
        assert(s.last() == s[0]);
    }
}

/// Digits and dots only.
pub open spec fn numeric_text(x: Seq<char>) -> bool {
    forall|i: int| 0 <= i < x.len() ==> is_digit(#[trigger] x[i]) || x[i] == '.'
}

/// The numbers of a tag are written so that they read back in place.
pub proof fn lemma_numbers_round_trip(t: TagModel)
    requires
        t.minor is Some ==> t.major is Some,
        t.patch is Some ==> t.minor is Some,
    ensures
        numeric_text(render_numbers(t)),
        piece_number(split_by(render_numbers(t), '.'), 0) == t.major,
        piece_number(split_by(render_numbers(t), '.'), 1) == t.minor,
        piece_number(split_by(render_numbers(t), '.'), 2) == t.patch,
{
    let d0 = crate::tag::opt_decimal(t.major);
    let d1 = crate::tag::opt_decimal(t.minor);
    let d2 = crate::tag::opt_decimal(t.patch);
    if t.major is Some {
        lemma_decimal(t.major->0 as nat);
        lemma_parse_decimal(t.major->0);
    }
    if t.minor is Some {
        lemma_decimal(t.minor->0 as nat);
        lemma_parse_decimal(t.minor->0);
    }
    if t.patch is Some {
        lemma_decimal(t.patch->0 as nat);
        lemma_parse_decimal(t.patch->0);
    }
    assert(forall|i: int| 0 <= i < d0.len() ==> is_digit(#[trigger] d0[i]));
    assert(forall|i: int| 0 <= i < d1.len() ==> is_digit(#[trigger] d1[i]));
    assert(forall|i: int| 0 <= i < d2.len() ==> is_digit(#[trigger] d2[i]));
    lemma_split_plain(d0, '.');
    lemma_split_plain(d1, '.');
    lemma_split_plain(d2, '.');
    assert(parse_u64(Seq::<char>::empty()) is None);
    let n = render_numbers(t);
    if t.minor is Some {
        if t.patch is Some {
            let a = d0 + seq!['.'] + d1;
            assert(n =~= a + seq!['.'] + d2);
            lemma_split_concat(d0, d1, '.');
            lemma_split_concat(a, d2, '.');
            let ps = split_by(n, '.');
            assert(ps =~= seq![d0, d1, d2]);
        } else {
            assert(n =~= d0 + seq!['.'] + d1);
            lemma_split_concat(d0, d1, '.');
            assert(split_by(n, '.') =~= seq![d0, d1]);
        }
    } else {
        assert(n =~= d0);
    }
    assert(numeric_text(n)) by {
        assert forall|i: int| 0 <= i < n.len() implies is_digit(#[trigger] n[i]) || n[i] == '.' by {
            if i < d0.len() {
                assert(n[i] == d0[i]);
            } else if t.minor is Some && i == d0.len() {
            } else if t.minor is Some && i < d0.len() + 1 + d1.len() {
                assert(n[i] == d1[i - d0.len() - 1]);
            } else if t.patch is Some && i == d0.len() + 1 + d1.len() {
            } else if t.patch is Some {
                assert(n[i] == d2[i - d0.len() - 2 - d1.len()]);
            }
        }
    }
}

proof fn lemma_trim_keeps_head(s: Seq<char>)
    requires
        s.len() > 0,
        !is_space(s[0]),
    ensures
        trim(s).len() > 0 ==> trim(s)[0] == s[0],
{
    assert(leading_spaces(s) == 0);
    assert(trim_start(s) =~= s);
    lemma_trailing_spaces_bound(s);
}

proof fn lemma_latest_word_reads_latest()
    ensures
        crate::tag::is_latest_word(latest_word()),
{
    let w = latest_word();
    assert(leading_spaces(w) == 0);
    assert(trim_start(w) =~= w);
    assert(trailing_spaces(w) == 0);
    assert(trim_end(w) =~= w);
}

proof fn lemma_numeric_not_latest(r: Seq<char>)
    requires
        r.len() == 0 || is_digit(r[0]) || r[0] == '.',
    ensures
        !crate::tag::is_latest_word(r),
{
    if r.len() == 0 {
        assert(leading_spaces(r) == 0);
        assert(trailing_spaces(trim_start(r)) == 0);
    } else {
        lemma_trim_keeps_head(r);
        let t = trim(r);
        if t.len() == 6 && starts_with_nocase(t, latest_word()) {
            assert(ascii_lower(t[0]) == ascii_lower(latest_word()[0]));
        }
    }
}

/// Writing a tag read from non-empty text and reading it back gives the same
/// tag, for the tags that `tag_round_trips` describes. The others lose
/// information when written: `1..3` reads as major 1 and patch 3 and is
/// written `1.3`; `.5` reads as minor 5 and is written `5`.
pub proof fn lemma_tag_round_trip(s: Seq<char>)
    requires
        s.len() > 0,
        tag_round_trips(parse_tag(s)),
    ensures
        parse_tag(render_tag(parse_tag(s))) == parse_tag(s),
{
    let t = parse_tag(s);
    let r = render_tag(t);
    if t.latest {
        assert(crate::tag::is_latest_word(s));
        lemma_latest_word_reads_latest();
    } else {
        let k = first_index(s, '-');
        crate::text::lemma_first_index_bound(s, '-');
        if k >= 0 {
            lemma_parse_variant_wf(s.subrange(k + 1, s.len() as int));
        }
        lemma_numbers_round_trip(t);
        let n = render_numbers(t);
        assert(forall|i: int| 0 <= i < n.len() ==> n[i] != '-') by {
            assert forall|i: int| 0 <= i < n.len() implies n[i] != '-' by {
                assert(is_digit(n[i]) || n[i] == '.');
            }
        }
        if t.major is Some {
            lemma_decimal(t.major->0 as nat);
        }
        assert(has_number(t) ==> n.len() > 0 && (is_digit(n[0]) || n[0] == '.'));
        match t.variant {
            None => {
                assert(r =~= n);
                lemma_first_index_none(n, '-');
                lemma_numeric_not_latest(r);
            },
            Some(v) => {
                let rv = render_variant(v);
                let tail = seq!['-'] + rv;
                assert(r =~= n + tail);
                lemma_first_index_head(tail, '-');
                lemma_first_index_concat(n, tail, '-');
                assert(r[0] == n[0]);
                lemma_numeric_not_latest(r);
                assert(r.subrange(0, n.len() as int) =~= n);
                assert(r.subrange(n.len() as int + 1, r.len() as int) =~= rv);
                lemma_variant_round_trip(v);
            },
        }
    }
}

} // verus!
