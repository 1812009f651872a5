use vstd::prelude::*;
use crate::catalog::{merge_step, RegionMap};
use crate::grammar::{parse_line, parse_line_spec};
use crate::region::{RegionSpec, RegionType};
use crate::text::copy_range;

verus! {

/// The length of the first line of `s`, up to its first newline.
pub open spec fn first_line_len(s: Seq<char>) -> nat
    decreases s.len(),
{
    if s.len() > 0 && s[0] != '\n' {
        1 + first_line_len(s.drop_first())
    } else {
        0
    }
}

/// A line without its carriage return, if it ends in one.
pub open spec fn strip_cr(l: Seq<char>) -> Seq<char> {
    if l.len() > 0 && l.last() == '\r' {
        l.drop_last()
    } else {
        l
    }
}

/// The lines of a text: split at each newline, no empty line after a final newline.
pub open spec fn lines_of(s: Seq<char>) -> Seq<Seq<char>>
    decreases s.len(),
{
    if s.len() == 0 {
        seq![]
    } else {
        let k = first_line_len(s);
        if k >= s.len() {
            seq![strip_cr(s)]
        } else {
            seq![strip_cr(s.take(k as int))] + lines_of(s.skip(k + 1 as int))
        }
    }
}

/// The regions after each line of `ls`, in order, has been parsed with the grammar of
/// type `t` and each match added to `m`.
pub open spec fn load_spec(m: Set<RegionSpec>, ls: Seq<Seq<char>>, t: RegionType) -> Set<
    RegionSpec,
>
    decreases ls.len(),
{
    if ls.len() == 0 {
        m
    } else {
        let before = load_spec(m, ls.drop_last(), t);
        match parse_line_spec(ls.last(), t) {
            Some(r) => merge_step(before, r),
            None => before,
        }
    }
}

/// The index of the first newline at or after `lo`, or the length.
fn line_end(v: &Vec<char>, lo: usize) -> (r: usize)
    requires
        lo <= v@.len(),
    ensures
        lo <= r <= v@.len(),
        r == lo + first_line_len(v@.skip(lo as int)),
{
    let mut i = lo;
    while i < v.len() && v[i] != '\n'
        invariant
            lo <= i <= v@.len(),
            first_line_len(v@.skip(lo as int)) == (i - lo) + first_line_len(v@.skip(i as int)),
        decreases v@.len() - i,
    {
        assert(v@.skip(i as int).drop_first() == v@.skip(i + 1));
        i += 1;
    }
    i
}

/// Parses every line of `text` with the grammar of type `t` and adds each match to `map`,
/// in the order of the lines; lines that do not match are skipped.
pub fn load_regions(map: &mut RegionMap, text: &Vec<char>, t: RegionType)
    requires
        old(map).wf(),
    ensures
        final(map).wf(),
        final(map).contents() == load_spec(old(map).contents(), lines_of(text@), t),
{
    let n = text.len();
    let mut pos: usize = 0;
    let ghost done: Seq<Seq<char>> = seq![];
    assert(text@.skip(0) == text@);
    while pos < n
        invariant
            pos <= n == text@.len(),
            map.wf(),
            lines_of(text@) == done + lines_of(text@.skip(pos as int)),
            map.contents() == load_spec(old(map).contents(), done, t),
        decreases n - pos,
    {
        let ghost rest = text@.skip(pos as int);
        let k = line_end(text, pos);
        let ghost line = strip_cr(rest.take(k - pos));
        assert(rest.take(k - pos) == text@.subrange(pos as int, k as int));
        let stop = if k > pos && text[k - 1] == '\r' { k - 1 } else { k };
        let l = copy_range(text, pos, stop);
        assert(l@ == line);
        proof {
            if k >= n {
                assert(rest.take(k - pos) == rest);
                assert(lines_of(rest) == seq![line]);
            } else {
                assert(rest.skip(k - pos + 1) == text@.skip(k + 1));
                assert(lines_of(rest) == seq![line] + lines_of(text@.skip(k + 1)));
            }
            assert(done.push(line).drop_last() == done);
        }
        match parse_line(&l, t) {
            Some(r) => {
                map.insert(r);
            },
            None => {},
        }
        proof {
            done = done.push(line);
        }
        pos = if k >= n { n } else { k + 1 };
    }
    assert(lines_of(text@.skip(n as int)) == Seq::<Seq<char>>::empty());
    assert(done + Seq::<Seq<char>>::empty() == done);
}

/// Whether line `l` of the list of type `t` matches and yields a region of code `c`.
pub open spec fn yields_code(l: Seq<char>, t: RegionType, c: Seq<char>) -> bool {
    parse_line_spec(l, t) matches Some(q) && q.code == c
}

/// A line that matches its grammar leaves a region of its code among the loaded regions;
/// where no later line yields that code, it leaves its own region.
pub proof fn lemma_matched_line_kept(
    m: Set<RegionSpec>,
    ls: Seq<Seq<char>>,
    t: RegionType,
    i: int,
)
    requires
        0 <= i < ls.len(),
        parse_line_spec(ls[i], t) is Some,
    ensures
        exists|x: RegionSpec|
            #[trigger] load_spec(m, ls, t).contains(x) && x.code == parse_line_spec(ls[i], t)->0.code,
        (forall|j: int|
            i < j < ls.len() ==> !yields_code(#[trigger] ls[j], t, parse_line_spec(ls[i], t)->0.code))
            ==> load_spec(m, ls, t).contains(parse_line_spec(ls[i], t)->0),
    decreases ls.len(),
{
    let r = parse_line_spec(ls[i], t)->0;
    let before = load_spec(m, ls.drop_last(), t);
    if i == ls.len() - 1 {
        assert(ls.last() == ls[i]);
        assert(load_spec(m, ls, t) == merge_step(before, r));
        assert(merge_step(before, r).contains(r));
        assert(load_spec(m, ls, t).contains(r));
    } else {
        assert(ls.drop_last()[i] == ls[i]);
        lemma_matched_line_kept(m, ls.drop_last(), t, i);
        let x = choose|x: RegionSpec| #[trigger] before.contains(x) && x.code == r.code;
        match parse_line_spec(ls.last(), t) {
            Some(q) => {
                assert(load_spec(m, ls, t) == merge_step(before, q));
                if q.code == r.code {
                    assert(merge_step(before, q).contains(q));
                    assert(load_spec(m, ls, t).contains(q));
                    assert(yields_code(ls[ls.len() - 1], t, r.code));
                } else {
                    assert(merge_step(before, q).contains(x));
                    assert(load_spec(m, ls, t).contains(x));
                    if forall|j: int|
                        i < j < ls.len() ==> !yields_code(#[trigger] ls[j], t, r.code) {
                        assert forall|j: int|
                            i < j < ls.drop_last().len() implies !yields_code(
                            #[trigger] ls.drop_last()[j],
                            t,
                            r.code,
                        ) by {
                            assert(ls.drop_last()[j] == ls[j]);
                        }
                        assert(before.contains(r));
                        assert(merge_step(before, q).contains(r));
                    }
                }
            },
            None => {
                assert(load_spec(m, ls, t) == before);
                assert(load_spec(m, ls, t).contains(x));
                if forall|j: int|
                    i < j < ls.len() ==> !yields_code(#[trigger] ls[j], t, r.code) {
                    assert forall|j: int|
                        i < j < ls.drop_last().len() implies !yields_code(
                        #[trigger] ls.drop_last()[j],
                        t,
                        r.code,
                    ) by {
                        assert(ls.drop_last()[j] == ls[j]);
                    }
                }
            },
        }
    }
}

/// Every loaded region was there before or is the region of a line that matches its
/// grammar: a line that does not match adds nothing.
pub proof fn lemma_region_from_line(m: Set<RegionSpec>, ls: Seq<Seq<char>>, t: RegionType, x: RegionSpec)
    requires
        load_spec(m, ls, t).contains(x),
    ensures
        m.contains(x) || exists|i: int| 0 <= i < ls.len() && #[trigger] parse_line_spec(ls[i], t) == Some(x),
    decreases ls.len(),
{
    if ls.len() > 0 {
        let before = load_spec(m, ls.drop_last(), t);
        if parse_line_spec(ls.last(), t) == Some(x) {
            assert(parse_line_spec(ls[ls.len() - 1], t) == Some(x));
        } else {
            assert(before.contains(x));
            lemma_region_from_line(m, ls.drop_last(), t, x);
            if !m.contains(x) {
                let i = choose|i: int| 0 <= i < ls.drop_last().len() && #[trigger] parse_line_spec(ls.drop_last()[i], t) == Some(x);
                assert(ls.drop_last()[i] == ls[i]);
            }
        }
    }
}

} // verus!
