use vstd::prelude::*;
use crate::region::{Region, RegionSpec};
use crate::text::chars_of;

verus! {

/// Lexicographic order on codes, character by character.
pub open spec fn code_lt(a: Seq<char>, b: Seq<char>) -> bool
    decreases a.len(),
{
    if a.len() == 0 {
        b.len() > 0
    } else if b.len() == 0 {
        false
    } else if a[0] != b[0] {
        a[0] < b[0]
    } else {
        code_lt(a.drop_first(), b.drop_first())
    }
}

pub proof fn lemma_code_lt_irreflexive(a: Seq<char>)
    ensures
        !code_lt(a, a),
    decreases a.len(),
{
    if a.len() > 0 {
        lemma_code_lt_irreflexive(a.drop_first());
    }
}

pub proof fn lemma_code_lt_transitive(a: Seq<char>, b: Seq<char>, c: Seq<char>)
    requires
        code_lt(a, b),
        code_lt(b, c),
    ensures
        code_lt(a, c),
    decreases a.len(),
{
    if a.len() > 0 && b.len() > 0 && c.len() > 0 {
        if a[0] == b[0] && b[0] == c[0] {
            lemma_code_lt_transitive(a.drop_first(), b.drop_first(), c.drop_first());
        }
    }
}

pub proof fn lemma_code_lt_total(a: Seq<char>, b: Seq<char>)
    ensures
        a == b || code_lt(a, b) || code_lt(b, a),
    decreases a.len(),
{
    if a.len() > 0 && b.len() > 0 && a[0] == b[0] {
        lemma_code_lt_total(a.drop_first(), b.drop_first());
        if a.drop_first() == b.drop_first() {
            assert(a == seq![a[0]] + a.drop_first());
            assert(b == seq![b[0]] + b.drop_first());
        }
    } else if a.len() == 0 && b.len() == 0 {
        assert(a == b);
    }
}

/// Decides `code_lt`.
pub fn code_less(a: &Vec<char>, b: &Vec<char>) -> (r: bool)
    ensures
        r == code_lt(a@, b@),
{
    let mut i: usize = 0;
    assert(a@.skip(0) == a@);
    assert(b@.skip(0) == b@);
    while i < a.len() && i < b.len() && a[i] == b[i]
        invariant
            i <= a@.len(),
            i <= b@.len(),
            code_lt(a@, b@) == code_lt(a@.skip(i as int), b@.skip(i as int)),
        decreases a@.len() - i,
    {
        assert(a@.skip(i as int).drop_first() == a@.skip(i + 1));
        assert(b@.skip(i as int).drop_first() == b@.skip(i + 1));
        i += 1;
    }
    if i == a.len() {
        i < b.len()
    } else if i == b.len() {
        false
    } else {
        a[i] < b[i]
    }
}

/// Codes strictly ascending along `s`, hence unique.
pub open spec fn sorted_by_code(s: Seq<RegionSpec>) -> bool {
    forall|i: int, j: int| 0 <= i < j < s.len() ==> code_lt(#[trigger] s[i].code, #[trigger] s[j].code)
}

/// The regions after `r` is added to `m`: it replaces any region of the same code.
pub open spec fn merge_step(m: Set<RegionSpec>, r: RegionSpec) -> Set<RegionSpec> {
    m.filter(|x: RegionSpec| x.code != r.code).insert(r)
}

/// Regions keyed by code, kept in ascending order of code.
pub struct RegionMap {
    pub entries: Vec<Region>,
}

impl RegionMap {
    /// The regions, in the order they are kept.
    pub open spec fn regions(&self) -> Seq<RegionSpec> {
        self.entries@.map_values(|r: Region| r@)
    }

    /// The regions, as a set.
    pub open spec fn contents(&self) -> Set<RegionSpec> {
        self.regions().to_set()
    }

    pub open spec fn wf(&self) -> bool {
        sorted_by_code(self.regions())
    }

    /// An empty map.
    pub fn new() -> (r: RegionMap)
        ensures
            r.wf(),
            r.regions() == Seq::<RegionSpec>::empty(),
    {
        RegionMap { entries: Vec::new() }
    }

    /// Adds `r`, replacing the region of the same code if there is one.
    pub fn insert(&mut self, r: Region)
        requires
            old(self).wf(),
        ensures
            final(self).wf(),
            final(self).contents() == merge_step(old(self).contents(), r@),
    {
        let key = chars_of(r.code.as_str());
        let mut i = self.entries.len();
        while i > 0 && code_less(&key, &chars_of(self.entries[i - 1].code.as_str()))
            invariant
                i <= self.entries@.len(),
                self.wf(),
                forall|j: int| i <= j < self.entries@.len() ==> code_lt(key@, #[trigger] self.entries@[j].code@),
            decreases i,
        {
            i -= 1;
        }
        let ghost old_regions = self.regions();
        let ghost rv = r@;
        if i > 0 && !code_less(&chars_of(self.entries[i - 1].code.as_str()), &key) {
            proof {
                lemma_code_lt_total(key@, self.entries@[i - 1].code@);
            }
            self.entries.set(i - 1, r);
            let ghost p = i - 1;
            assert(self.regions() == old_regions.update(p as int, rv));
            assert forall|a: int, b: int| 0 <= a < b < self.regions().len() implies code_lt(
                #[trigger] self.regions()[a].code,
                #[trigger] self.regions()[b].code,
            ) by {
                assert(old_regions[a].code == self.regions()[a].code);
                assert(old_regions[b].code == self.regions()[b].code);
            }
            assert forall|x: RegionSpec| #[trigger] self.contents().contains(x) <==> merge_step(old_regions.to_set(), rv).contains(x) by {
                assert(self.contents().contains(x) == self.regions().contains(x));
                assert(old_regions.to_set().contains(x) == old_regions.contains(x));
                if self.contents().contains(x) {
                    let w = choose|w: int| 0 <= w < self.regions().len() && self.regions()[w] == x;
                    if w != p {
                        assert(old_regions[w] == x);
                        if x.code == rv.code {
                            assert(old_regions[p as int].code == rv.code);
                            if w < p {
                                assert(code_lt(old_regions[w].code, old_regions[p as int].code));
                            } else {
                                assert(code_lt(old_regions[p as int].code, old_regions[w].code));
                            }
                            lemma_code_lt_irreflexive(x.code);
                        }
                    }
                }
                if merge_step(old_regions.to_set(), rv).contains(x) {
                    if x == rv {
                        assert(self.regions()[p as int] == x);
                    } else {
                        let w = choose|w: int| 0 <= w < old_regions.len() && old_regions[w] == x;
                        assert(w != p);
                        assert(self.regions()[w] == x);
                    }
                }
            }
            assert(self.contents() =~= merge_step(old_regions.to_set(), rv));
        } else {
            self.entries.insert(i, r);
            assert(self.regions() == old_regions.insert(i as int, rv));
            assert forall|a: int, b: int| 0 <= a < b < self.regions().len() implies code_lt(
                #[trigger] self.regions()[a].code,
                #[trigger] self.regions()[b].code,
            ) by {
                if a < i && b == i {
                    lemma_code_lt_total(key@, old_regions[i - 1].code);
                    if a < i - 1 {
                        lemma_code_lt_transitive(old_regions[a].code, old_regions[i - 1].code, rv.code);
                    }
                } else if a < i && b > i {
                    assert(old_regions[b - 1].code == self.regions()[b].code);
                } else if a > i {
                    assert(old_regions[a - 1].code == self.regions()[a].code);
                    assert(old_regions[b - 1].code == self.regions()[b].code);
                } else if b < i {
                } else {
                    assert(a == i);
                    assert(old_regions[b - 1].code == self.regions()[b].code);
                }
            }
            assert forall|x: RegionSpec| #[trigger] self.contents().contains(x) <==> merge_step(old_regions.to_set(), rv).contains(x) by {
                assert(self.contents().contains(x) == self.regions().contains(x));
                assert(old_regions.to_set().contains(x) == old_regions.contains(x));
                if self.contents().contains(x) {
                    let w = choose|w: int| 0 <= w < self.regions().len() && self.regions()[w] == x;
                    if w < i {
                        assert(old_regions[w] == x);
                        if x.code == rv.code {
                            if w < i - 1 {
                                lemma_code_lt_transitive(x.code, old_regions[i - 1].code, rv.code);
                            }
                            lemma_code_lt_irreflexive(x.code);
                        }
                    } else if w > i {
                        assert(old_regions[w - 1] == x);
                        if x.code == rv.code {
                            lemma_code_lt_irreflexive(x.code);
                        }
                    }
                }
                if merge_step(old_regions.to_set(), rv).contains(x) {
                    if x == rv {
                        assert(self.regions()[i as int] == x);
                    } else {
                        let w = choose|w: int| 0 <= w < old_regions.len() && old_regions[w] == x;
                        if w < i {
                            assert(self.regions()[w] == x);
                        } else {
                            assert(self.regions()[w + 1] == x);
                        }
                    }
                }
            }
            assert(self.contents() =~= merge_step(old_regions.to_set(), rv));
        }
    }
}

} // verus!
