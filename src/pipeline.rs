use vstd::prelude::*;
use crate::catalog::{
    code_lt,
    lemma_code_lt_irreflexive, lemma_code_lt_transitive, sorted_by_code, RegionMap,
};
use crate::csv::{all_mapped, csv_spec, render, row_spec, LookupError};
use crate::load::{lines_of, load_regions, load_spec};
use crate::region::{RegionSpec, RegionType};
use crate::text::chars_of;

verus! {

/// The regions of the three lists merged: cities, then districts, then wards, a later
/// region replacing an earlier one of the same code.
pub open spec fn catalog_set(city: Seq<char>, gun: Seq<char>, ku: Seq<char>) -> Set<RegionSpec> {
    let m0 = load_spec(Set::empty(), lines_of(city), RegionType::City);
    let m1 = load_spec(m0, lines_of(gun), RegionType::Gun);
    load_spec(m1, lines_of(ku), RegionType::Ku)
}

/// Whether `s` lists the regions of `m` in ascending order of code.
pub open spec fn orders(s: Seq<RegionSpec>, m: Set<RegionSpec>) -> bool {
    sorted_by_code(s) && s.to_set() == m
}

/// The regions of `m` in ascending order of code.
pub open spec fn ordered(m: Set<RegionSpec>) -> Seq<RegionSpec> {
    choose|s: Seq<RegionSpec>| orders(s, m)
}

/// Two lists of regions in ascending order of code that hold the same regions are the
/// same list: the catalog text depends on the set of merged regions alone.
pub proof fn lemma_sorted_unique(a: Seq<RegionSpec>, b: Seq<RegionSpec>)
    requires
        sorted_by_code(a),
        sorted_by_code(b),
        a.to_set() == b.to_set(),
    ensures
        a == b,
    decreases a.len(),
{
    if a.len() == 0 {
        if b.len() > 0 {
            assert(b.contains(b[0]));
            assert(b.to_set().contains(b[0]));
        }
        assert(a =~= b);
    } else if b.len() == 0 {
        assert(a.contains(a[0]));
        assert(a.to_set().contains(a[0]));
    } else {
        assert(a.contains(a[0]));
        assert(a.to_set().contains(a[0]));
        assert(b.to_set().contains(a[0]));
        let j = choose|j: int| 0 <= j < b.len() && b[j] == a[0];
        assert(b.contains(b[0]));
        assert(b.to_set().contains(b[0]));
        assert(a.to_set().contains(b[0]));
        let k = choose|k: int| 0 <= k < a.len() && a[k] == b[0];
        if j > 0 {
            assert(code_lt_at(b, 0, j));
            if k > 0 {
                assert(code_lt_at(a, 0, k));
                lemma_code_lt_transitive(a[0].code, b[0].code, a[0].code);
            }
            lemma_code_lt_irreflexive(a[0].code);
        }
        assert(a[0] == b[0]);
        let at = a.drop_first();
        let bt = b.drop_first();
        assert forall|x: RegionSpec| #[trigger] at.to_set().contains(x) implies bt.to_set().contains(x) by {
            assert(at.contains(x));
            let i = choose|i: int| 0 <= i < at.len() && at[i] == x;
            assert(a[i + 1] == x);
            assert(a.contains(x));
            assert(a.to_set().contains(x));
            assert(b.to_set().contains(x));
            let m = choose|m: int| 0 <= m < b.len() && b[m] == x;
            if m == 0 {
                assert(code_lt_at(a, 0, i + 1));
                lemma_code_lt_irreflexive(x.code);
            }
            assert(bt[m - 1] == x);
            assert(bt.contains(x));
        }
        assert forall|x: RegionSpec| #[trigger] bt.to_set().contains(x) implies at.to_set().contains(x) by {
            assert(bt.contains(x));
            let i = choose|i: int| 0 <= i < bt.len() && bt[i] == x;
            assert(b[i + 1] == x);
            assert(b.contains(x));
            assert(b.to_set().contains(x));
            assert(a.to_set().contains(x));
            let m = choose|m: int| 0 <= m < a.len() && a[m] == x;
            if m == 0 {
                assert(code_lt_at(b, 0, i + 1));
                lemma_code_lt_irreflexive(x.code);
            }
            assert(at[m - 1] == x);
            assert(at.contains(x));
        }
        assert(at.to_set() =~= bt.to_set());
        assert forall|p: int, q: int| 0 <= p < q < at.len() implies code_lt(
            #[trigger] at[p].code,
            #[trigger] at[q].code,
        ) by {
            assert(code_lt_at(a, p + 1, q + 1));
        }
        assert forall|p: int, q: int| 0 <= p < q < bt.len() implies code_lt(
            #[trigger] bt[p].code,
            #[trigger] bt[q].code,
        ) by {
            assert(code_lt_at(b, p + 1, q + 1));
        }
        lemma_sorted_unique(at, bt);
        assert(a =~= seq![a[0]] + at);
        assert(b =~= seq![b[0]] + bt);
    }
}

spec fn code_lt_at(s: Seq<RegionSpec>, i: int, j: int) -> bool {
    code_lt(s[i].code, s[j].code)
}

/// The catalog of three decoded lists (cities, districts, wards): the header, then the
/// row of each merged region in ascending order of code. Fails with the first region, in
/// that order, whose code names no prefecture.
pub fn catalog_from_text(city: &str, gun: &str, ku: &str) -> (r: Result<String, LookupError>)
    ensures
        sorted_by_code(ordered(catalog_set(city@, gun@, ku@))),
        ordered(catalog_set(city@, gun@, ku@)).to_set() == catalog_set(city@, gun@, ku@),
        r is Ok <==> all_mapped(ordered(catalog_set(city@, gun@, ku@))),
        r matches Ok(s) ==> s@ == csv_spec(ordered(catalog_set(city@, gun@, ku@))),
        r matches Err(e) ==> exists|i: int|
            0 <= i < ordered(catalog_set(city@, gun@, ku@)).len()
                && ordered(catalog_set(city@, gun@, ku@))[i].code == e.code@
                && (#[trigger] row_spec(ordered(catalog_set(city@, gun@, ku@))[i])) is None
                && all_mapped(ordered(catalog_set(city@, gun@, ku@)).take(i)),
{
    let mut map = RegionMap::new();
    assert(map.contents() =~= Set::<RegionSpec>::empty());
    load_regions(&mut map, &chars_of(city), RegionType::City);
    load_regions(&mut map, &chars_of(gun), RegionType::Gun);
    load_regions(&mut map, &chars_of(ku), RegionType::Ku);
    proof {
        let m = catalog_set(city@, gun@, ku@);
        assert(orders(map.regions(), m));
        let o = ordered(m);
        lemma_sorted_unique(map.regions(), o);
    }
    render(&map)
}

} // verus!
