use vstd::prelude::*;
use vstd::string::StringExecFns;
use crate::catalog::RegionMap;
use crate::prefecture::{lemma_found_code_in_table, same_chars, lookup_label, prefecture_label, prefecture_table, prefectures, table_view};
use crate::region::{region_type_label, Region, RegionSpec, RegionType};
use crate::text::{chars_of, copy_range, push_char, push_chars};

verus! {

/// The header row of the catalog.
pub open spec fn header_line() -> Seq<char> {
    "STATE,STATE Name,CNTY,CNTY Name,Deleted,Valid Until,Type\n"@
}

/// How a flag is written: `true` or `false`.
pub open spec fn bool_text(b: bool) -> Seq<char> {
    if b {
        "true"@
    } else {
        "false"@
    }
}

/// The prefecture code of a region code: its first two characters.
pub open spec fn state_of(code: Seq<char>) -> Seq<char> {
    code.take(2)
}

/// The seven fields of a row joined by commas, with the closing newline.
pub open spec fn join_row(
    state: Seq<char>,
    label: Seq<char>,
    code: Seq<char>,
    name: Seq<char>,
    deleted: Seq<char>,
    valid_until: Seq<char>,
    kind: Seq<char>,
) -> Seq<char> {
    state + seq![','] + label + seq![','] + code + seq![','] + name + seq![','] + deleted + seq![
        ',',
    ] + valid_until + seq![','] + kind + seq!['\n']
}

/// The row of region `r`, or `None` where its code names no prefecture.
pub open spec fn row_spec(r: RegionSpec) -> Option<Seq<char>> {
    if r.code.len() < 2 {
        None
    } else {
        match prefecture_label(state_of(r.code)) {
            Some(label) => Some(
                join_row(
                    state_of(r.code),
                    label,
                    r.code,
                    r.name,
                    bool_text(r.deleted),
                    r.valid_until,
                    region_type_label(r.region_type),
                ),
            ),
            None => None,
        }
    }
}

/// Whether every region of `s` names a prefecture.
pub open spec fn all_mapped(s: Seq<RegionSpec>) -> bool {
    forall|i: int| 0 <= i < s.len() ==> (#[trigger] row_spec(s[i])) is Some
}

/// The rows of `s`, in order, one after the other.
pub open spec fn rows_text(s: Seq<RegionSpec>) -> Seq<char>
    decreases s.len(),
{
    if s.len() == 0 {
        seq![]
    } else {
        rows_text(s.drop_last()) + row_spec(s.last())->0
    }
}

/// The catalog text of the regions `s`: the header, then a row per region.
pub open spec fn csv_spec(s: Seq<RegionSpec>) -> Seq<char> {
    header_line() + rows_text(s)
}

/// Each data row begins with its prefecture code, which is the first two characters of
/// the region code that the row carries third and is a code of the prefecture table,
/// whose label the row carries second.
pub proof fn lemma_row_state(r: RegionSpec)
    requires
        row_spec(r) is Some,
    ensures
        r.code.len() >= 2,
        state_of(r.code) == r.code.subrange(0, 2),
        row_spec(r)->0 == join_row(
            state_of(r.code),
            prefecture_label(state_of(r.code))->0,
            r.code,
            r.name,
            bool_text(r.deleted),
            r.valid_until,
            region_type_label(r.region_type),
        ),
        exists|i: int|
            0 <= i < prefecture_table().len() && (#[trigger] prefecture_table()[i]) == (
                state_of(r.code),
                prefecture_label(state_of(r.code))->0,
            ),
{
    lemma_found_code_in_table(prefecture_table(), state_of(r.code));
}

/// A region whose code names no prefecture.
#[derive(Debug)]
pub struct LookupError {
    pub code: String,
}

/// Appends a flag as `true` or `false`.
fn push_bool(s: &mut String, b: bool)
    ensures
        final(s)@ == old(s)@ + bool_text(b),
{
    if b {
        s.append("true");
    } else {
        s.append("false");
    }
}

/// Appends the row of `r` to `out`, given the table of prefectures.
fn push_row(out: &mut String, r: &Region, table: &Vec<(String, String)>) -> (ok: bool)
    requires
        table_view(table@) == prefecture_table(),
    ensures
        ok == row_spec(r@) is Some,
        ok ==> final(out)@ == old(out)@ + row_spec(r@)->0,
{
    let code = chars_of(r.code.as_str());
    if code.len() < 2 {
        return false;
    }
    let state = copy_range(&code, 0, 2);
    assert(state@ == state_of(r.code@));
    let label = match lookup_label(table, &state) {
        Some(l) => l,
        None => {
            return false;
        },
    };
    let ghost before = out@;
    push_chars(out, &state, 0, 2);
    push_char(out, ',');
    out.append(label.as_str());
    push_char(out, ',');
    out.append(r.code.as_str());
    push_char(out, ',');
    out.append(r.name.as_str());
    push_char(out, ',');
    push_bool(out, r.deleted);
    push_char(out, ',');
    out.append(r.valid_until.as_str());
    push_char(out, ',');
    let kind = r.region_type.to_string();
    out.append(kind.as_str());
    push_char(out, '\n');
    assert(state@.subrange(0, 2) == state@);
    assert(out@ =~= before + join_row(
        state@,
        label@,
        r.code@,
        r.name@,
        bool_text(r.deleted),
        r.valid_until@,
        region_type_label(r.region_type),
    ));
    true
}

/// The catalog text of `map`: the header, then the row of each region in order of code.
/// Fails with the first region, in that order, whose code names no prefecture.
pub fn render(map: &RegionMap) -> (r: Result<String, LookupError>)
    ensures
        r is Ok <==> all_mapped(map.regions()),
        r matches Ok(s) ==> s@ == csv_spec(map.regions()),
        r matches Err(e) ==> exists|i: int|
            0 <= i < map.regions().len() && map.regions()[i].code == e.code@ && (#[trigger] row_spec(map.regions()[i])) is None
                && all_mapped(map.regions().take(i)),
{
    let table = prefectures();
    let mut out = String::from_str("STATE,STATE Name,CNTY,CNTY Name,Deleted,Valid Until,Type\n");
    let ghost regions = map.regions();
    let mut i: usize = 0;
    while i < map.entries.len()
        invariant
            i <= regions.len(),
            regions == map.regions(),
            table_view(table@) == prefecture_table(),
            all_mapped(regions.take(i as int)),
            out@ == header_line() + rows_text(regions.take(i as int)),
        decreases regions.len() - i,
    {
        let ghost prev = out@;
        if !push_row(&mut out, &map.entries[i], &table) {
            let code = map.entries[i].code.clone();
            assert(regions[i as int] == map.entries@[i as int]@);
            assert(row_spec(regions[i as int]) is None);
            return Err(LookupError { code });
        }
        assert(regions.take(i + 1).drop_last() == regions.take(i as int));
        assert(out@ == header_line() + rows_text(regions.take(i + 1)));
        i += 1;
    }
    assert(regions.take(i as int) == regions);
    Ok(out)
}

/// The length of the last comma-separated field of `s`.
pub open spec fn last_field_len(s: Seq<char>) -> nat
    decreases s.len(),
{
    if s.len() > 0 && s.last() != ',' {
        1 + last_field_len(s.drop_last())
    } else {
        0
    }
}

/// `s` cut at its last comma: what precedes it and the last field; `None` without comma.
pub open spec fn split_last(s: Seq<char>) -> Option<(Seq<char>, Seq<char>)> {
    let k = last_field_len(s);
    if k < s.len() {
        Some((s.take(s.len() - k - 1), s.skip(s.len() - k)))
    } else {
        None
    }
}

/// The flag written as `f`.
pub open spec fn bool_of(f: Seq<char>) -> Option<bool> {
    if f == "true"@ {
        Some(true)
    } else if f == "false"@ {
        Some(false)
    } else {
        None
    }
}

/// The region type written as `f`.
pub open spec fn region_type_of(f: Seq<char>) -> Option<RegionType> {
    if f == "City"@ {
        Some(RegionType::City)
    } else if f == "Gun"@ {
        Some(RegionType::Gun)
    } else if f == "Ku"@ {
        Some(RegionType::Ku)
    } else {
        None
    }
}

/// The region a catalog row describes, read from its last five fields: code, name,
/// deleted, valid-until and type. A final newline is ignored.
pub open spec fn row_region(line: Seq<char>) -> Option<RegionSpec> {
    let body = if line.len() > 0 && line.last() == '\n' {
        line.drop_last()
    } else {
        line
    };
    match split_last(body) {
        Some((r1, ty)) => match split_last(r1) {
            Some((r2, vu)) => match split_last(r2) {
                Some((r3, del)) => match split_last(r3) {
                    Some((r4, name)) => match split_last(r4) {
                        Some((_r5, code)) => match (bool_of(del), region_type_of(ty)) {
                            (Some(d), Some(t)) => Some(
                                RegionSpec {
                                    code,
                                    name,
                                    deleted: d,
                                    valid_until: vu,
                                    region_type: t,
                                },
                            ),
                            _ => None,
                        },
                        None => None,
                    },
                    None => None,
                },
                None => None,
            },
            None => None,
        },
        None => None,
    }
}

proof fn lemma_last_field_len_join(a: Seq<char>, b: Seq<char>)
    requires
        !b.contains(','),
    ensures
        last_field_len(a + seq![','] + b) == b.len(),
    decreases b.len(),
{
    let s = a + seq![','] + b;
    if b.len() == 0 {
        assert(s.last() == ',');
    } else {
        assert(s.last() == b.last());
        assert(b[b.len() - 1] == b.last());
        assert(!b.drop_last().contains(',')) by {
            if b.drop_last().contains(',') {
                let i = choose|i: int| 0 <= i < b.drop_last().len() && b.drop_last()[i] == ',';
                assert(b[i] == ',');
            }
        }
        if b.last() == ',' {
            assert(b.contains(b[b.len() - 1]));
        }
        assert(s.drop_last() == a + seq![','] + b.drop_last());
        lemma_last_field_len_join(a, b.drop_last());
    }
}

proof fn lemma_split_last_join(a: Seq<char>, b: Seq<char>)
    requires
        !b.contains(','),
    ensures
        split_last(a + seq![','] + b) == Some((a, b)),
{
    lemma_last_field_len_join(a, b);
    let s = a + seq![','] + b;
    assert(s.take(s.len() - b.len() - 1) == a);
    assert(s.skip(s.len() - b.len()) == b);
}

proof fn lemma_literals()
    ensures
        !"true"@.contains(','),
        !"false"@.contains(','),
        !"City"@.contains(','),
        !"Gun"@.contains(','),
        !"Ku"@.contains(','),
        "true"@ != "false"@,
        "City"@ != "Gun"@,
        "City"@ != "Ku"@,
        "Gun"@ != "Ku"@,
{
    reveal_strlit("true");
    reveal_strlit("false");
    reveal_strlit("City");
    reveal_strlit("Gun");
    reveal_strlit("Ku");
    assert("true"@[0] != "false"@[0]);
    assert("City"@.len() != "Gun"@.len());
    assert("City"@.len() != "Ku"@.len());
    assert("Gun"@.len() != "Ku"@.len());
}

/// Reading a row back gives the region that was written, where its code, name and
/// valid-until hold no comma (fields are written without quoting).
pub proof fn lemma_row_round_trip(r: RegionSpec)
    requires
        row_spec(r) is Some,
        !r.code.contains(','),
        !r.name.contains(','),
        !r.valid_until.contains(','),
    ensures
        row_region(row_spec(r)->0) == Some(r),
{
    lemma_literals();
    let state = state_of(r.code);
    let label = prefecture_label(state)->0;
    let del = bool_text(r.deleted);
    let kind = region_type_label(r.region_type);
    let a4 = state + seq![','] + label;
    let a3 = a4 + seq![','] + r.code;
    let a2 = a3 + seq![','] + r.name;
    let a1 = a2 + seq![','] + del;
    let a0 = a1 + seq![','] + r.valid_until;
    let body = a0 + seq![','] + kind;
    let line = row_spec(r)->0;
    assert(line =~= body + seq!['\n']);
    assert(line.drop_last() =~= body);
    lemma_split_last_join(a0, kind);
    lemma_split_last_join(a1, r.valid_until);
    lemma_split_last_join(a2, del);
    lemma_split_last_join(a3, r.name);
    lemma_split_last_join(a4, r.code);
}

/// The start of the last comma-separated field of `v[..hi]`.
fn field_start(v: &Vec<char>, hi: usize) -> (r: usize)
    requires
        hi <= v@.len(),
    ensures
        r == hi - last_field_len(v@.take(hi as int)),
        r > 0 ==> split_last(v@.take(hi as int)) == Some(
            (v@.take(r - 1), v@.subrange(r as int, hi as int)),
        ),
        r == 0 ==> split_last(v@.take(hi as int)) is None,
{
    let mut i = hi;
    while i > 0 && v[i - 1] != ','
        invariant
            i <= hi <= v@.len(),
            last_field_len(v@.take(hi as int)) == (hi - i) + last_field_len(v@.take(i as int)),
        decreases i,
    {
        assert(v@.take(i as int).drop_last() == v@.take(i - 1));
        i -= 1;
    }
    let ghost s = v@.take(hi as int);
    if i > 0 {
        assert(v@.take(i as int).last() == ',');
        assert(s.take(i - 1) == v@.take(i - 1));
        assert(s.skip(i as int) == v@.subrange(i as int, hi as int));
    }
    i
}

/// Reads a catalog row back into the region it describes, from its last five fields:
/// code, name, deleted (`true` or `false`), valid-until and type (`City`, `Gun` or `Ku`).
pub fn parse_row(line: &str) -> (r: Option<Region>)
    ensures
        r is Some <==> row_region(line@) is Some,
        r matches Some(x) ==> row_region(line@) == Some(x@),
{
    let v = chars_of(line);
    let n = if v.len() > 0 && v[v.len() - 1] == '\n' { v.len() - 1 } else { v.len() };
    assert(v@.take(n as int) == if line@.len() > 0 && line@.last() == '\n' {
        line@.drop_last()
    } else {
        line@
    });
    let t0 = field_start(&v, n);
    if t0 == 0 {
        return None;
    }
    let t1 = field_start(&v, t0 - 1);
    if t1 == 0 {
        return None;
    }
    let t2 = field_start(&v, t1 - 1);
    if t2 == 0 {
        return None;
    }
    let t3 = field_start(&v, t2 - 1);
    if t3 == 0 {
        return None;
    }
    let t4 = field_start(&v, t3 - 1);
    if t4 == 0 {
        return None;
    }
    let del = copy_range(&v, t2, t1 - 1);
    let deleted = if same_chars(&del, &chars_of("true")) {
        true
    } else if same_chars(&del, &chars_of("false")) {
        false
    } else {
        return None;
    };
    let ty = copy_range(&v, t0, n);
    let region_type = if same_chars(&ty, &chars_of("City")) {
        RegionType::City
    } else if same_chars(&ty, &chars_of("Gun")) {
        RegionType::Gun
    } else if same_chars(&ty, &chars_of("Ku")) {
        RegionType::Ku
    } else {
        return None;
    };
    let mut code = String::new();
    push_chars(&mut code, &v, t4, t3 - 1);
    let mut name = String::new();
    push_chars(&mut name, &v, t3, t2 - 1);
    let mut valid_until = String::new();
    push_chars(&mut valid_until, &v, t1, t0 - 1);
    Some(Region { code, name, deleted, valid_until, region_type })
}

} // verus!
