use vstd::prelude::*;
use crate::region::{Region, RegionSpec, RegionType};
use crate::text::push_chars;
use crate::text::push_char;

verus! {

/// Field separator: an ASCII space or tab.
pub open spec fn is_ws(c: char) -> bool {
    c == ' ' || c == '\t'
}

/// An ASCII decimal digit.
pub open spec fn is_digit(c: char) -> bool {
    48 <= (c as u32) <= 57
}

/// The deletion marker of the ward list: U+203B REFERENCE MARK.
pub open spec fn is_reference_mark(c: char) -> bool {
    (c as u32) == 0x203B
}

/// The end of the run of separators that starts at `i`.
pub open spec fn ws_end(s: Seq<char>, i: int) -> int
    decreases s.len() - i,
{
    if 0 <= i < s.len() && is_ws(s[i]) {
        ws_end(s, i + 1)
    } else {
        i
    }
}

/// The end of the run of non-separators that starts at `i`.
pub open spec fn run_end(s: Seq<char>, i: int) -> int
    decreases s.len() - i,
{
    if 0 <= i < s.len() && !is_ws(s[i]) {
        run_end(s, i + 1)
    } else {
        i
    }
}

/// The end of the run of digits that starts at `i`.
pub open spec fn digit_end(s: Seq<char>, i: int) -> int
    decreases s.len() - i,
{
    if 0 <= i < s.len() && is_digit(s[i]) {
        digit_end(s, i + 1)
    } else {
        i
    }
}

/// The captures of a matched line; `valid_until` is empty when absent.
pub struct LineFields {
    pub deleted: bool,
    pub num: Seq<char>,
    pub name: Seq<char>,
    pub kanji: Seq<char>,
    pub valid_until: Seq<char>,
}

/// The city and district grammar:
/// `"*"? WS+ digits WS+ name WS+ kanji (WS+ valid_until)? WS*`, anchored at both ends.
pub open spec fn city_fields(s: Seq<char>) -> Option<LineFields> {
    let deleted = s.len() > 0 && s[0] == '*';
    let a: int = if deleted { 1 } else { 0 };
    let b = ws_end(s, a);
    let c = run_end(s, b);
    let e = ws_end(s, c);
    let f = run_end(s, e);
    let g = ws_end(s, f);
    let h = run_end(s, g);
    let i = ws_end(s, h);
    let j = run_end(s, i);
    let k = ws_end(s, j);
    if a < b && b < c && digit_end(s, b) == c && c < e && e < f && f < g && g < h && k
        == s.len() {
        Some(
            LineFields {
                deleted,
                num: s.subrange(b, c),
                name: s.subrange(e, f),
                kanji: s.subrange(g, h),
                valid_until: s.subrange(i, j),
            },
        )
    } else {
        None
    }
}

/// The ward grammar:
/// `digits ("※" | WS+) name WS+ kanji (WS+ valid_until)?`, anchored at both ends.
pub open spec fn ku_fields(s: Seq<char>) -> Option<LineFields> {
    let b = digit_end(s, 0);
    let deleted = b < s.len() && is_reference_mark(s[b]);
    let e = if deleted { b + 1 } else { ws_end(s, b) };
    let f = run_end(s, e);
    let g = ws_end(s, f);
    let h = run_end(s, g);
    let i = ws_end(s, h);
    let j = run_end(s, i);
    if 0 < b && b < e && e < f && f < g && g < h && j == s.len() && (i == h || i < j) {
        Some(
            LineFields {
                deleted,
                num: s.subrange(0, b),
                name: s.subrange(e, f),
                kanji: s.subrange(g, h),
                valid_until: s.subrange(i, j),
            },
        )
    } else {
        None
    }
}

/// The grammar of the list that holds regions of type `t`.
pub open spec fn line_fields(s: Seq<char>, t: RegionType) -> Option<LineFields> {
    match t {
        RegionType::Ku => ku_fields(s),
        _ => city_fields(s),
    }
}

/// The region built from the captures of a line of the list of type `t`.
pub open spec fn region_of(f: LineFields, t: RegionType) -> RegionSpec {
    RegionSpec {
        code: f.num,
        name: f.name + seq![' ', '/', ' '] + f.kanji,
        deleted: f.deleted,
        valid_until: f.valid_until,
        region_type: t,
    }
}

/// The region that a line of the list of type `t` yields, if it matches.
pub open spec fn parse_line_spec(s: Seq<char>, t: RegionType) -> Option<RegionSpec> {
    match line_fields(s, t) {
        Some(f) => Some(region_of(f, t)),
        None => None,
    }
}

fn skip_ws(s: &Vec<char>, lo: usize, hi: usize) -> (r: usize)
    requires
        lo <= hi == s@.len(),
    ensures
        r == ws_end(s@, lo as int),
        lo <= r <= hi,
{
    let mut i = lo;
    while i < hi && (s[i] == ' ' || s[i] == '\t')
        invariant
            lo <= i <= hi == s@.len(),
            ws_end(s@, i as int) == ws_end(s@, lo as int),
        decreases hi - i,
    {
        i += 1;
    }
    i
}

fn skip_run(s: &Vec<char>, lo: usize, hi: usize) -> (r: usize)
    requires
        lo <= hi == s@.len(),
    ensures
        r == run_end(s@, lo as int),
        lo <= r <= hi,
{
    let mut i = lo;
    while i < hi && !(s[i] == ' ' || s[i] == '\t')
        invariant
            lo <= i <= hi == s@.len(),
            run_end(s@, i as int) == run_end(s@, lo as int),
        decreases hi - i,
    {
        i += 1;
    }
    i
}

fn skip_digits(s: &Vec<char>, lo: usize, hi: usize) -> (r: usize)
    requires
        lo <= hi == s@.len(),
    ensures
        r == digit_end(s@, lo as int),
        lo <= r <= hi,
{
    let mut i = lo;
    while i < hi && (s[i] as u32) >= 48 && (s[i] as u32) <= 57
        invariant
            lo <= i <= hi == s@.len(),
            digit_end(s@, i as int) == digit_end(s@, lo as int),
        decreases hi - i,
    {
        i += 1;
    }
    i
}

/// Builds the region from the field bounds found on `s`.
fn build_region(
    s: &Vec<char>,
    deleted: bool,
    num: (usize, usize),
    name: (usize, usize),
    kanji: (usize, usize),
    until: (usize, usize),
    t: RegionType,
) -> (r: Region)
    requires
        num.0 <= num.1 <= s@.len(),
        name.0 <= name.1 <= s@.len(),
        kanji.0 <= kanji.1 <= s@.len(),
        until.0 <= until.1 <= s@.len(),
    ensures
        r@ == region_of(
            LineFields {
                deleted,
                num: s@.subrange(num.0 as int, num.1 as int),
                name: s@.subrange(name.0 as int, name.1 as int),
                kanji: s@.subrange(kanji.0 as int, kanji.1 as int),
                valid_until: s@.subrange(until.0 as int, until.1 as int),
            },
            t,
        ),
{
    let mut code = String::new();
    push_chars(&mut code, s, num.0, num.1);
    let mut label = String::new();
    push_chars(&mut label, s, name.0, name.1);
    push_char(&mut label, ' ');
    push_char(&mut label, '/');
    push_char(&mut label, ' ');
    push_chars(&mut label, s, kanji.0, kanji.1);
    let mut valid_until = String::new();
    push_chars(&mut valid_until, s, until.0, until.1);
    let ghost nm = s@.subrange(name.0 as int, name.1 as int);
    assert(label@ == nm + seq![' ', '/', ' '] + s@.subrange(kanji.0 as int, kanji.1 as int));
    Region { code, name: label, deleted, valid_until, region_type: t }
}

/// Applies the city and district grammar to one line.
pub fn parse_city_line(s: &Vec<char>, t: RegionType) -> (r: Option<Region>)
    ensures
        r matches Some(x) ==> city_fields(s@) matches Some(f) && x@ == region_of(f, t),
        r is None ==> city_fields(s@) is None,
{
    let n = s.len();
    let deleted = n > 0 && s[0] == '*';
    let a: usize = if deleted { 1 } else { 0 };
    let b = skip_ws(s, a, n);
    let c = skip_run(s, b, n);
    let e = skip_ws(s, c, n);
    let f = skip_run(s, e, n);
    let g = skip_ws(s, f, n);
    let h = skip_run(s, g, n);
    let i = skip_ws(s, h, n);
    let j = skip_run(s, i, n);
    let k = skip_ws(s, j, n);
    if a < b && b < c && skip_digits(s, b, n) == c && c < e && e < f && f < g && g < h && k == n {
        Some(build_region(s, deleted, (b, c), (e, f), (g, h), (i, j), t))
    } else {
        None
    }
}

/// Applies the ward grammar to one line.
pub fn parse_ku_line(s: &Vec<char>) -> (r: Option<Region>)
    ensures
        r matches Some(x) ==> ku_fields(s@) matches Some(f) && x@ == region_of(f, RegionType::Ku),
        r is None ==> ku_fields(s@) is None,
{
    let n = s.len();
    let b = skip_digits(s, 0, n);
    let deleted = b < n && (s[b] as u32) == 0x203B;
    let e = if deleted { b + 1 } else { skip_ws(s, b, n) };
    let f = skip_run(s, e, n);
    let g = skip_ws(s, f, n);
    let h = skip_run(s, g, n);
    let i = skip_ws(s, h, n);
    let j = skip_run(s, i, n);
    if 0 < b && b < e && e < f && f < g && g < h && j == n && (i == h || i < j) {
        Some(build_region(s, deleted, (0, b), (e, f), (g, h), (i, j), RegionType::Ku))
    } else {
        None
    }
}

/// Applies the grammar of the list of type `t` to one line.
pub fn parse_line(s: &Vec<char>, t: RegionType) -> (r: Option<Region>)
    ensures
        r is Some <==> parse_line_spec(s@, t) is Some,
        r matches Some(x) ==> parse_line_spec(s@, t) == Some(x@),
{
    match t {
        RegionType::Ku => parse_ku_line(s),
        _ => parse_city_line(s, t),
    }
}

} // verus!
