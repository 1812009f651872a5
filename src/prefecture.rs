use vstd::prelude::*;
use vstd::string::StringExecFns;
use crate::catalog::{code_less, lemma_code_lt_irreflexive, lemma_code_lt_total};
use crate::text::chars_of;

verus! {

/// A label is found only under a code that stands in the table.
pub proof fn lemma_found_code_in_table(t: Seq<(Seq<char>, Seq<char>)>, p: Seq<char>)
    requires
        find_label(t, p) is Some,
    ensures
        exists|i: int| 0 <= i < t.len() && (#[trigger] t[i]) == (p, find_label(t, p)->0),
    decreases t.len(),
{
    if t[0].0 != p {
        lemma_found_code_in_table(t.drop_first(), p);
        let i = choose|i: int| 0 <= i < t.drop_first().len() && (#[trigger] t.drop_first()[i]) == (p, find_label(t.drop_first(), p)->0);
        assert(t[i + 1] == t.drop_first()[i]);
    } else {
        assert(t[0] == (p, find_label(t, p)->0));
    }
}

/// The prefecture table: two-digit code and label, in ascending order of code.
pub open spec fn prefecture_table() -> Seq<(Seq<char>, Seq<char>)> {
    seq![
        ("01"@, "Hokkaido / 北海道"@),
        ("02"@, "Aomori / 青森"@),
        ("03"@, "Iwate / 岩手"@),
        ("04"@, "Akita / 秋田"@),
        ("05"@, "Yamagata / 山形"@),
        ("06"@, "Miyagi / 宮城"@),
        ("07"@, "Fukushima / 福島"@),
        ("08"@, "Niigata / 新潟"@),
        ("09"@, "Nagano / 長野"@),
        ("10"@, "Tokyo / 東京"@),
        ("11"@, "Kanagawa / 神奈川"@),
        ("12"@, "Chiba / 千葉"@),
        ("13"@, "Saitama / 埼玉"@),
        ("14"@, "Ibaraki / 茨城"@),
        ("15"@, "Tochigi / 栃木"@),
        ("16"@, "Gunma / 群馬"@),
        ("17"@, "Yamanashi / 山梨"@),
        ("18"@, "Shizuoka / 静岡"@),
        ("19"@, "Gifu / 岐阜"@),
        ("20"@, "Aichi / 愛知"@),
        ("21"@, "Triple / 三重"@),
        ("22"@, "Kyoto / 京都"@),
        ("23"@, "Shiga / 滋賀"@),
        ("24"@, "Nara / 奈良"@),
        ("25"@, "Osaka / 大阪"@),
        ("26"@, "Wakayama / 和歌山"@),
        ("27"@, "Hyogo / 兵庫"@),
        ("28"@, "Toyama / 富山"@),
        ("29"@, "Fukui / 福井"@),
        ("30"@, "Ishikawa / 石川"@),
        ("31"@, "Okayama / 岡山"@),
        ("32"@, "Shimane / 島根"@),
        ("33"@, "Yamaguchi / 山口"@),
        ("34"@, "Tottori / 鳥取"@),
        ("35"@, "Hiroshima / 広島"@),
        ("36"@, "Kagawa / 香川"@),
        ("37"@, "Tokushima / 徳島"@),
        ("38"@, "Ehime / 愛媛"@),
        ("39"@, "Kochi / 高知"@),
        ("40"@, "Fukuoka / 福岡"@),
        ("41"@, "Saga / 佐賀"@),
        ("42"@, "Nagasaki / 長崎"@),
        ("43"@, "Kumamoto / 熊本"@),
        ("44"@, "Oita / 大分"@),
        ("45"@, "Miyazaki / 宮崎"@),
        ("46"@, "Kagoshima / 鹿児島"@),
        ("47"@, "Okinawa / 沖縄"@),
    ]
}

/// The label of the first entry of `t` whose code is `p`.
pub open spec fn find_label(t: Seq<(Seq<char>, Seq<char>)>, p: Seq<char>) -> Option<Seq<char>>
    decreases t.len(),
{
    if t.len() == 0 {
        None
    } else if t[0].0 == p {
        Some(t[0].1)
    } else {
        find_label(t.drop_first(), p)
    }
}

/// The label of prefecture `p`, if `p` is one of the table's codes.
pub open spec fn prefecture_label(p: Seq<char>) -> Option<Seq<char>> {
    find_label(prefecture_table(), p)
}

/// The view of a table of string pairs.
pub open spec fn table_view(t: Seq<(String, String)>) -> Seq<(Seq<char>, Seq<char>)> {
    t.map_values(|e: (String, String)| (e.0@, e.1@))
}

/// The prefecture table, code and label of each of the 47 prefectures.
pub fn prefectures() -> (r: Vec<(String, String)>)
    ensures
        table_view(r@) == prefecture_table(),
{
    let mut t: Vec<(String, String)> = Vec::new();
    t.push((String::from_str("01"), String::from_str("Hokkaido / 北海道")));
    t.push((String::from_str("02"), String::from_str("Aomori / 青森")));
    t.push((String::from_str("03"), String::from_str("Iwate / 岩手")));
    t.push((String::from_str("04"), String::from_str("Akita / 秋田")));
    t.push((String::from_str("05"), String::from_str("Yamagata / 山形")));
    t.push((String::from_str("06"), String::from_str("Miyagi / 宮城")));
    t.push((String::from_str("07"), String::from_str("Fukushima / 福島")));
    t.push((String::from_str("08"), String::from_str("Niigata / 新潟")));
    t.push((String::from_str("09"), String::from_str("Nagano / 長野")));
    t.push((String::from_str("10"), String::from_str("Tokyo / 東京")));
    t.push((String::from_str("11"), String::from_str("Kanagawa / 神奈川")));
    t.push((String::from_str("12"), String::from_str("Chiba / 千葉")));
    t.push((String::from_str("13"), String::from_str("Saitama / 埼玉")));
    t.push((String::from_str("14"), String::from_str("Ibaraki / 茨城")));
    t.push((String::from_str("15"), String::from_str("Tochigi / 栃木")));
    t.push((String::from_str("16"), String::from_str("Gunma / 群馬")));
    t.push((String::from_str("17"), String::from_str("Yamanashi / 山梨")));
    t.push((String::from_str("18"), String::from_str("Shizuoka / 静岡")));
    t.push((String::from_str("19"), String::from_str("Gifu / 岐阜")));
    t.push((String::from_str("20"), String::from_str("Aichi / 愛知")));
    t.push((String::from_str("21"), String::from_str("Triple / 三重")));
    t.push((String::from_str("22"), String::from_str("Kyoto / 京都")));
    t.push((String::from_str("23"), String::from_str("Shiga / 滋賀")));
    t.push((String::from_str("24"), String::from_str("Nara / 奈良")));
    t.push((String::from_str("25"), String::from_str("Osaka / 大阪")));
    t.push((String::from_str("26"), String::from_str("Wakayama / 和歌山")));
    t.push((String::from_str("27"), String::from_str("Hyogo / 兵庫")));
    t.push((String::from_str("28"), String::from_str("Toyama / 富山")));
    t.push((String::from_str("29"), String::from_str("Fukui / 福井")));
    t.push((String::from_str("30"), String::from_str("Ishikawa / 石川")));
    t.push((String::from_str("31"), String::from_str("Okayama / 岡山")));
    t.push((String::from_str("32"), String::from_str("Shimane / 島根")));
    t.push((String::from_str("33"), String::from_str("Yamaguchi / 山口")));
    t.push((String::from_str("34"), String::from_str("Tottori / 鳥取")));
    t.push((String::from_str("35"), String::from_str("Hiroshima / 広島")));
    t.push((String::from_str("36"), String::from_str("Kagawa / 香川")));
    t.push((String::from_str("37"), String::from_str("Tokushima / 徳島")));
    t.push((String::from_str("38"), String::from_str("Ehime / 愛媛")));
    t.push((String::from_str("39"), String::from_str("Kochi / 高知")));
    t.push((String::from_str("40"), String::from_str("Fukuoka / 福岡")));
    t.push((String::from_str("41"), String::from_str("Saga / 佐賀")));
    t.push((String::from_str("42"), String::from_str("Nagasaki / 長崎")));
    t.push((String::from_str("43"), String::from_str("Kumamoto / 熊本")));
    t.push((String::from_str("44"), String::from_str("Oita / 大分")));
    t.push((String::from_str("45"), String::from_str("Miyazaki / 宮崎")));
    t.push((String::from_str("46"), String::from_str("Kagoshima / 鹿児島")));
    t.push((String::from_str("47"), String::from_str("Okinawa / 沖縄")));
    assert(table_view(t@) =~= prefecture_table());
    t
}

/// Whether two character sequences are equal.
pub fn same_chars(a: &Vec<char>, b: &Vec<char>) -> (r: bool)
    ensures
        r == (a@ == b@),
{
    proof {
        lemma_code_lt_total(a@, b@);
        lemma_code_lt_irreflexive(a@);
    }
    !code_less(a, b) && !code_less(b, a)
}

/// Looks up the label of code `p` in `table`.
pub fn lookup_label(table: &Vec<(String, String)>, p: &Vec<char>) -> (r: Option<String>)
    ensures
        r is Some <==> find_label(table_view(table@), p@) is Some,
        r matches Some(s) ==> find_label(table_view(table@), p@) == Some(s@),
{
    let mut i: usize = 0;
    assert(table_view(table@).skip(0) == table_view(table@));
    while i < table.len()
        invariant
            i <= table@.len(),
            find_label(table_view(table@), p@) == find_label(table_view(table@).skip(i as int), p@),
        decreases table@.len() - i,
    {
        assert(table_view(table@).skip(i as int).drop_first() == table_view(table@).skip(i + 1));
        if same_chars(&chars_of(table[i].0.as_str()), p) {
            return Some(table[i].1.clone());
        }
        i += 1;
    }
    None
}

} // verus!
