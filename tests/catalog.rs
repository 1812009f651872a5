use encoding::all::WINDOWS_31J;
use encoding::{EncoderTrap, Encoding};
use jcc_catalog::catalog::RegionMap;
use jcc_catalog::csv::{parse_row, render};
use jcc_catalog::decode::load_encoded;
use jcc_catalog::grammar::parse_line;
use jcc_catalog::pipeline::catalog_from_text;
use jcc_catalog::prefecture::prefectures;
use jcc_catalog::region::{Region, RegionType};

const HEADER: &str = "STATE,STATE Name,CNTY,CNTY Name,Deleted,Valid Until,Type\n";

fn chars(s: &str) -> Vec<char> {
    s.chars().collect()
}

fn rows(out: &str) -> Vec<&str> {
    assert!(out.starts_with(HEADER));
    out[HEADER.len()..].lines().collect()
}

#[test]
fn city_normal_line() {
    let out = catalog_from_text("  100201  Sapporo  札幌市", "", "").unwrap();
    assert_eq!(rows(&out), vec!["10,Tokyo / 東京,100201,Sapporo / 札幌市,false,,City"]);
}

#[test]
fn city_deleted_with_valid_until() {
    let out = catalog_from_text("*  100101  Sapporo  札幌市  2006-03-05", "", "").unwrap();
    assert_eq!(
        rows(&out),
        vec!["10,Tokyo / 東京,100101,Sapporo / 札幌市,true,2006-03-05,City"]
    );
}

#[test]
fn ku_deleted_with_reference_mark() {
    let out = catalog_from_text("", "", "100110※Chuo  中央区").unwrap();
    assert_eq!(rows(&out), vec!["10,Tokyo / 東京,100110,Chuo / 中央区,true,,Ku"]);
}

#[test]
fn ku_not_deleted() {
    let out = catalog_from_text("", "", "100110  Chuo  中央区").unwrap();
    assert_eq!(rows(&out), vec!["10,Tokyo / 東京,100110,Chuo / 中央区,false,,Ku"]);
}

#[test]
fn unmatched_line_gives_no_row() {
    let out = catalog_from_text("=== JCC LIST 2023 ===", "=== JCC LIST 2023 ===", "=== JCC LIST 2023 ===")
        .unwrap();
    assert_eq!(out, HEADER);
    assert!(parse_line(&chars("=== JCC LIST 2023 ==="), RegionType::City).is_none());
    assert!(parse_line(&chars("=== JCC LIST 2023 ==="), RegionType::Ku).is_none());
}

#[test]
fn collision_keeps_the_ward() {
    let out = catalog_from_text("  100110  Chuo  中央市", "", "100110  Chuo  中央区").unwrap();
    assert_eq!(rows(&out), vec!["10,Tokyo / 東京,100110,Chuo / 中央区,false,,Ku"]);
}

#[test]
fn district_list_uses_city_grammar() {
    let out = catalog_from_text("", "  01001  Ishikari  石狩郡", "").unwrap();
    assert_eq!(rows(&out), vec!["01,Hokkaido / 北海道,01001,Ishikari / 石狩郡,false,,Gun"]);
}

#[test]
fn later_list_overwrites_earlier() {
    let out = catalog_from_text("  1001  A  甲", "  1001  B  乙", "").unwrap();
    assert_eq!(rows(&out), vec!["10,Tokyo / 東京,1001,B / 乙,false,,Gun"]);
}

#[test]
fn later_line_overwrites_earlier_in_one_list() {
    let out = catalog_from_text("  1001  A  甲\n  1001  B  乙\n", "", "").unwrap();
    assert_eq!(rows(&out), vec!["10,Tokyo / 東京,1001,B / 乙,false,,City"]);
}

#[test]
fn rows_in_ascending_order_of_code() {
    let city = "header\n  4701  Naha  那覇市\r\n  0101  Sapporo  札幌市\n\n  2101  Tsu  津市  2000-01-01  \n";
    let ku = "100110  Chuo  中央区\n1001105  X  甲\n";
    let out = catalog_from_text(city, "", ku).unwrap();
    assert_eq!(
        rows(&out),
        vec![
            "01,Hokkaido / 北海道,0101,Sapporo / 札幌市,false,,City",
            "10,Tokyo / 東京,100110,Chuo / 中央区,false,,Ku",
            "10,Tokyo / 東京,1001105,X / 甲,false,,Ku",
            "21,Triple / 三重,2101,Tsu / 津市,false,2000-01-01,City",
            "47,Okinawa / 沖縄,4701,Naha / 那覇市,false,,City",
        ]
    );
}

#[test]
fn one_row_per_matched_line() {
    let city = "  1001  A  甲\nnoise\n  1002  B  乙\n*  1003  C  丙  x\n";
    let out = catalog_from_text(city, "", "").unwrap();
    assert_eq!(rows(&out).len(), 3);
}

#[test]
fn same_input_same_output() {
    let city = "  4701  Naha  那覇市\n  0101  Sapporo  札幌市\n";
    let a = catalog_from_text(city, "  0102  G  郡", "0103※K  区").unwrap();
    let b = catalog_from_text(city, "  0102  G  郡", "0103※K  区").unwrap();
    assert_eq!(a, b);
}

#[test]
fn unknown_prefecture_is_an_error() {
    let err = catalog_from_text("  4801  X  甲\n  9901  Y  乙", "", "").unwrap_err();
    assert_eq!(err.code, "4801");
    let err = catalog_from_text("  0001  X  甲", "", "").unwrap_err();
    assert_eq!(err.code, "0001");
    let err = catalog_from_text("  1  X  甲", "", "").unwrap_err();
    assert_eq!(err.code, "1");
}

#[test]
fn region_type_labels() {
    assert_eq!(RegionType::City.to_string(), "City");
    assert_eq!(RegionType::Gun.to_string(), "Gun");
    assert_eq!(RegionType::Ku.to_string(), "Ku");
}

#[test]
fn prefecture_table_contents() {
    let t = prefectures();
    assert_eq!(t.len(), 47);
    assert_eq!(t[0], ("01".to_string(), "Hokkaido / 北海道".to_string()));
    assert_eq!(t[20], ("21".to_string(), "Triple / 三重".to_string()));
    assert_eq!(t[46], ("47".to_string(), "Okinawa / 沖縄".to_string()));
    for (i, (code, _)) in t.iter().enumerate() {
        assert_eq!(*code, format!("{:02}", i + 1));
    }
}

#[test]
fn parse_line_fields() {
    let r: Region = parse_line(&chars("*\t100101 Sapporo\t札幌市 2006-03-05 "), RegionType::City).unwrap();
    assert_eq!(r.code, "100101");
    assert_eq!(r.name, "Sapporo / 札幌市");
    assert!(r.deleted);
    assert_eq!(r.valid_until, "2006-03-05");
    assert_eq!(r.region_type, RegionType::City);
}

#[test]
fn grammar_edge_cases() {
    let city = |s: &str| parse_line(&chars(s), RegionType::City).is_some();
    let ku = |s: &str| parse_line(&chars(s), RegionType::Ku).is_some();
    assert!(!city(""));
    assert!(!city("100201  Sapporo  札幌市"));
    assert!(!city("*100201  Sapporo  札幌市"));
    assert!(!city("  10a201  Sapporo  札幌市"));
    assert!(!city("  100201  Sapporo"));
    assert!(!city("  100201  Sapporo  札幌市  2006  extra"));
    assert!(ku("100110  Chuo  中央区  2006-03-05"));
    assert!(!ku("100110  Chuo  中央区 "));
    assert!(!ku(" 100110  Chuo  中央区"));
    assert!(!ku("100110※ Chuo  中央区"));
    assert!(!ku("100110Chuo  中央区"));
    assert!(!ku("※Chuo  中央区"));
}

#[test]
fn grammar_agrees_with_regex() {
    let city_re = regex::Regex::new(r"^(?P<deleted>[*]?)\s+(?P<num>\d+)\s+(?P<name>\S+)\s+(?P<kanji>\S+)(\s+(?P<valid_until>\S+))?\s*$").unwrap();
    let ku_re = regex::Regex::new(r"^(?P<num>\d+)((?P<deleted>※)|\s+)(?P<name>\S+)\s+(?P<kanji>\S+)(\s+(?P<valid_until>\S+))?$").unwrap();
    let lines = [
        "  100201  Sapporo  札幌市",
        "*  100101  Sapporo  札幌市  2006-03-05",
        "*  100101  Sapporo  札幌市  2006-03-05  ",
        "\t1\tA\tB",
        "*1 A B",
        "  1 A",
        "  1 A B C D",
        "=== JCC LIST 2023 ===",
        "100110※Chuo  中央区",
        "100110  Chuo  中央区",
        "100110  Chuo  中央区  1999",
        "100110※※Chuo  中央区",
        "100110※Chuo",
        "",
        "  ",
        "*",
    ];
    for line in lines {
        for (re, t) in [(&city_re, RegionType::City), (&ku_re, RegionType::Ku)] {
            let ours = parse_line(&chars(line), t);
            match re.captures(line) {
                None => assert!(ours.is_none(), "{line:?}"),
                Some(c) => {
                    let r = ours.expect(line);
                    assert_eq!(r.code, &c["num"]);
                    assert_eq!(r.name, format!("{} / {}", &c["name"], &c["kanji"]));
                    assert_eq!(r.deleted, c.name("deleted").map_or(false, |d| !d.as_str().is_empty()));
                    assert_eq!(r.valid_until, c.name("valid_until").map_or("", |m| m.as_str()));
                }
            }
        }
    }
}

#[test]
fn load_encoded_decodes_shift_jis() {
    let bytes = WINDOWS_31J.encode("header\r\n100110※Chuo  中央区\r\n", EncoderTrap::Strict).unwrap();
    assert_ne!(bytes, "100110※Chuo  中央区".as_bytes());
    let mut map = RegionMap::new();
    load_encoded(&mut map, &bytes, RegionType::Ku).unwrap();
    let out = render(&map).unwrap();
    assert_eq!(rows(&out), vec!["10,Tokyo / 東京,100110,Chuo / 中央区,true,,Ku"]);
}

#[test]
fn load_encoded_rejects_invalid_bytes() {
    let mut map = RegionMap::new();
    assert!(load_encoded(&mut map, &[0x31, 0x81, 0x20, 0xFF], RegionType::City).is_err());
    assert!(map.entries.is_empty());
}

#[test]
fn row_round_trip() {
    let out = catalog_from_text("*  100101  Sapporo  札幌市  2006-03-05", "  0102  G  郡", "100110※Chuo  中央区").unwrap();
    let rows = rows(&out);
    assert_eq!(rows.len(), 3);
    let r = parse_row(rows[0]).unwrap();
    assert_eq!(
        (r.code.as_str(), r.name.as_str(), r.deleted, r.valid_until.as_str(), r.region_type),
        ("0102", "G / 郡", false, "", RegionType::Gun)
    );
    let r = parse_row(&format!("{}\n", rows[1])).unwrap();
    assert_eq!(
        (r.code.as_str(), r.name.as_str(), r.deleted, r.valid_until.as_str(), r.region_type),
        ("100101", "Sapporo / 札幌市", true, "2006-03-05", RegionType::City)
    );
    let r = parse_row(rows[2]).unwrap();
    assert_eq!(
        (r.code.as_str(), r.name.as_str(), r.deleted, r.valid_until.as_str(), r.region_type),
        ("100110", "Chuo / 中央区", true, "", RegionType::Ku)
    );
}

#[test]
fn parse_row_rejects_malformed() {
    assert!(parse_row("").is_none());
    assert!(parse_row("STATE,STATE Name,CNTY,CNTY Name,Deleted,Valid Until,Type").is_none());
    assert!(parse_row("100110,Chuo / 中央区,true,,Ku").is_none());
    assert!(parse_row("10,Tokyo / 東京,100110,Chuo / 中央区,yes,,Ku").is_none());
    assert!(parse_row("10,Tokyo / 東京,100110,Chuo / 中央区,true,,Town").is_none());
}
