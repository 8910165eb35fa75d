//! Values: JSON, doubles and texts.

use hk_api::body::only;
use hk_api::double::{at_most_zero, keep_finite, parse_real, Real};
use hk_api::json::{from_value, list, parse, parse_located, Fields, Json, Num};
use hk_api::ordered::stands_before;
use hk_api::params::find_stray;
use hk_api::text::{
    number, parse_unsigned, replace_text, signed_number, split, split_once,
    split_once_text, strip_prefix, strip_suffix, take_chars, trim, utf8,
};

fn real_of(x: f64) -> Real {
    Real { bits: x.to_bits() }
}

#[test]
fn json_is_read_as_it_is_written() {
    let v = parse(br#"{"a": [1, -2, 2.5, true, null, "x"], "b": {}}"#).unwrap();
    let a = v.get("a").unwrap();
    assert_eq!(
        a,
        &Json::Array(vec![
            Json::Number(Num::U(1)),
            Json::Number(Num::I(-2)),
            Json::Number(Num::R(real_of(2.5))),
            Json::Bool(true),
            Json::Null,
            Json::Text("x".to_owned()),
        ])
    );
    assert_eq!(v.get("b"), Some(&Json::Object(vec![])));
    assert_eq!(v.get("c"), None);
    assert_eq!(v.copy(), v);
    assert!(parse(b"{").is_err());
    assert_eq!(parse_located(b"\n x").err(), Some((2, 2)));
}

#[test]
fn json_values_are_taken_over_whole() {
    let v = from_value(serde_json::Value::Array(vec![
        serde_json::Value::from(7u64),
        serde_json::Value::from("t"),
    ]));
    assert_eq!(v, Json::Array(vec![Json::uint(7), Json::text("t")]));
}

#[test]
fn json_numbers_are_read_by_their_kind() {
    let n = |t: &str| parse(t.as_bytes()).unwrap();
    assert_eq!(n("3").as_double(), Some(real_of(3.0)));
    assert_eq!(n("-3").as_double(), Some(real_of(-3.0)));
    assert_eq!(n("18446744073709551615").unsigned(), Some(u64::MAX));
    assert_eq!(n("18446744073709551615").as_double(), Some(real_of(18446744073709551615.0)));
    for i in [1i64, 2, 3, 840, -841, 65_537, (1 << 53) - 1, 1 - (1 << 53)] {
        assert_eq!(n(&format!("{i}")).as_double(), Some(real_of(i as f64)), "{i}");
    }
    assert_eq!(n("-1").unsigned(), None);
    assert_eq!(n("-1").signed(), Some(-1));
    assert_eq!(n("1.5").signed(), None);
    assert_eq!(n("\"a\"").string(), Some("a"));
}

#[test]
fn a_member_set_again_keeps_its_place() {
    let mut f = Fields::new();
    f.put("a", Json::uint(1));
    f.put("b", Json::uint(2));
    f.set("a".to_owned(), Json::uint(3));
    f.set("c".to_owned(), Json::uint(4));
    let v = f.object();
    assert_eq!(v, parse(br#"{"a": 3, "b": 2, "c": 4}"#).unwrap());
    assert_eq!(
        list(&vec!["x".to_owned()]),
        Json::Array(vec![Json::Text("x".to_owned())])
    );
}

#[test]
fn doubles_compare_as_numbers() {
    let values = [f64::NEG_INFINITY, -2.5, -1e-300, -0.0, 0.0, 1e-300, 1.0, 2.0, f64::INFINITY];
    for a in values {
        for b in values {
            assert_eq!(real_of(a).lt(real_of(b)), a < b, "{a} < {b}");
            assert_eq!(real_of(a).le(real_of(b)), a <= b, "{a} <= {b}");
        }
    }
    let nan = real_of(f64::NAN);
    assert!(!nan.lt(real_of(1.0)) && !nan.le(nan) && !nan.is_finite());
    assert!(!real_of(f64::INFINITY).is_finite());
    assert_eq!(keep_finite(f64::NAN.to_bits()), None);
    assert_eq!(real_of(30.0).whole(), Some(30));
    assert_eq!(real_of(-840.0).whole(), Some(-840));
    assert_eq!(real_of(1.5).whole(), None);
    assert_eq!(real_of(-0.0).whole(), Some(0));
}

#[test]
fn doubles_are_read_from_their_text() {
    assert_eq!(parse_real("1e6"), Some(real_of(1e6)));
    assert_eq!(parse_real("-0.1"), Some(real_of(-0.1)));
    assert_eq!(parse_real("inf"), None);
    assert_eq!(parse_real("NaN"), None);
    assert_eq!(parse_real("x"), None);
    assert!(at_most_zero("0"));
    assert!(at_most_zero("0.000"));
    assert!(at_most_zero("-1"));
    assert!(!at_most_zero("0.001"));
    assert!(!at_most_zero("1.000"));
    assert!(!at_most_zero("0.5"));
    assert!(!at_most_zero("x"));
}

#[test]
fn texts_are_cut_and_joined() {
    assert_eq!(number(0), "0");
    assert_eq!(number(u64::MAX), "18446744073709551615");
    assert_eq!(signed_number(-50), "-50");
    assert_eq!(signed_number(i64::MIN), "-9223372036854775808");
    assert_eq!(parse_unsigned("007", 10), Some(7));
    assert_eq!(parse_unsigned("11", 10), None);
    assert_eq!(parse_unsigned("", 10), None);
    assert_eq!(parse_unsigned("18446744073709551616", u64::MAX), None);
    assert_eq!(split("a;b;", ';'), vec!["a", "b", ""]);
    assert_eq!(split_once("a=b=c", '='), Some(("a", "b=c")));
    assert_eq!(split_once_text("a::b::c", "::"), Some(("a", "b::c")));
    assert_eq!(strip_prefix("abc", "ab"), Some("c"));
    assert_eq!(strip_suffix("abc", "bc"), Some("a"));
    assert_eq!(take_chars("éab", 2), "éa");
    assert_eq!(trim(" \t\u{3000}x\n"), "x");
    assert_eq!(utf8(vec![0xc3, 0xa9]).as_deref(), Some("é"));
    assert_eq!(utf8(vec![0xff]), None);
    assert_eq!(replace_text("%3A%3A%3", "%3A", ':'), "::%3");
}

#[test]
fn texts_are_ordered_as_std_orders_them() {
    let words = ["", "a", "aa", "ab", "b", "é", "z", "zz"];
    for a in words {
        for b in words {
            assert_eq!(stands_before(a, b), a < b, "{a} {b}");
        }
    }
}

#[test]
fn names_are_quoted_where_they_are_refused() {
    let body = vec![("a\"b\n".to_owned(), Json::Null)];
    assert_eq!(
        only(&body, &["x"]).err().unwrap().message,
        "unknown field \"a\\\"b\\n\" (allowed: x)"
    );
}

#[test]
fn stray_parameters_are_named() {
    let q = vec![("a".to_owned(), String::new()), ("b".to_owned(), String::new())];
    assert_eq!(find_stray(&q, &["a", "b"]), None);
    assert_eq!(find_stray(&q, &["b"]), Some("a"));
}
