use tommy::coerce::{char_of, coerce, is_float_text, parse_bool, parse_i32, CharPolicy};
use tommy::value::{Kind, Value};

fn bare(s: &str) -> Value {
    coerce(s, CharPolicy::Bare)
}

#[test]
fn coerce_boolean() {
    assert_eq!(bare("true"), Value::Boolean(true));
    assert_eq!(bare("false"), Value::Boolean(false));
    assert_eq!(bare("TRUE"), Value::String("TRUE".to_string()));
    assert_eq!(parse_bool("1"), None);
}

#[test]
fn coerce_integer() {
    assert_eq!(bare("-7"), Value::Integer(-7));
    assert_eq!(bare("+5"), Value::Integer(5));
    assert_eq!(bare("0"), Value::Integer(0));
    assert_eq!(bare("2147483647"), Value::Integer(i32::MAX));
    assert_eq!(bare("-2147483648"), Value::Integer(i32::MIN));
}

#[test]
fn parse_i32_edges() {
    assert_eq!(parse_i32(""), None);
    assert_eq!(parse_i32("-"), None);
    assert_eq!(parse_i32("+"), None);
    assert_eq!(parse_i32("12a"), None);
    assert_eq!(parse_i32("2147483648"), None);
    assert_eq!(parse_i32("-2147483649"), None);
    assert_eq!(parse_i32("99999999999999999999"), None);
    assert_eq!(parse_i32("007"), Some(7));
}

#[test]
fn coerce_float() {
    assert_eq!(bare("3.5"), Value::Float("3.5".to_string()));
    assert_eq!(bare("3.5").as_float_text().unwrap().parse::<f64>().unwrap(), 3.5);
    assert_eq!(bare("2147483648"), Value::Float("2147483648".to_string()));
    assert_eq!(bare("1e5"), Value::Float("1e5".to_string()));
    assert_eq!(bare("-.5E-3"), Value::Float("-.5E-3".to_string()));
    assert_eq!(bare("inf"), Value::Float("inf".to_string()));
    assert_eq!(bare("-Infinity"), Value::Float("-Infinity".to_string()));
    assert_eq!(bare("NaN"), Value::Float("NaN".to_string()));
}

#[test]
fn float_grammar_agrees_with_std() {
    let cases = [
        "1", "1.", ".5", "1.5", "+1.5", "-0.0", "1e5", "1E+5", "1e-5", "1.5e3", ".e3", "e3", "1e",
        "1e+", "1.2.3", ".", "", "+", "-", "inf", "INF", "+inFinity", "nan", "nana", "infin",
        "1_000", " 1", "1 ", "0x10", "1e5.0", "5e05", "..5",
    ];
    for c in cases.iter() {
        assert_eq!(is_float_text(c), c.parse::<f64>().is_ok(), "{}", c);
    }
}

#[test]
fn coerce_char_bare_policy() {
    assert_eq!(bare("x"), Value::Char('x'));
    assert_eq!(bare("é"), Value::Char('é'));
    assert_eq!(bare("'x'"), Value::String("'x'".to_string()));
    assert_eq!(char_of("xy", CharPolicy::Bare), None);
}

#[test]
fn coerce_char_quoted_policy() {
    assert_eq!(coerce("'x'", CharPolicy::Quoted), Value::Char('x'));
    assert_eq!(coerce("x", CharPolicy::Quoted), Value::String("x".to_string()));
    assert_eq!(coerce("'xy'", CharPolicy::Quoted), Value::String("'xy'".to_string()));
    assert_eq!(coerce("'7'", CharPolicy::Quoted), Value::Char('7'));
}

#[test]
fn coerce_string_fallback() {
    assert_eq!(bare(""), Value::String(String::new()));
    assert_eq!(bare("hello world"), Value::String("hello world".to_string()));
    assert_eq!(bare("\"hi\""), Value::String("\"hi\"".to_string()));
}

#[test]
fn digit_is_integer_before_char() {
    assert_eq!(bare("7"), Value::Integer(7));
    assert_eq!(coerce("7", CharPolicy::Quoted), Value::Integer(7));
}

#[test]
fn value_accessors_do_not_convert() {
    let v = Value::Integer(3);
    assert_eq!(v.as_i32(), Some(3));
    assert_eq!(v.as_string(), None);
    assert_eq!(v.as_bool(), None);
    assert_eq!(v.as_char(), None);
    assert_eq!(v.as_float_text(), None);
    assert_eq!(v.kind(), Kind::Integer);
    assert_eq!(Value::String("3".to_string()).as_i32(), None);
    assert_eq!(Value::Char('c').as_char(), Some('c'));
    assert_eq!(Value::Boolean(true).as_bool(), Some(true));
    assert_eq!(Value::String("s".to_string()).as_string(), Some("s"));
    assert_eq!(Value::Float("1.5".to_string()).kind(), Kind::Float);
    assert_eq!(v.duplicate(), v);
}
