use tommy::coerce::CharPolicy;
use tommy::scan::{classify, parse_lines, Line};
use tommy::table::Table;
use tommy::text::{find_char, str_eq, trim_str};
use tommy::value::Value;

fn lines_of(text: &str) -> Vec<String> {
    text.lines().map(|l| l.to_string()).collect()
}

fn parse(text: &str) -> Vec<Table> {
    parse_lines(&lines_of(text), CharPolicy::Bare)
}

fn keys(t: &Table) -> Vec<String> {
    t.fields.iter().map(|(k, _)| k.clone()).collect()
}

#[test]
fn trim_and_search() {
    assert_eq!(trim_str("  a b \t"), "a b");
    assert_eq!(trim_str("\u{3000}x\u{a0}"), "x");
    assert_eq!(trim_str("   "), "");
    assert_eq!(find_char("a=b=c", '='), Some(1));
    assert_eq!(find_char("abc", '='), None);
    assert!(str_eq("abc", "abc"));
    assert!(!str_eq("abc", "abd"));
}

#[test]
fn classify_lines() {
    assert_eq!(classify("   "), Line::Skip);
    assert_eq!(classify("  # note = 1"), Line::Skip);
    assert_eq!(classify(" [server] "), Line::Header("server".to_string()));
    assert_eq!(classify("[]"), Line::Header(String::new()));
    assert_eq!(classify("[[a]]"), Line::Header("[a]".to_string()));
    assert_eq!(classify("[a = b"), Line::Assign("[a".to_string(), "b".to_string()));
    assert_eq!(classify(" key =  a  b "), Line::Assign("key".to_string(), "a  b".to_string()));
    assert_eq!(classify("a=b=c"), Line::Assign("a".to_string(), "b=c".to_string()));
    assert_eq!(classify("key="), Line::Assign("key".to_string(), String::new()));
    assert_eq!(classify("no equals sign"), Line::Skip);
}

#[test]
fn tables_in_header_order() {
    let t = parse("[a]\nx = 1\n[b]\ny = 2\n");
    assert_eq!(t.len(), 2);
    assert_eq!(t[0].name, "a");
    assert_eq!(t[1].name, "b");
}

#[test]
fn fields_in_line_order_with_repeats() {
    let t = parse("[a]\nk = 1\nj = 2\nk = 3\n");
    assert_eq!(keys(&t[0]), vec!["k", "j", "k"]);
    assert_eq!(t[0].fields[2].1, Value::Integer(3));
    assert_eq!(t[0].get("k"), Some(&Value::Integer(1)));
}

#[test]
fn last_table_without_trailing_header() {
    let t = parse("[a]\nx = 1\n[b]\ny = 2\nz = yes");
    assert_eq!(t.len(), 2);
    assert_eq!(t[1].name, "b");
    assert_eq!(keys(&t[1]), vec!["y", "z"]);
    let empty = parse("[a]\n[b]");
    assert_eq!(empty.len(), 2);
    assert!(empty[1].fields.is_empty());
}

#[test]
fn orphan_keys_dropped() {
    let t = parse("x = 1\ny = 2\n[a]\nz = 3\n");
    assert_eq!(t.len(), 1);
    assert_eq!(keys(&t[0]), vec!["z"]);
    assert!(parse("x = 1\n").is_empty());
}

#[test]
fn comments_and_blanks_change_nothing() {
    let plain = parse("[a]\nx = 1\ny = two\n[b]\nz = true\n");
    let noisy = parse("# head\n\n[a]\n  # inside\nx = 1\n\n   \ny = two\n# between\n[b]\n\nz = true\n# tail\n");
    assert_eq!(plain.len(), noisy.len());
    for (p, n) in plain.iter().zip(noisy.iter()) {
        assert_eq!(p.name, n.name);
        assert_eq!(p.fields, n.fields);
    }
}

#[test]
fn malformed_lines_skipped() {
    let t = parse("[a]\njust words\n[unclosed\nx = 1\n");
    assert_eq!(t.len(), 1);
    assert_eq!(keys(&t[0]), vec!["x"]);
}

#[test]
fn empty_header_and_empty_value() {
    let t = parse("[]\nkey=\n");
    assert_eq!(t[0].name, "");
    assert_eq!(t[0].fields[0].1, Value::String(String::new()));
}

#[test]
fn quoted_char_policy_in_file() {
    let t = parse_lines(&lines_of("[icons]\nentry = 'x'\nexit = y\n"), CharPolicy::Quoted);
    assert_eq!(t[0].get("entry"), Some(&Value::Char('x')));
    assert_eq!(t[0].get("exit"), Some(&Value::String("y".to_string())));
}

#[test]
fn every_assignment_after_header_kept() {
    let t = parse("a = 0\n[x]\nk = 1\nk = two\n\n[y]\n# c\nz = 'q'\nno pair here\nw =\n");
    let total: usize = t.iter().map(|tb| tb.fields.len()).sum();
    assert_eq!(total, 4);
}
