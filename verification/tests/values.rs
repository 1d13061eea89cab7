use fiducia_mcp_server::env_map::{env_nonempty, env_value, EnvMap};
use fiducia_mcp_server::http::HttpStatus;
use fiducia_mcp_server::json::{parse_json, parse_json_or_text, Json, JsonNumber, Members};
use fiducia_mcp_server::text::{
    ascii_lower, ascii_upper, before, byte_head, decimal, fields, join, quoted_list,
    same_ignoring_case, signed_decimal, split_text, trim, trim_end_char,
};

fn list(values: &[&str]) -> Vec<String> {
    values.iter().map(|s| s.to_string()).collect()
}

#[test]
fn texts_are_trimmed() {
    assert_eq!(trim(" \t a b\u{a0}\n"), "a b");
    assert_eq!(trim("\u{3000}"), "");
    assert_eq!(trim_end_char("a//b//", '/'), "a//b");
    assert_eq!(trim_end_char("///", '/'), "");
}

#[test]
fn texts_are_split_and_joined() {
    assert_eq!(split_text("a,,b", ','), list(&["a", "", "b"]));
    assert_eq!(split_text("", ','), list(&[""]));
    assert_eq!(fields(" a ,, b", ','), list(&["a", "b"]));
    assert_eq!(join(&list(&["a", "b", "c"]), "; "), "a; b; c");
    assert_eq!(join(&Vec::new(), "; "), "");
    assert_eq!(quoted_list(&list(&["a", "b\"c\n"])), "[\"a\", \"b\\\"c\\n\"]");
}

#[test]
fn case_is_that_of_ascii() {
    assert_eq!(ascii_lower("AbÉ"), "abÉ");
    assert_eq!(ascii_upper("abé"), "ABé");
    assert!(same_ignoring_case("Www", "wWW"));
    assert!(!same_ignoring_case("é", "É"));
}

#[test]
fn texts_have_an_order() {
    assert!(before("a", "b"));
    assert!(before("a", "ab"));
    assert!(before("", "a"));
    assert!(!before("a", "a"));
    assert!(before("z", "é"));
}

#[test]
fn texts_are_cut_by_bytes() {
    assert_eq!(byte_head("héllo", 2), "h");
    assert_eq!(byte_head("héllo", 3), "hé");
    assert_eq!(byte_head("a", 5), "a");
    assert_eq!(byte_head("\u{3000}\u{1f600}", 6), "\u{3000}");
    assert_eq!(byte_head("\u{3000}\u{1f600}", 7), "\u{3000}\u{1f600}");
    assert_eq!(byte_head("é", 0), "");
}

#[test]
fn numbers_are_written_in_decimal() {
    assert_eq!(decimal(0), "0");
    assert_eq!(decimal(u64::MAX), "18446744073709551615");
    assert_eq!(signed_decimal(i64::MIN), "-9223372036854775808");
    assert_eq!(signed_decimal(42), "42");
}

#[test]
fn trees_are_read_and_written() {
    let tree = parse_json("{\"b\": [1, -2, 0.5, true], \"a\": \"x\\n\"}").unwrap();
    assert_eq!(tree.get("a").and_then(|v| v.as_str()), Some("x\n"));
    let items = tree.get("b").and_then(|v| v.as_array()).unwrap();
    assert_eq!(items[0], Json::Number(JsonNumber::Unsigned(1)));
    assert_eq!(items[1], Json::Number(JsonNumber::Negative(-2)));
    assert_eq!(items[2], Json::Number(JsonNumber::Decimal("0.5".to_string())));
    assert_eq!(items[3], Json::Bool(true));
    assert_eq!(tree.to_text(), "{\"a\":\"x\\n\",\"b\":[1,-2,0.5,true]}");
    assert_eq!(tree.clone(), tree);
    assert_eq!(parse_json(&tree.to_text()), Ok(tree));
    assert!(parse_json("{").is_err());
    assert_eq!(parse_json_or_text("plain"), Json::Text("plain".to_string()));
    assert_eq!(parse_json_or_text("[]"), Json::Array(Vec::new()));
}

#[test]
fn trees_are_built_and_looked_into() {
    let tree = Members::new()
        .with("n", Json::natural(7))
        .with("i", Json::integer(-7))
        .with("t", Json::opt_text(None))
        .with("o", Members::new().with("k", Json::text("v")).object())
        .object();
    assert_eq!(tree.natural_at("n"), Some(7));
    assert_eq!(tree.get("i").and_then(|v| v.as_i64()), Some(-7));
    assert_eq!(tree.get("i").and_then(|v| v.as_u64()), None);
    assert_eq!(tree.text_at2("o", "k"), Some("v"));
    assert_eq!(tree.get("t"), Some(&Json::Null));
    assert_eq!(tree.get("x"), None);
}

#[test]
fn statuses_have_a_line() {
    assert_eq!(HttpStatus::new(404).unwrap().line(), "404 Not Found");
    assert_eq!(HttpStatus::new(299).unwrap().line(), "299 <unknown status code>");
    assert!(HttpStatus::new(204).unwrap().is_success());
    assert!(!HttpStatus::new(300).unwrap().is_success());
    assert!(HttpStatus::new(307).unwrap().is_redirection());
    assert!(HttpStatus::new(99).is_none());
    assert!(HttpStatus::new(1000).is_none());
}

#[test]
fn later_variables_win() {
    let mut env = EnvMap::new();
    env.insert("A".to_string(), "1".to_string());
    env.insert("A".to_string(), " ".to_string());
    assert_eq!(env_value(&env, "A"), Some(" "));
    assert_eq!(env_nonempty(&env, "A"), None);
    assert_eq!(env_value(&env, "B"), None);
}
