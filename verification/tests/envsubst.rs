use anor_storage::envsubst::dollar_curly;
use anor_storage::string_map::StringMap;
use regex::Regex;
use std::collections::HashMap;

fn env_of(pairs: &[(&str, &str)]) -> StringMap<String> {
    let mut env = StringMap::new();
    for (name, value) in pairs {
        env.insert(name.to_string(), value.to_string());
    }
    env
}

/// The substitution as a regular expression and the standard library's
/// `replace` do it.
fn by_regex(src: &str, pairs: &[(&str, &str)]) -> String {
    let env: HashMap<String, String> = pairs
        .iter()
        .map(|(name, value)| (name.to_string(), value.to_string()))
        .collect();
    let mut result = src.to_string();
    let regex = Regex::new(r"\$\{(.*?)\}").unwrap();
    for token in regex.find_iter(src) {
        let key = token.as_str().to_string();
        let env_key = key.replace(['$', '{', '}'], "");
        if let Some(env_value) = env.get(&env_key) {
            result = result.replace(&key, env_value);
        }
    }
    result
}

#[test]
fn dollar_curly_string_test() {
    let src = "**${CARGO_PKG_NAME}**";
    let env = env_of(&[("CARGO_PKG_NAME", "anor-utils")]);
    assert_eq!(dollar_curly(src, &env), "**anor-utils**");
}

#[test]
fn dollar_curly_path_test() {
    let src = "${CARGO_MANIFEST_DIR}/1/2/3";
    let env = env_of(&[("CARGO_MANIFEST_DIR", "/home/anor/anor-utils")]);
    let expected = std::path::PathBuf::from("/home/anor/anor-utils")
        .join("1")
        .join("2")
        .join("3");

    assert_eq!(dollar_curly(src, &env), expected.to_string_lossy());
}

#[test]
fn substitute_string_test() {
    let src = "**${CARGO_PKG_NAME}**";
    let env = env_of(&[("CARGO_PKG_NAME", "anor-common")]);
    assert_eq!(dollar_curly(src, &env), "**anor-common**");
}

#[test]
fn substitute_path_test() {
    let src = "${CARGO_MANIFEST_DIR}/1/2/3";
    let env = env_of(&[("CARGO_MANIFEST_DIR", "/home/anor/anor-common")]);
    let expected = std::path::PathBuf::from("/home/anor/anor-common")
        .join("1")
        .join("2")
        .join("3");

    assert_eq!(dollar_curly(src, &env), expected.to_string_lossy());
}

#[test]
fn text_without_tokens_stays() {
    let env = env_of(&[("A", "x")]);
    assert_eq!(dollar_curly("", &env), "");
    assert_eq!(dollar_curly("plain text", &env), "plain text");
    assert_eq!(dollar_curly("$A {A} $ {A} ${A", &env), "$A {A} $ {A} ${A");
    assert_eq!(dollar_curly("}${", &env), "}${");
}

#[test]
fn unknown_variable_stays() {
    let env = env_of(&[("A", "x")]);
    assert_eq!(dollar_curly("${B} and ${A}", &env), "${B} and x");
    assert_eq!(dollar_curly("${}", &env), "${}");
    assert_eq!(dollar_curly("${a}", &env), "${a}");
}

#[test]
fn every_occurrence_is_replaced() {
    let env = env_of(&[("A", "x"), ("B", "")]);
    assert_eq!(dollar_curly("${A}${A}-${B}-${A}", &env), "xx--x");
}

#[test]
fn token_ends_at_the_first_closing_brace() {
    let env = env_of(&[("AB", "x"), ("A", "y"), ("B", "z")]);
    // the token is `${A${B}`, its name is `AB`
    assert_eq!(dollar_curly("${A${B}}", &env), "x}");
    assert_eq!(dollar_curly("${A}}", &env), "y}");
}

#[test]
fn token_does_not_cross_a_line_break() {
    let env = env_of(&[("A", "x"), ("A\nB", "no"), ("B", "y")]);
    assert_eq!(dollar_curly("${A\nB}", &env), "${A\nB}");
    assert_eq!(dollar_curly("${A\n${B}", &env), "${A\ny");
    assert_eq!(dollar_curly("${A}\n${B}", &env), "x\ny");
}

#[test]
fn value_that_holds_a_later_token_is_substituted_too() {
    let env = env_of(&[("A", "${B}"), ("B", "y")]);
    assert_eq!(dollar_curly("${A} ${B}", &env), "y y");
    // in the other order the value stays
    assert_eq!(dollar_curly("${B} ${A}", &env), "y ${B}");
}

#[test]
fn characters_beyond_ascii_are_kept() {
    let env = env_of(&[("ÄÖ", "ü€"), ("N", "日本")]);
    assert_eq!(dollar_curly("α${ÄÖ}β${N}γ", &env), "αü€β日本γ");
}

#[test]
fn same_as_the_regular_expression() {
    let pairs = [
        ("A", "x"),
        ("B", "${A}"),
        ("AB", "ab"),
        ("", "empty"),
        ("LONG", "a longer value with ${A} and } and ${"),
        ("A B", "spaced"),
    ];
    let env = env_of(&pairs);
    let texts = [
        "",
        "$",
        "${",
        "${}",
        "${A}",
        "${A}${A}",
        "x${A}y${B}z",
        "${B}${A}",
        "${A${B}}",
        "${{A}}",
        "$${A}",
        "${$A}",
        "${A B}",
        "${A\nB}${A}",
        "${A}\n${B}\n${LONG}",
        "${LONG}${A}${LONG}",
        "}${A}{",
        "${A}}${",
        "${UNKNOWN}${A}",
        "data_path: ${A}/storage\nlisten: ${B}:${AB}\n",
        "${A${A${A}",
        "{${}}",
    ];
    for text in texts {
        assert_eq!(dollar_curly(text, &env), by_regex(text, &pairs), "{:?}", text);
    }
}
