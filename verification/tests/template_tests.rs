use registry_completions::encoding::percent_encode_component;
use registry_completions::template::{parse_replacement_variables, replace_all, substitute};

fn chars(s: &str) -> Vec<char> {
    s.chars().collect()
}

fn string_of(v: &Vec<char>) -> String {
    v.iter().collect()
}

#[test]
fn test_parse_replacement_variables() {
    let actual = parse_replacement_variables(
        "https://deno.land/_vsc1/modules/${module}/v/${{version}}",
    );
    assert_eq!(actual.len(), 2);
    assert!(actual.contains(&"module".to_owned()));
    assert!(actual.contains(&"version".to_owned()));
}

#[test]
fn test_parse_replacement_variables_empty() {
    let actual = parse_replacement_variables("https://deno.land/x/mod.ts");
    assert!(actual.is_empty());
}

#[test]
fn test_parse_replacement_variables_repeated() {
    let actual = parse_replacement_variables("/api/${m}/v/${m}");
    assert_eq!(actual, vec!["m".to_owned(), "m".to_owned()]);
}

#[test]
fn test_replace_all_non_overlapping() {
    let out = replace_all(&chars("aaa"), &chars("aa"), &chars("b"));
    assert_eq!(string_of(&out), "ba");
}

#[test]
fn test_substitute_both_forms() {
    let out = substitute(&chars("/m/${mod}/e/${{mod}}"), &chars("mod"), &chars("x"));
    assert_eq!(string_of(&out), "/m/x/e/x");
}

#[test]
fn test_percent_encode_matches_component_set() {
    const COMPONENT: &percent_encoding::AsciiSet = &percent_encoding::CONTROLS
        .add(b' ')
        .add(b'"')
        .add(b'#')
        .add(b'<')
        .add(b'>')
        .add(b'?')
        .add(b'`')
        .add(b'{')
        .add(b'}')
        .add(b'/')
        .add(b':')
        .add(b';')
        .add(b'=')
        .add(b'@')
        .add(b'[')
        .add(b'\\')
        .add(b']')
        .add(b'^')
        .add(b'|')
        .add(b'$')
        .add(b'&')
        .add(b'+')
        .add(b',');
    let inputs = ["v1.0.0", "a b/c:d?e", "plain", "x{y}z\\|^[]", "1,2;3=4@5&6+7"];
    for input in inputs {
        let expected = percent_encoding::percent_encode(input.as_bytes(), COMPONENT).to_string();
        let actual = string_of(&percent_encode_component(&chars(input)));
        assert_eq!(actual, expected);
    }
}

#[test]
fn test_percent_encode_changes_value() {
    let actual = string_of(&percent_encode_component(&chars("a/b")));
    assert_eq!(actual, "a%2Fb");
}
