use registry_completions::path_to_regex::{
    parse, Compiler, MatchResult, Matcher, StringOrNumber, StringOrVec, Token,
};

fn chars(s: &str) -> Vec<char> {
    s.chars().collect()
}

fn string_of(v: &Vec<char>) -> String {
    v.iter().collect()
}

fn str_name(s: &str) -> StringOrNumber {
    StringOrNumber::Str(chars(s))
}

#[test]
fn parse_splits_literals_and_parameters() {
    let tokens = parse("/x/:module@:version?/:path*").expect("schema should parse");
    assert_eq!(tokens.len(), 5);
    match &tokens[0] {
        Token::Literal(s) => assert_eq!(string_of(s), "/x"),
        _ => panic!("expected a literal"),
    }
    match &tokens[1] {
        Token::Param(k) => {
            assert!(k.name.same(&str_name("module")));
            assert_eq!(string_of(&k.prefix), "/");
        },
        _ => panic!("expected a parameter"),
    }
    match &tokens[2] {
        Token::Literal(s) => assert_eq!(string_of(s), "@"),
        _ => panic!("expected a literal"),
    }
}

#[test]
fn parse_rejects_unbalanced_pattern() {
    assert!(parse("/x/:module(").is_err());
}

#[test]
fn parse_rejects_bare_colon() {
    assert!(parse("/x/:").is_err());
}

#[test]
fn match_recovers_named_parameters() {
    let tokens = parse("/x/:module@:version?/:path*").expect("schema should parse");
    let matcher = Matcher::for_prefix(&tokens, tokens.len()).expect("regex should compile");
    let result = matcher.matches(&chars("/x/a@v1.0.0/mod.ts")).expect("path should match");
    let module = result.get(&str_name("module")).expect("module should be captured");
    match module {
        StringOrVec::Single(s) => assert_eq!(string_of(&s), "a"),
        _ => panic!("expected a single capture"),
    }
    let version = result.get(&str_name("version")).expect("version should be captured");
    match version {
        StringOrVec::Single(s) => assert_eq!(string_of(&s), "v1.0.0"),
        _ => panic!("expected a single capture"),
    }
    let path = result.get(&str_name("path")).expect("path should be captured");
    match path {
        StringOrVec::Multi(parts) => {
            assert_eq!(parts.len(), 1);
            assert_eq!(string_of(&parts[0]), "mod.ts");
        },
        _ => panic!("expected a repeated capture"),
    }
}

#[test]
fn match_allows_trailing_delimiter() {
    let tokens = parse("/x/:module").expect("schema should parse");
    let matcher = Matcher::for_prefix(&tokens, tokens.len()).expect("regex should compile");
    assert!(matcher.matches(&chars("/x/a/")).is_some());
    assert!(matcher.matches(&chars("/x/a")).is_some());
    assert!(matcher.matches(&chars("/y/a")).is_none());
}

#[test]
fn to_path_round_trips_a_match() {
    let tokens = parse("/x/:module@:version?/:path*").expect("schema should parse");
    let matcher = Matcher::for_prefix(&tokens, tokens.len()).expect("regex should compile");
    let result = matcher.matches(&chars("/x/a@v1.0.0/mod.ts")).expect("path should match");
    let compiler = Compiler::for_prefix(&tokens, tokens.len());
    let path = compiler.to_path(&result);
    assert_eq!(string_of(&path), "/x/a@v1.0.0/mod.ts");
}

#[test]
fn to_path_renders_missing_parameters_as_empty() {
    let tokens = parse("/x/:module@:version?/:path*").expect("schema should parse");
    let compiler = Compiler::for_prefix(&tokens, 2);
    let empty = MatchResult::new_empty();
    let params = empty.with_insert(&str_name("module"), &StringOrVec::Single(chars("a")));
    assert_eq!(string_of(&compiler.to_path(&params)), "/x/a");
}

#[test]
fn repeated_parameter_splits_on_delimiter() {
    let tokens = parse("/f/:path+").expect("schema should parse");
    let matcher = Matcher::for_prefix(&tokens, tokens.len()).expect("regex should compile");
    let result = matcher.matches(&chars("/f/a/b/c")).expect("path should match");
    let path = result.get(&str_name("path")).expect("path should be captured");
    match path {
        StringOrVec::Multi(parts) => {
            let rendered: Vec<String> = parts.iter().map(|p| string_of(p)).collect();
            assert_eq!(rendered, vec!["a".to_string(), "b".to_string(), "c".to_string()]);
        },
        _ => panic!("expected a repeated capture"),
    }
}

#[test]
fn custom_inner_pattern_limits_matches() {
    let tokens = parse("/x/:module([a-z]+)").expect("schema should parse");
    let matcher = Matcher::for_prefix(&tokens, tokens.len()).expect("regex should compile");
    assert!(matcher.matches(&chars("/x/abc")).is_some());
    assert!(matcher.matches(&chars("/x/ABC")).is_none());
}

#[test]
fn grouped_prefix_and_suffix() {
    let tokens = parse("/m{-:version}?").expect("schema should parse");
    let matcher = Matcher::for_prefix(&tokens, tokens.len()).expect("regex should compile");
    let result = matcher.matches(&chars("/m-1.2.3")).expect("path should match");
    let version = result.get(&str_name("version")).expect("version should be captured");
    match version {
        StringOrVec::Single(s) => assert_eq!(string_of(&s), "1.2.3"),
        _ => panic!("expected a single capture"),
    }
    assert!(matcher.matches(&chars("/m")).is_some());
}
