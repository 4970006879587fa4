use registry_completions::config::{
    RegistryConfiguration, RegistryConfigurationJson, RegistryConfigurationVariable,
};
use registry_completions::fetcher::{FixedExists, StaticFetcher};
use registry_completions::lsp_types::{
    CompletionItemKind, Documentation, MarkupKind, Position, Range, TextEdit, VariableItems,
    VariableItemsList,
};
use registry_completions::registry::ModuleRegistry;
use registry_completions::RegistryError;

fn var(key: &str, documentation: Option<&str>, url: &str) -> RegistryConfigurationVariable {
    RegistryConfigurationVariable {
        key: key.to_string(),
        documentation: documentation.map(|d| d.to_string()),
        url: url.to_string(),
    }
}

fn test_config() -> RegistryConfigurationJson {
    RegistryConfigurationJson {
        version: 2,
        registries: vec![RegistryConfiguration {
            schema: "/x/:module@:version?/:path*".to_string(),
            variables: vec![
                var(
                    "module",
                    Some("/lsp/registries/doc_${module}.json"),
                    "/lsp/registries/m_${module}.json",
                ),
                var("version", None, "/lsp/registries/v_${module}.json"),
                var("path", None, "/lsp/registries/p_${module}_${{version}}.json"),
            ],
        }],
    }
}

fn test_registry() -> ModuleRegistry<StaticFetcher> {
    let fetcher = StaticFetcher {
        configs: vec![(
            "http://localhost:4545/.well-known/deno-import-intellisense.json".to_string(),
            test_config(),
        )],
        items: vec![
            (
                "http://localhost:4545/lsp/registries/m_.json".to_string(),
                VariableItems::List(VariableItemsList {
                    items: vec!["a".to_string(), "b".to_string()],
                    is_incomplete: true,
                    preselect: None,
                }),
            ),
            (
                "http://localhost:4545/lsp/registries/m_a.json".to_string(),
                VariableItems::Simple(vec![
                    "a".to_string(),
                    "ab".to_string(),
                    "abc".to_string(),
                    "azx".to_string(),
                ]),
            ),
            (
                "http://localhost:4545/lsp/registries/p_a_v1.0.0.json".to_string(),
                VariableItems::Simple(vec!["mod.ts".to_string(), "z.ts".to_string()]),
            ),
        ],
        docs: vec![(
            "http://localhost:4545/lsp/registries/doc_a.json".to_string(),
            Documentation::Markup(MarkupKind::Markdown, "**a**".to_string()),
        )],
    };
    let mut registry = ModuleRegistry::new(fetcher);
    registry.enable("http://localhost:4545/").expect("could not enable");
    registry
}

fn range(start: u32, end: u32) -> Range {
    Range {
        start: Position { line: 0, character: start },
        end: Position { line: 0, character: end },
    }
}

#[test]
fn origin_match_partial_scheme() {
    let registry = test_registry();
    let r = range(20, 21);
    let completions = registry.get_completions("h", 1, &r, &FixedExists { value: false });
    assert!(completions.is_some());
    let completions = completions.unwrap().items;
    assert_eq!(completions.len(), 1);
    assert_eq!(completions[0].label, "http://localhost:4545");
    assert_eq!(
        completions[0].text_edit,
        Some(TextEdit { range: r, new_text: "http://localhost:4545".to_string() })
    );
}

#[test]
fn origin_match_partial_host() {
    let registry = test_registry();
    let r = range(20, 36);
    let completions =
        registry.get_completions("http://localhost", 16, &r, &FixedExists { value: false });
    assert!(completions.is_some());
    let completions = completions.unwrap().items;
    assert_eq!(completions.len(), 1);
    assert_eq!(completions[0].label, "http://localhost:4545");
}

#[test]
fn literal_completion_at_origin() {
    let registry = test_registry();
    let r = range(20, 41);
    let completions =
        registry.get_completions("http://localhost:4545", 21, &r, &FixedExists { value: false });
    assert!(completions.is_some());
    let completions = completions.unwrap().items;
    assert_eq!(completions.len(), 1);
    assert_eq!(completions[0].label, "/x");
    assert_eq!(
        completions[0].text_edit,
        Some(TextEdit { range: r, new_text: "http://localhost:4545/x".to_string() })
    );
}

#[test]
fn literal_completion_after_slash() {
    let registry = test_registry();
    let r = range(20, 42);
    let completions =
        registry.get_completions("http://localhost:4545/", 22, &r, &FixedExists { value: false });
    assert!(completions.is_some());
    let completions = completions.unwrap().items;
    assert_eq!(completions.len(), 1);
    assert_eq!(completions[0].label, "/x");
    assert_eq!(
        completions[0].text_edit,
        Some(TextEdit { range: r, new_text: "http://localhost:4545/x".to_string() })
    );
}

#[test]
fn module_completions_incomplete() {
    let registry = test_registry();
    let r = range(20, 44);
    let completions =
        registry.get_completions("http://localhost:4545/x/", 24, &r, &FixedExists { value: false });
    assert!(completions.is_some());
    let completions = completions.unwrap();
    assert_eq!(completions.items.len(), 2);
    assert!(completions.is_incomplete);
    assert!(completions.items[0].label == *"a" || completions.items[0].label == *"b");
    assert!(completions.items[1].label == *"a" || completions.items[1].label == *"b");
}

#[test]
fn module_completions_with_documentation_data() {
    let registry = test_registry();
    let r = range(20, 45);
    let completions = registry.get_completions(
        "http://localhost:4545/x/a",
        25,
        &r,
        &FixedExists { value: false },
    );
    assert!(completions.is_some());
    let completions = completions.unwrap();
    assert_eq!(completions.items.len(), 4);
    assert!(!completions.is_incomplete);
    for item in &completions.items {
        assert_eq!(
            item.data,
            Some(format!("http://localhost:4545/lsp/registries/doc_{}.json", item.label))
        );
    }
}

#[test]
fn documentation_markdown_value() {
    let registry = test_registry();
    let documentation =
        registry.get_documentation("http://localhost:4545/lsp/registries/doc_a.json");
    assert_eq!(
        documentation,
        Some(Documentation::Markup(MarkupKind::Markdown, "**a**".to_string()))
    );
}

#[test]
fn path_completions_are_files_with_cache_command() {
    let registry = test_registry();
    let r = range(20, 53);
    let completions = registry.get_completions(
        "http://localhost:4545/x/a@v1.0.0/",
        33,
        &r,
        &FixedExists { value: false },
    );
    assert!(completions.is_some());
    let completions = completions.unwrap().items;
    assert_eq!(completions.len(), 2);
    assert_eq!(completions[0].detail, Some("(path)".to_string()));
    assert_eq!(completions[0].kind, Some(CompletionItemKind::File));
    assert!(completions[0].command.is_some());
    assert_eq!(completions[1].detail, Some("(path)".to_string()));
    assert_eq!(completions[1].kind, Some(CompletionItemKind::File));
    assert!(completions[1].command.is_some());
    assert_eq!(
        completions[0].command.as_ref().unwrap().command,
        "deno.cache".to_string()
    );
    assert_eq!(
        completions[0].command.as_ref().unwrap().arguments,
        vec!["http://localhost:4545/x/a@v1.0.0/mod.ts".to_string()]
    );
    assert_eq!(completions[0].sort_text, Some("0000000001".to_string()));
    assert_eq!(completions[1].sort_text, Some("0000000002".to_string()));
}

#[test]
fn no_cache_command_when_specifier_exists() {
    let registry = test_registry();
    let r = range(20, 53);
    let completions = registry.get_completions(
        "http://localhost:4545/x/a@v1.0.0/",
        33,
        &r,
        &FixedExists { value: true },
    );
    let completions = completions.unwrap().items;
    assert_eq!(completions.len(), 2);
    assert!(completions[0].command.is_none());
    assert!(completions[1].command.is_none());
}

#[test]
fn unknown_origin_yields_no_completions() {
    let registry = test_registry();
    let r = range(20, 44);
    let completions = registry.get_completions(
        "http://example.com/x/",
        21,
        &r,
        &FixedExists { value: false },
    );
    assert!(completions.is_none());
}

#[test]
fn check_origin_reports_fetch_failure() {
    let registry = test_registry();
    let result = registry.check_origin("https://deno.com");
    assert_eq!(result, Err(RegistryError::FetchFailed));
    let result = registry.check_origin("http://localhost:4545");
    assert!(result.is_ok());
}

#[test]
fn check_origin_rejects_bad_origin() {
    let registry = test_registry();
    let result = registry.check_origin("not a url");
    assert_eq!(result, Err(RegistryError::BadOrigin));
}

#[test]
fn disable_removes_origin() {
    let mut registry = test_registry();
    registry.disable("http://localhost:4545/").expect("could not disable");
    let r = range(20, 21);
    let completions = registry.get_completions("h", 1, &r, &FixedExists { value: false });
    assert!(completions.is_none());
}

#[test]
fn enable_rejects_invalid_configuration() {
    let fetcher = StaticFetcher {
        configs: vec![(
            "http://localhost:4545/.well-known/deno-import-intellisense.json".to_string(),
            RegistryConfigurationJson { version: 9, registries: vec![] },
        )],
        items: vec![],
        docs: vec![],
    };
    let mut registry = ModuleRegistry::new(fetcher);
    let result = registry.enable("http://localhost:4545/");
    assert_eq!(result, Err(RegistryError::InvalidConfig));
}

#[test]
fn empty_specifier_lists_every_origin() {
    let registry = test_registry();
    let r = range(20, 20);
    let completions = registry.get_completions("", 0, &r, &FixedExists { value: false });
    assert!(completions.is_some());
    let completions = completions.unwrap().items;
    assert_eq!(completions.len(), 1);
    assert_eq!(completions[0].label, "http://localhost:4545");
    assert_eq!(completions[0].detail, Some("(registry)".to_string()));
    assert_eq!(completions[0].sort_text, Some("2".to_string()));
}

#[test]
fn preselect_marks_only_the_named_item() {
    let fetcher = StaticFetcher {
        configs: vec![(
            "http://localhost:4545/.well-known/deno-import-intellisense.json".to_string(),
            test_config(),
        )],
        items: vec![(
            "http://localhost:4545/lsp/registries/m_.json".to_string(),
            VariableItems::List(VariableItemsList {
                items: vec!["a".to_string(), "b".to_string()],
                is_incomplete: false,
                preselect: Some("b".to_string()),
            }),
        )],
        docs: vec![],
    };
    let mut registry = ModuleRegistry::new(fetcher);
    registry.enable("http://localhost:4545/").expect("could not enable");
    let r = range(20, 44);
    let completions = registry
        .get_completions("http://localhost:4545/x/", 24, &r, &FixedExists { value: false })
        .unwrap()
        .items;
    assert_eq!(completions.len(), 2);
    for item in &completions {
        if item.label == "b" {
            assert_eq!(item.preselect, Some(true));
        } else {
            assert_eq!(item.preselect, None);
        }
    }
}

#[test]
fn later_schema_overwrites_completion_with_same_key() {
    let config = RegistryConfigurationJson {
        version: 2,
        registries: vec![
            RegistryConfiguration {
                schema: "/x/:module@:version?/:path*".to_string(),
                variables: vec![
                    var("module", None, "/lsp/registries/m_${module}.json"),
                    var("version", None, "/lsp/registries/v_${module}.json"),
                    var("path", None, "/lsp/registries/p_${module}_${{version}}.json"),
                ],
            },
            RegistryConfiguration {
                schema: "/x/:module".to_string(),
                variables: vec![var("module", None, "/lsp/registries/m2_${module}.json")],
            },
        ],
    };
    let fetcher = StaticFetcher {
        configs: vec![(
            "http://localhost:4545/.well-known/deno-import-intellisense.json".to_string(),
            config,
        )],
        items: vec![
            (
                "http://localhost:4545/lsp/registries/m_.json".to_string(),
                VariableItems::Simple(vec!["a".to_string(), "b".to_string()]),
            ),
            (
                "http://localhost:4545/lsp/registries/m2_.json".to_string(),
                VariableItems::List(VariableItemsList {
                    items: vec!["b".to_string(), "c".to_string()],
                    is_incomplete: false,
                    preselect: Some("b".to_string()),
                }),
            ),
        ],
        docs: vec![],
    };
    let mut registry = ModuleRegistry::new(fetcher);
    registry.enable("http://localhost:4545/").expect("could not enable");
    let r = range(20, 44);
    let completions = registry
        .get_completions("http://localhost:4545/x/", 24, &r, &FixedExists { value: false })
        .unwrap()
        .items;
    assert_eq!(completions.len(), 3);
    for item in &completions {
        if item.label == "b" {
            // the second schema's completion for `b` replaced the first one
            assert_eq!(item.preselect, Some(true));
        } else {
            assert_eq!(item.preselect, None);
        }
    }
}
