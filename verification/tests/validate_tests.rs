use registry_completions::config::{
    validate_config, RegistryConfiguration, RegistryConfigurationJson,
    RegistryConfigurationVariable,
};
use registry_completions::RegistryError;

fn var(key: &str, documentation: Option<&str>, url: &str) -> RegistryConfigurationVariable {
    RegistryConfigurationVariable {
        key: key.to_string(),
        documentation: documentation.map(|d| d.to_string()),
        url: url.to_string(),
    }
}

#[test]
fn test_validate_registry_configuration() {
    assert!(validate_config(&RegistryConfigurationJson { version: 3, registries: vec![] })
        .is_err());

    let cfg = RegistryConfigurationJson {
        version: 1,
        registries: vec![RegistryConfiguration {
            schema: "/:module@:version/:path*".to_string(),
            variables: vec![
                var("module", None, "https://api.deno.land/modules?short"),
                var("version", None, "https://deno.land/_vsc1/module/${module}"),
            ],
        }],
    };
    assert!(validate_config(&cfg).is_err());

    let cfg = RegistryConfigurationJson {
        version: 1,
        registries: vec![RegistryConfiguration {
            schema: "/:module@:version/:path*".to_string(),
            variables: vec![
                var("module", None, "https://api.deno.land/modules?short"),
                var("version", None, "https://deno.land/_vsc1/module/${module}/${path}"),
                var("path", None, "https://deno.land/_vsc1/module/${module}/v/${{version}}"),
            ],
        }],
    };
    assert!(validate_config(&cfg).is_err());

    let cfg = RegistryConfigurationJson {
        version: 1,
        registries: vec![RegistryConfiguration {
            schema: "/:module@:version/:path*".to_string(),
            variables: vec![
                var("module", None, "https://api.deno.land/modules?short"),
                var("version", None, "https://deno.land/_vsc1/module/${module}/v/${{version}}"),
                var("path", None, "https://deno.land/_vsc1/module/${module}/v/${{version}}"),
            ],
        }],
    };
    assert!(validate_config(&cfg).is_err());

    let cfg = RegistryConfigurationJson {
        version: 1,
        registries: vec![RegistryConfiguration {
            schema: "/:module@:version/:path*".to_string(),
            variables: vec![
                var("module", None, "https://api.deno.land/modules?short"),
                var("version", None, "https://deno.land/_vsc1/module/${module}"),
                var("path", None, "https://deno.land/_vsc1/module/${module}/v/${{version}}"),
            ],
        }],
    };
    assert!(validate_config(&cfg).is_ok());

    let cfg = RegistryConfigurationJson {
        version: 2,
        registries: vec![
            RegistryConfiguration {
                schema: "/x/:module([a-z0-9_]+)@:version?/:path".to_string(),
                variables: vec![
                    var("module", Some("/api/details/mods/${module}"), "/api/mods/${module}"),
                    var(
                        "version",
                        Some("/api/details/mods/${module}/v/${{version}}"),
                        "/api/mods/${module}/v/${{version}}",
                    ),
                    var(
                        "path",
                        Some("/api/details/mods/${module}/v/${{version}}/p/${path}"),
                        "/api/mods/${module}/v/${{version}}/p/${path}",
                    ),
                ],
            },
            RegistryConfiguration {
                schema: "/x/:module([a-z0-9_]+)/:path".to_string(),
                variables: vec![
                    var("module", Some("/api/details/mods/${module}"), "/api/mods/${module}"),
                    var(
                        "path",
                        Some("/api/details/mods/${module}/v/latest/p/${path}"),
                        "/api/mods/${module}/v/latest/p/${path}",
                    ),
                ],
            },
        ],
    };
    assert!(validate_config(&cfg).is_ok());
}

#[test]
fn test_validate_version_error_kind() {
    let r = validate_config(&RegistryConfigurationJson { version: 0, registries: vec![] });
    assert_eq!(r, Err(RegistryError::InvalidConfig));
}

#[test]
fn test_validate_schema_syntax_error_kind() {
    let cfg = RegistryConfigurationJson {
        version: 2,
        registries: vec![RegistryConfiguration {
            schema: "/x/:module(".to_string(),
            variables: vec![],
        }],
    };
    assert_eq!(validate_config(&cfg), Err(RegistryError::SchemaSyntax));
}

#[test]
fn test_validate_missing_variable_error_kind() {
    let cfg = RegistryConfigurationJson {
        version: 2,
        registries: vec![RegistryConfiguration {
            schema: "/x/:module".to_string(),
            variables: vec![],
        }],
    };
    assert_eq!(validate_config(&cfg), Err(RegistryError::InvalidConfig));
}

#[test]
fn test_validate_regex_compile_error_kind() {
    let cfg = RegistryConfigurationJson {
        version: 2,
        registries: vec![RegistryConfiguration {
            schema: "/x/:module([)".to_string(),
            variables: vec![var("module", None, "/api/mods/${module}")],
        }],
    };
    assert_eq!(validate_config(&cfg), Err(RegistryError::RegexCompile));
}
