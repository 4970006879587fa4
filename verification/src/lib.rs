//! A module-registry completion engine for URL-form module specifiers: it
//! parses path-to-regex schemas, progressively matches a partial specifier
//! against schema prefixes, classifies the cursor position, resolves
//! variable values through templated endpoints, and materialises completion
//! items with text edits, sort keys, preselection and follow-up data.

pub mod config;
pub mod encoding;
pub mod fetcher;
pub mod laws;
pub mod lsp_types;
pub mod url_bridge;
pub mod regex_bridge;
pub mod registry;
pub mod path_to_regex;
pub mod template;
pub mod text;

use vstd::prelude::*;

verus! {

/// The error kinds that registry configuration handling can surface.
#[derive(Clone, Copy, Debug, PartialEq, Eq, Structural)]
pub enum RegistryError {
    /// The origin string did not parse as an absolute URL.
    BadOrigin,
    /// A schema string in a registry configuration is malformed.
    SchemaSyntax,
    /// The regex built from a schema failed to compile.
    RegexCompile,
    /// The configuration violates the version or variable-dependency rules.
    InvalidConfig,
    /// The artifact fetcher reported an error.
    FetchFailed,
    /// A fetched body did not match the expected shape.
    DecodeFailed,
}

} // verus!
