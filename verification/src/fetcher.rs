//! The injected capabilities the engine depends on: an artifact fetcher
//! yielding decoded registry artifacts keyed by absolute URL, and a
//! specifier-existence test. A table-backed fetcher is provided for use
//! without a network.

use vstd::prelude::*;
use crate::RegistryError;
use crate::config::{RegistryConfigurationJson, RegistryConfigurationJsonView};
use crate::lsp_types::{Documentation, DocumentationView, VariableItems, VariableItemsView};
use crate::text::{str_chars, chars_eq};

verus! {

/// The view of an optional variable-items response.
pub open spec fn opt_items_view(o: Option<VariableItems>) -> Option<VariableItemsView> {
    match o {
        Option::Some(v) => Option::Some(v@),
        Option::None => Option::None,
    }
}

/// The view of an optional documentation value.
pub open spec fn opt_doc_view(o: Option<Documentation>) -> Option<DocumentationView> {
    match o {
        Option::Some(v) => Option::Some(v@),
        Option::None => Option::None,
    }
}

/// The view of a configuration fetch result.
pub open spec fn config_result_view(r: Result<RegistryConfigurationJson, RegistryError>) -> Result<
    RegistryConfigurationJsonView,
    RegistryError,
> {
    match r {
        Result::Ok(c) => Result::Ok(c@),
        Result::Err(e) => Result::Err(e),
    }
}

/// The capability to fetch registry artifacts, decoded, by absolute URL.
/// Each fetch is modelled by a spec function of the URL: the engine's
/// contracts describe one snapshot of the world the fetcher answers from.
pub trait ArtifactFetcher: Sized {
    /// The configuration this fetcher yields for a URL: decoded on success,
    /// `FetchFailed` when retrieval fails, `DecodeFailed` when the body does
    /// not have the configuration shape.
    spec fn config_spec(&self, url: Seq<char>) -> Result<
        RegistryConfigurationJsonView,
        RegistryError,
    >;

    /// Fetch and decode the registry configuration at `url`.
    fn fetch_config(&self, url: &str) -> (r: Result<RegistryConfigurationJson, RegistryError>)
        ensures
            config_result_view(r) == self.config_spec(url@),
    ;

    /// The variable-items response this fetcher yields for a URL.
    spec fn items_spec(&self, url: Seq<char>) -> Option<VariableItemsView>;

    /// Fetch and decode the variable-items response at `url`.
    fn fetch_items(&self, url: &str) -> (r: Option<VariableItems>)
        ensures
            opt_items_view(r) == self.items_spec(url@),
    ;

    /// The documentation value this fetcher yields for a URL.
    spec fn documentation_spec(&self, url: Seq<char>) -> Option<DocumentationView>;

    /// Fetch and decode the documentation value at `url`.
    fn fetch_documentation(&self, url: &str) -> (r: Option<Documentation>)
        ensures
            opt_doc_view(r) == self.documentation_spec(url@),
    ;

    /// Record an empty body for `url` so that later configuration fetches
    /// fail fast instead of repeating the round trip.
    fn cache_empty(&self, url: &str);
}

/// The capability to test whether a module specifier already exists for the
/// editor, modelled as a pure predicate on the specifier.
pub trait SpecifierExists: Sized {
    /// Whether `specifier` exists.
    spec fn exists_spec(&self, specifier: Seq<char>) -> bool;

    /// Test whether `specifier` exists.
    fn specifier_exists(&self, specifier: &str) -> (r: bool)
        ensures
            r == self.exists_spec(specifier@),
    ;
}

/// An existence test that answers the same for every specifier.
pub struct FixedExists {
    pub value: bool,
}

impl SpecifierExists for FixedExists {
    open spec fn exists_spec(&self, specifier: Seq<char>) -> bool {
        self.value
    }

    fn specifier_exists(&self, specifier: &str) -> (r: bool) {
        self.value
    }
}

/// The value of the first entry whose key reads `url`.
pub open spec fn lookup_config_entries(
    entries: Seq<(String, RegistryConfigurationJson)>,
    url: Seq<char>,
) -> Option<RegistryConfigurationJsonView>
    decreases entries.len(),
{
    if entries.len() == 0 {
        Option::None
    } else if entries[0].0@ == url {
        Option::Some(entries[0].1@)
    } else {
        lookup_config_entries(entries.drop_first(), url)
    }
}

/// The value of the first entry whose key reads `url`.
pub open spec fn lookup_items_entries(entries: Seq<(String, VariableItems)>, url: Seq<char>)
    -> Option<VariableItemsView>
    decreases entries.len(),
{
    if entries.len() == 0 {
        Option::None
    } else if entries[0].0@ == url {
        Option::Some(entries[0].1@)
    } else {
        lookup_items_entries(entries.drop_first(), url)
    }
}

/// The value of the first entry whose key reads `url`.
pub open spec fn lookup_doc_entries(entries: Seq<(String, Documentation)>, url: Seq<char>)
    -> Option<DocumentationView>
    decreases entries.len(),
{
    if entries.len() == 0 {
        Option::None
    } else if entries[0].0@ == url {
        Option::Some(entries[0].1@)
    } else {
        lookup_doc_entries(entries.drop_first(), url)
    }
}

/// A fetcher answering from fixed tables keyed by URL.
pub struct StaticFetcher {
    pub configs: Vec<(String, RegistryConfigurationJson)>,
    pub items: Vec<(String, VariableItems)>,
    pub docs: Vec<(String, Documentation)>,
}

fn find_config_from(entries: &Vec<(String, RegistryConfigurationJson)>, url: &str, i: usize) -> (r:
    Option<RegistryConfigurationJson>)
    requires
        i <= entries@.len(),
    ensures
        match r {
            Option::Some(c) => lookup_config_entries(entries@.skip(i as int), url@)
                == Option::Some(c@),
            Option::None => lookup_config_entries(entries@.skip(i as int), url@) is None,
        },
    decreases entries@.len() - i,
{
    if i >= entries.len() {
        Option::None
    } else {
        proof {
            assert(entries@.skip(i as int)[0] == entries@[i as int]);
            assert(entries@.skip(i as int).drop_first() =~= entries@.skip(i + 1));
        }
        if chars_eq(&str_chars(entries[i].0.as_str()), &str_chars(url)) {
            Option::Some(entries[i].1.duplicate())
        } else {
            find_config_from(entries, url, i + 1)
        }
    }
}

fn find_items_from(entries: &Vec<(String, VariableItems)>, url: &str, i: usize) -> (r: Option<
    VariableItems,
>)
    requires
        i <= entries@.len(),
    ensures
        match r {
            Option::Some(c) => lookup_items_entries(entries@.skip(i as int), url@)
                == Option::Some(c@),
            Option::None => lookup_items_entries(entries@.skip(i as int), url@) is None,
        },
    decreases entries@.len() - i,
{
    if i >= entries.len() {
        Option::None
    } else {
        proof {
            assert(entries@.skip(i as int)[0] == entries@[i as int]);
            assert(entries@.skip(i as int).drop_first() =~= entries@.skip(i + 1));
        }
        if chars_eq(&str_chars(entries[i].0.as_str()), &str_chars(url)) {
            Option::Some(entries[i].1.duplicate())
        } else {
            find_items_from(entries, url, i + 1)
        }
    }
}

fn find_doc_from(entries: &Vec<(String, Documentation)>, url: &str, i: usize) -> (r: Option<
    Documentation,
>)
    requires
        i <= entries@.len(),
    ensures
        match r {
            Option::Some(c) => lookup_doc_entries(entries@.skip(i as int), url@) == Option::Some(
                c@,
            ),
            Option::None => lookup_doc_entries(entries@.skip(i as int), url@) is None,
        },
    decreases entries@.len() - i,
{
    if i >= entries.len() {
        Option::None
    } else {
        proof {
            assert(entries@.skip(i as int)[0] == entries@[i as int]);
            assert(entries@.skip(i as int).drop_first() =~= entries@.skip(i + 1));
        }
        if chars_eq(&str_chars(entries[i].0.as_str()), &str_chars(url)) {
            Option::Some(entries[i].1.duplicate())
        } else {
            find_doc_from(entries, url, i + 1)
        }
    }
}

impl ArtifactFetcher for StaticFetcher {
    open spec fn config_spec(&self, url: Seq<char>) -> Result<
        RegistryConfigurationJsonView,
        RegistryError,
    > {
        match lookup_config_entries(self.configs@, url) {
            Option::Some(c) => Result::Ok(c),
            Option::None => Result::Err(RegistryError::FetchFailed),
        }
    }

    fn fetch_config(&self, url: &str) -> (r: Result<RegistryConfigurationJson, RegistryError>) {
        proof {
            assert(self.configs@.skip(0) =~= self.configs@);
        }
        match find_config_from(&self.configs, url, 0) {
            Option::Some(c) => Result::Ok(c),
            Option::None => Result::Err(RegistryError::FetchFailed),
        }
    }

    open spec fn items_spec(&self, url: Seq<char>) -> Option<VariableItemsView> {
        lookup_items_entries(self.items@, url)
    }

    fn fetch_items(&self, url: &str) -> (r: Option<VariableItems>) {
        proof {
            assert(self.items@.skip(0) =~= self.items@);
        }
        find_items_from(&self.items, url, 0)
    }

    open spec fn documentation_spec(&self, url: Seq<char>) -> Option<DocumentationView> {
        lookup_doc_entries(self.docs@, url)
    }

    fn fetch_documentation(&self, url: &str) -> (r: Option<Documentation>) {
        proof {
            assert(self.docs@.skip(0) =~= self.docs@);
        }
        find_doc_from(&self.docs, url, 0)
    }

    fn cache_empty(&self, url: &str) {
    }
}

} // verus!
