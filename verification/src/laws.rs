//! Laws of the library: what a validated configuration guarantees about its
//! schemas and variables, the path round-trip of back-compilation, and how
//! the completion engine's answer is determined by its inputs.

use vstd::prelude::*;
use crate::RegistryError;
use crate::config::{
    RegistryConfigurationJsonView, RegistryConfigurationView, validate_config_spec,
    validate_registry_spec, validate_registries_spec, schema_key_names, names_covered,
    variables_ok, variable_ok, has_variable, index_of_name,
};
use crate::fetcher::{ArtifactFetcher, SpecifierExists};
use crate::lsp_types::{Range, CompletionListView};
use crate::path_to_regex::{
    TokenView, ParamsView, token_path, to_path_from, to_path_spec, parse_spec,
};
use crate::registry::{
    get_completions_spec, fold_registries_spec, origins_lookup, CompletionAcc,
};
use crate::text::is_prefix_of;
use crate::url_bridge::{url_parse, url_origin_of, url_path_onward};

verus! {

/// The rendered pieces of the tokens from `i` onward lay `path` end to end:
/// each token's path text is the next segment, and nothing is left over.
pub open spec fn tiles_from(
    tokens: Seq<TokenView>,
    params: ParamsView,
    path: Seq<char>,
    i: int,
) -> bool
    decreases tokens.len() - i,
    when 0 <= i <= tokens.len()
{
    if i >= tokens.len() {
        path.len() == 0
    } else {
        let piece = token_path(tokens[i], params);
        is_prefix_of(piece, path) && tiles_from(tokens, params, path.skip(piece.len() as int), i + 1)
    }
}

/// Round trip of back-compilation: a parameter assignment whose rendered
/// pieces lay a path end to end compiles back to exactly that path. A match
/// result produced by matching `path` against `tokens` lays the path it
/// consumed end to end, so compiling it back recovers that path.
pub proof fn lemma_to_path_round_trip(
    tokens: Seq<TokenView>,
    params: ParamsView,
    path: Seq<char>,
    i: int,
)
    requires
        0 <= i <= tokens.len(),
        tiles_from(tokens, params, path, i),
    ensures
        to_path_from(tokens, params, i) == path,
    decreases tokens.len() - i,
{
    if i >= tokens.len() {
        assert(path =~= Seq::<char>::empty());
        assert(to_path_from(tokens, params, i) =~= path);
    } else {
        let piece = token_path(tokens[i], params);
        let rest = path.skip(piece.len() as int);
        lemma_to_path_round_trip(tokens, params, rest, i + 1);
        assert(to_path_from(tokens, params, i) == piece + rest);
        assert(piece + rest =~= path) by {
            assert(path.subrange(0, piece.len() as int) == piece);
        }
    }
}

proof fn lemma_validate_registries_each(
    regs: Seq<RegistryConfigurationView>,
    i: int,
    j: int,
    version: int,
)
    requires
        0 <= i <= j < regs.len(),
        validate_registries_spec(regs, i, version) is Ok,
    ensures
        validate_registry_spec(regs[j], version) is Ok,
    decreases j - i,
{
    if i < j {
        lemma_validate_registries_each(regs, i + 1, j, version);
    }
}

/// What a validated configuration guarantees, registry by registry: the
/// schema parses, every named parameter of the schema has a matching
/// variable declaration, and every variable's key is a named parameter of
/// the schema (so each variable matches at least one named parameter, and
/// when the variable keys are distinct, exactly one variable matches each
/// named parameter).
pub proof fn lemma_valid_config_keys(c: RegistryConfigurationJsonView, j: int)
    requires
        validate_config_spec(c) is Ok,
        0 <= j < c.registries.len(),
    ensures
        parse_spec(c.registries[j].schema) is Some,
        names_covered(
            schema_key_names(parse_spec(c.registries[j].schema)->Some_0),
            c.registries[j].variables,
        ),
        forall|v: int|
            0 <= v < c.registries[j].variables.len() ==> index_of_name(
                schema_key_names(parse_spec(c.registries[j].schema)->Some_0),
                c.registries[j].variables[v].key,
            ) is Some,
{
    lemma_validate_registries_each(c.registries, 0, j, c.version);
    let reg = c.registries[j];
    let tokens = parse_spec(reg.schema)->Some_0;
    let names = schema_key_names(tokens);
    assert(names_covered(names, reg.variables) && variables_ok(reg.variables, names, c.version));
    assert forall|v: int| 0 <= v < reg.variables.len() implies index_of_name(
        names,
        reg.variables[v].key,
    ) is Some by {
        assert(variable_ok(reg.variables[v], names, c.version));
    }
}

/// Uniqueness half of the correspondence: when the variable keys of a
/// registry are pairwise distinct, each named parameter is matched by
/// exactly one variable.
pub proof fn lemma_variable_match_unique(
    reg: RegistryConfigurationView,
    name: Seq<char>,
    v1: int,
    v2: int,
)
    requires
        0 <= v1 < reg.variables.len(),
        0 <= v2 < reg.variables.len(),
        forall|a: int, b: int|
            0 <= a < b < reg.variables.len() ==> reg.variables[a].key != reg.variables[b].key,
        reg.variables[v1].key == name,
        reg.variables[v2].key == name,
    ensures
        v1 == v2,
{
    if v1 < v2 {
        assert(reg.variables[v1].key != reg.variables[v2].key);
    }
    if v2 < v1 {
        assert(reg.variables[v2].key != reg.variables[v1].key);
    }
}

/// Idempotence of the engine: two completion computations over the same
/// origin map, the same fetcher snapshot, the same pure existence test and
/// the same request yield the same answer.
pub proof fn lemma_get_completions_idempotent<F: ArtifactFetcher, E: SpecifierExists>(
    origins: Seq<(Seq<char>, Seq<RegistryConfigurationView>)>,
    fetcher: &F,
    exists_test: &E,
    cur: Seq<char>,
    offset: int,
    range: Range,
    r1: Option<CompletionListView>,
    r2: Option<CompletionListView>,
)
    requires
        r1 == get_completions_spec(origins, fetcher, exists_test, cur, offset, range),
        r2 == get_completions_spec(origins, fetcher, exists_test, cur, offset, range),
    ensures
        r1 == r2,
{
}

/// The engine returns nothing exactly when no schema prefix matched and no
/// completions were produced, for a specifier inside a known origin.
pub proof fn lemma_get_completions_none_iff<F: ArtifactFetcher, E: SpecifierExists>(
    origins: Seq<(Seq<char>, Seq<RegistryConfigurationView>)>,
    fetcher: &F,
    exists_test: &E,
    cur: Seq<char>,
    offset: int,
    range: Range,
)
    requires
        url_parse(cur) is Some,
        offset >= url_origin_of(cur).len(),
        origins_lookup(origins, url_origin_of(cur)) is Some,
    ensures
        ({
            let acc = fold_registries_spec(
                fetcher,
                exists_test,
                origins_lookup(origins, url_origin_of(cur))->Some_0,
                0,
                url_path_onward(cur),
                offset - url_origin_of(cur).len(),
                url_origin_of(cur),
                cur,
                offset,
                range,
                CompletionAcc { items: Seq::empty(), is_incomplete: false, did_match: false },
            );
            get_completions_spec(origins, fetcher, exists_test, cur, offset, range) is None <==> (
            acc.items.len() == 0 && !acc.did_match)
        }),
{
}

} // verus!
