//! The module registry: the origin map, cursor classification, and the
//! completion engine over enabled registry configurations.

use vstd::prelude::*;
use crate::RegistryError;
use crate::config::{
    RegistryConfiguration, RegistryConfigurationView, registries_view, validate_config_spec,
    validate_config, url_for_key_spec, doc_url_for_key_spec,
};
use crate::fetcher::{ArtifactFetcher, SpecifierExists};
use crate::lsp_types::{
    Range, CompletionItem, CompletionItemView, CompletionList, CompletionListView,
    CompletionItemKind, TextEdit, TextEditView, Command, CommandView, Documentation,
    DocumentationView, VariableItems, VariableItemsView, opt_str_view, items_view, strings_view,
};
use crate::path_to_regex::{
    Token, TokenView, Key, KeyView, StringOrNumber, StringOrNumberView, StringOrVec, MatchResult,
    ParamsView, lookup_param, insert_param, rendered_value, of_item_spec, parse, parse_spec,
    regex_source_spec, match_tokens, Matcher, Compiler, to_path_spec, copy_chars,
};
use crate::regex_bridge::regex_valid;
use crate::template::{replace_all_spec, raw_placeholder, encoded_placeholder, substitute_spec};
use crate::encoding::percent_encode_spec;
use crate::text::{str_chars, chars_string, chars_eq, chars_starts_with, is_prefix_of, extend_chars,
    subrange_chars, zero_pad_ten, zero_pad_ten_exec};
use crate::url_bridge::{
    url_parse, url_origin_of, url_path_onward, url_join_of, url_with_path, parse_with_base_spec,
    parse_url_string, url_origin_ascii, url_path_and_after, url_join, url_set_path,
    parse_url_with_base,
};

verus! {

/// The well-known path a registry's configuration is published at.
pub open spec fn config_path_spec() -> Seq<char> {
    "/.well-known/deno-import-intellisense.json"@
}

// ---------------------------------------------------------------------------
// Cursor classification
// ---------------------------------------------------------------------------

/// The classification of the cursor within a matched schema's tokens.
pub enum CompletorType {
    Literal(Vec<char>),
    Key { key: Key, prefix: Option<Vec<char>>, index: usize },
}

/// The spec-level shape of a cursor classification.
pub enum CompletorTypeView {
    Literal(Seq<char>),
    Key { key: KeyView, prefix: Option<Seq<char>>, index: int },
}

impl View for CompletorType {
    type V = CompletorTypeView;

    open spec fn view(&self) -> CompletorTypeView {
        match self {
            CompletorType::Literal(s) => CompletorTypeView::Literal(s@),
            CompletorType::Key { key, prefix, index } => CompletorTypeView::Key {
                key: key@,
                prefix: match prefix {
                    Option::Some(p) => Option::Some(p@),
                    Option::None => Option::None,
                },
                index: *index as int,
            },
        }
    }
}

/// The view of an optional classification.
pub open spec fn opt_completor_view(o: Option<CompletorType>) -> Option<CompletorTypeView> {
    match o {
        Option::Some(c) => Option::Some(c@),
        Option::None => Option::None,
    }
}

/// The rendered length the cursor walk charges to a parameter's value: the
/// rendered captured value of a string-named parameter, nothing otherwise.
pub open spec fn param_render_len(k: KeyView, params: ParamsView) -> int {
    match lookup_param(params, k.name) {
        Option::Some(v) => rendered_value(v, Option::Some(k)).len() as int,
        Option::None => 0,
    }
}

/// Walk the tokens left to right, keeping the running character length of
/// the rendered schema, and classify where `offset` falls: inside a literal
/// or a suffix, inside a parameter's prefix or value region, or nowhere.
/// The cursor exactly at the end of a value or suffix counts as inside;
/// exactly at the end of a prefix does not.
pub open spec fn classify_from(
    tokens: Seq<TokenView>,
    params: ParamsView,
    offset: int,
    i: int,
    len: int,
) -> Option<CompletorTypeView>
    decreases tokens.len() - i,
    when 0 <= i <= tokens.len()
{
    if i >= tokens.len() {
        Option::None
    } else {
        match tokens[i] {
            TokenView::Literal(s) => {
                let len2 = len + s.len();
                if offset < len2 {
                    Option::Some(CompletorTypeView::Literal(s))
                } else {
                    classify_from(tokens, params, offset, i + 1, len2)
                }
            },
            TokenView::Param(k) => {
                let len1 = len + k.prefix.len();
                if k.prefix.len() > 0 && offset < len1 {
                    Option::Some(
                        CompletorTypeView::Key {
                            key: k,
                            prefix: Option::Some(k.prefix),
                            index: i,
                        },
                    )
                } else if offset < len1 {
                    Option::None
                } else {
                    let len2 = if k.name is Str {
                        len1 + param_render_len(k, params)
                    } else {
                        len1
                    };
                    if k.name is Str && offset <= len2 {
                        Option::Some(
                            CompletorTypeView::Key { key: k, prefix: Option::None, index: i },
                        )
                    } else {
                        let len3 = len2 + k.suffix.len();
                        if k.suffix.len() > 0 && offset <= len3 {
                            Option::Some(CompletorTypeView::Literal(k.suffix))
                        } else {
                            classify_from(tokens, params, offset, i + 1, len3)
                        }
                    }
                }
            },
        }
    }
}

/// The classification of `offset` within `tokens` under `params`.
pub open spec fn classify_spec(offset: int, tokens: Seq<TokenView>, params: ParamsView) -> Option<
    CompletorTypeView,
> {
    classify_from(tokens, params, offset, 0, 0)
}

fn classify_rec(
    tokens: &Vec<Token>,
    params: &MatchResult,
    offset: usize,
    i: usize,
    len: usize,
) -> (r: Option<CompletorType>)
    requires
        i <= tokens@.len(),
    ensures
        opt_completor_view(r) == classify_from(
            tokens.deep_view(),
            params@,
            offset as int,
            i as int,
            len as int,
        ),
    decreases tokens@.len() - i,
{
    let ghost tv = tokens.deep_view();
    if i >= tokens.len() {
        Option::None
    } else {
        proof {
            assert(tv[i as int] == tokens@[i as int]@);
        }
        match &tokens[i] {
            Token::Literal(s) => {
                if s.len() > usize::MAX - len {
                    return Option::Some(CompletorType::Literal(copy_chars(s)));
                }
                let len2 = len + s.len();
                if offset < len2 {
                    Option::Some(CompletorType::Literal(copy_chars(s)))
                } else {
                    classify_rec(tokens, params, offset, i + 1, len2)
                }
            },
            Token::Param(k) => {
                if k.prefix.len() > usize::MAX - len {
                    return Option::Some(
                        CompletorType::Key {
                            key: k.duplicate(),
                            prefix: Option::Some(copy_chars(&k.prefix)),
                            index: i,
                        },
                    );
                }
                let len1 = len + k.prefix.len();
                if k.prefix.len() > 0 && offset < len1 {
                    Option::Some(
                        CompletorType::Key {
                            key: k.duplicate(),
                            prefix: Option::Some(copy_chars(&k.prefix)),
                            index: i,
                        },
                    )
                } else if offset < len1 {
                    Option::None
                } else {
                    let is_str_name: bool = match &k.name {
                        StringOrNumber::Str(_) => true,
                        StringOrNumber::Num(_) => false,
                    };
                    let vlen: usize = if is_str_name {
                        match params.get(&k.name) {
                            Option::Some(v) => v.rendered(Option::Some(k)).len(),
                            Option::None => 0,
                        }
                    } else {
                        0
                    };
                    if is_str_name && vlen > usize::MAX - len1 {
                        return Option::Some(
                            CompletorType::Key {
                                key: k.duplicate(),
                                prefix: Option::None,
                                index: i,
                            },
                        );
                    }
                    let len2 = len1 + vlen;
                    if is_str_name && offset <= len2 {
                        Option::Some(
                            CompletorType::Key {
                                key: k.duplicate(),
                                prefix: Option::None,
                                index: i,
                            },
                        )
                    } else {
                        if k.suffix.len() > usize::MAX - len2 {
                            return Option::Some(CompletorType::Literal(copy_chars(&k.suffix)));
                        }
                        let len3 = len2 + k.suffix.len();
                        if k.suffix.len() > 0 && offset <= len3 {
                            Option::Some(CompletorType::Literal(copy_chars(&k.suffix)))
                        } else {
                            classify_rec(tokens, params, offset, i + 1, len3)
                        }
                    }
                }
            },
        }
    }
}

/// Determine whether a completion at `offset` falls on a string literal or
/// on a parameter of the schema.
pub fn get_completor_type(offset: usize, tokens: &Vec<Token>, match_result: &MatchResult) -> (r:
    Option<CompletorType>)
    ensures
        opt_completor_view(r) == classify_spec(offset as int, tokens.deep_view(), match_result@),
{
    classify_rec(tokens, match_result, offset, 0, 0)
}

// ---------------------------------------------------------------------------
// The origin map
// ---------------------------------------------------------------------------

/// The views of the origin map's entries.
pub open spec fn origins_view(v: Seq<(String, Vec<RegistryConfiguration>)>) -> Seq<
    (Seq<char>, Seq<RegistryConfigurationView>),
> {
    Seq::new(v.len(), |i: int| (v[i].0@, registries_view(v[i].1@)))
}

/// The origin keys, in insertion order.
pub open spec fn origin_keys(o: Seq<(Seq<char>, Seq<RegistryConfigurationView>)>) -> Seq<
    Seq<char>,
> {
    Seq::new(o.len(), |i: int| o[i].0)
}

/// The configurations of the first entry keyed `key`.
pub open spec fn origins_lookup(
    o: Seq<(Seq<char>, Seq<RegistryConfigurationView>)>,
    key: Seq<char>,
) -> Option<Seq<RegistryConfigurationView>>
    decreases o.len(),
{
    if o.len() == 0 {
        Option::None
    } else if o[0].0 == key {
        Option::Some(o[0].1)
    } else {
        origins_lookup(o.drop_first(), key)
    }
}

/// The map without its first entry keyed `key`.
pub open spec fn origins_remove(
    o: Seq<(Seq<char>, Seq<RegistryConfigurationView>)>,
    key: Seq<char>,
) -> Seq<(Seq<char>, Seq<RegistryConfigurationView>)>
    decreases o.len(),
{
    if o.len() == 0 {
        o
    } else if o[0].0 == key {
        o.drop_first()
    } else {
        seq![o[0]] + origins_remove(o.drop_first(), key)
    }
}

} // verus!

verus! {

// ---------------------------------------------------------------------------
// The completion engine: specification
// ---------------------------------------------------------------------------

/// The name of the last token's parameter, when the last token is a
/// string-named parameter; empty otherwise.
pub open spec fn last_key_name(tokens: Seq<TokenView>) -> Seq<char> {
    if tokens.len() > 0 {
        match tokens.last() {
            TokenView::Param(k) => match k.name {
                StringOrNumberView::Str(s) => s,
                _ => Seq::empty(),
            },
            _ => Seq::empty(),
        }
    } else {
        Seq::empty()
    }
}

/// The longest matching schema prefix: the greatest `j <= i` such that the
/// regex of the first `j` tokens compiles and matches `path`, with the
/// parameters that match captured.
pub open spec fn best_match_from(tokens: Seq<TokenView>, path: Seq<char>, i: int) -> Option<
    (int, ParamsView),
>
    decreases i,
    when 0 <= i <= tokens.len()
{
    if i <= 0 {
        Option::None
    } else {
        let pre = tokens.take(i);
        if regex_valid(regex_source_spec(pre)) {
            match match_tokens(pre, path) {
                Option::Some(ps) => Option::Some((i, ps)),
                Option::None => best_match_from(tokens, path, i - 1),
            }
        } else {
            best_match_from(tokens, path, i - 1)
        }
    }
}

/// The accumulator the engine folds over registries: completions keyed by
/// item text, the list-level incompleteness flag, and whether any schema
/// prefix matched.
pub struct CompletionAcc {
    pub items: Seq<(Seq<char>, CompletionItemView)>,
    pub is_incomplete: bool,
    pub did_match: bool,
}

/// The first accumulator index keyed `key`, from `i` on.
pub open spec fn acc_index_from(
    acc: Seq<(Seq<char>, CompletionItemView)>,
    key: Seq<char>,
    i: int,
) -> Option<int>
    decreases acc.len() - i,
    when 0 <= i <= acc.len()
{
    if i >= acc.len() {
        Option::None
    } else if acc[i].0 == key {
        Option::Some(i)
    } else {
        acc_index_from(acc, key, i + 1)
    }
}

/// Insert keyed by `key`, overwriting an earlier completion with that key.
pub open spec fn acc_insert(
    acc: Seq<(Seq<char>, CompletionItemView)>,
    key: Seq<char>,
    item: CompletionItemView,
) -> Seq<(Seq<char>, CompletionItemView)> {
    match acc_index_from(acc, key, 0) {
        Option::Some(i) => acc.update(i, (key, item)),
        Option::None => acc.push((key, item)),
    }
}

/// The completion values, in insertion order.
pub open spec fn acc_values(acc: Seq<(Seq<char>, CompletionItemView)>) -> Seq<CompletionItemView> {
    Seq::new(acc.len(), |i: int| acc[i].1)
}

/// The follow-up command that caches a module.
pub open spec fn cache_command_spec(url: Seq<char>) -> CommandView {
    CommandView { title: Seq::empty(), command: "deno.cache"@, arguments: seq![url] }
}

/// The text of a string name; empty for a numbered name.
pub open spec fn name_text(n: StringOrNumberView) -> Seq<char> {
    match n {
        StringOrNumberView::Str(s) => s,
        _ => Seq::empty(),
    }
}

/// The detail shown for a parameter completion: its name in parentheses.
pub open spec fn detail_spec(k: KeyView) -> Seq<char> {
    seq!['('] + name_text(k.name) + seq![')']
}

/// The completion offered when the cursor sits in literal text: the literal
/// spliced into the specifier at the cursor.
pub open spec fn literal_item_spec(s: Seq<char>, cur: Seq<char>, offset: int, range: Range)
    -> CompletionItemView {
    let full = cur.take(offset) + s + cur.skip(offset);
    CompletionItemView {
        label: s,
        kind: Option::Some(CompletionItemKind::Folder),
        detail: Option::None,
        sort_text: Option::Some("1"@),
        filter_text: Option::Some(full),
        text_edit: Option::Some(TextEditView { range, new_text: full }),
        command: Option::None,
        preselect: Option::None,
        data: Option::None,
    }
}

/// One placeholder's substitution applied during endpoint resolution: the
/// raw form takes the rendered value, the doubled form its percent-encoded
/// rendering.
pub open spec fn substitute_one(url: Seq<char>, n: Seq<char>, rendered: Seq<char>) -> Seq<char> {
    replace_all_spec(
        replace_all_spec(url, raw_placeholder(n), rendered),
        encoded_placeholder(n),
        percent_encode_spec(rendered),
    )
}

/// The first parameter token named `name`.
pub open spec fn first_key_with_name(tokens: Seq<TokenView>, i: int, name: StringOrNumberView)
    -> Option<KeyView>
    decreases tokens.len() - i,
    when 0 <= i <= tokens.len()
{
    if i >= tokens.len() {
        Option::None
    } else {
        match tokens[i] {
            TokenView::Param(k) => if k.name == name {
                Option::Some(k)
            } else {
                first_key_with_name(tokens, i + 1, name)
            },
            _ => first_key_with_name(tokens, i + 1, name),
        }
    }
}

/// Every string-named parameter of the match result substituted into the
/// template, in match order.
pub open spec fn substitute_params_spec(
    url: Seq<char>,
    tokens: Seq<TokenView>,
    mr: ParamsView,
    i: int,
) -> Seq<char>
    decreases mr.len() - i,
    when 0 <= i <= mr.len()
{
    if i >= mr.len() {
        url
    } else {
        match mr[i].0 {
            StringOrNumberView::Str(n) => {
                let maybe_key = first_key_with_name(tokens, 0, mr[i].0);
                let rendered = rendered_value(mr[i].1, maybe_key);
                substitute_params_spec(substitute_one(url, n, rendered), tokens, mr, i + 1)
            },
            _ => substitute_params_spec(url, tokens, mr, i + 1),
        }
    }
}

/// A variable's placeholders replaced by a value, or blanked when none is
/// given; numbered names leave the template unchanged.
pub open spec fn replace_variable_spec(
    url: Seq<char>,
    k: KeyView,
    maybe_value: Option<Seq<char>>,
) -> Seq<char> {
    let value = match maybe_value {
        Option::Some(v) => v,
        Option::None => Seq::empty(),
    };
    match k.name {
        StringOrNumberView::Str(n) => substitute_spec(url, n, value),
        _ => url,
    }
}

/// A single-variable template resolved against a base.
pub open spec fn endpoint_spec(
    url: Seq<char>,
    base: Seq<char>,
    k: KeyView,
    maybe_value: Option<Seq<char>>,
) -> Option<Seq<char>> {
    parse_with_base_spec(replace_variable_spec(url, k, maybe_value), base)
}

/// A templated URL resolved against a base with a full match: the
/// variable's own placeholder is filled first when a value is given, every
/// matched parameter is substituted, and the variable's placeholder is
/// blanked when no value was given.
pub open spec fn endpoint_with_match_spec(
    k: KeyView,
    url: Seq<char>,
    base: Seq<char>,
    tokens: Seq<TokenView>,
    mr: ParamsView,
    maybe_value: Option<Seq<char>>,
) -> Option<Seq<char>> {
    let u0 = match maybe_value {
        Option::Some(v) => replace_variable_spec(url, k, Option::Some(v)),
        Option::None => url,
    };
    let u1 = substitute_params_spec(u0, tokens, mr, 0);
    let u2 = if maybe_value is None {
        replace_variable_spec(u1, k, Option::None)
    } else {
        u1
    };
    parse_with_base_spec(u2, base)
}

/// The documentation data attached to a completion: the variable's
/// documentation template with the item's value filled in, resolved against
/// the base.
pub open spec fn data_spec(
    reg: RegistryConfigurationView,
    base: Seq<char>,
    k: KeyView,
    value: Seq<char>,
) -> Option<Seq<char>> {
    match doc_url_for_key_spec(reg.variables, k.name) {
        Option::None => Option::None,
        Option::Some(du) => endpoint_spec(du, base, k, Option::Some(value)),
    }
}

/// Whether an item is preselected: exactly when it equals the response's
/// preselect value.
pub open spec fn preselect_spec(item: Seq<char>, pre: Option<Seq<char>>) -> Option<bool> {
    match pre {
        Option::Some(p) => if p == item {
            Option::Some(true)
        } else {
            Option::None
        },
        Option::None => Option::None,
    }
}

/// The items of a variable-items response.
pub open spec fn items_of_response(v: VariableItemsView) -> Seq<Seq<char>> {
    match v {
        VariableItemsView::Simple(items) => items,
        VariableItemsView::List(l) => l.items,
    }
}

/// The preselect hint of a variable-items response.
pub open spec fn preselect_of_response(v: VariableItemsView) -> Option<Seq<char>> {
    match v {
        VariableItemsView::Simple(_) => Option::None,
        VariableItemsView::List(l) => l.preselect,
    }
}

/// The incompleteness flag of a variable-items response.
pub open spec fn incomplete_of_response(v: VariableItemsView) -> bool {
    match v {
        VariableItemsView::Simple(_) => false,
        VariableItemsView::List(l) => l.is_incomplete,
    }
}

/// The completion one item of a parameter's value list yields, or nothing
/// when the item's specifier cannot be joined against the origin.
pub open spec fn item_completion_spec<E: SpecifierExists>(
    exists: &E,
    reg: RegistryConfigurationView,
    tokens: Seq<TokenView>,
    mr: ParamsView,
    k: KeyView,
    prefix_opt: Option<Seq<char>>,
    index: int,
    origin: Seq<char>,
    cur: Seq<char>,
    range: Range,
    last: Seq<char>,
    item: Seq<char>,
    idx: int,
    preselect: Option<Seq<char>>,
) -> Option<(Seq<char>, CompletionItemView)> {
    let params2 = insert_param(mr, k.name, of_item_spec(item, k));
    let path2 = to_path_spec(tokens.take(index + 1), params2);
    match url_join_of(origin, path2) {
        Option::None => Option::None,
        Option::Some(full) => {
            let label = match prefix_opt {
                Option::Some(p) => p + item,
                Option::None => item,
            };
            let is_last = k.name == StringOrNumberView::Str(last);
            let kind = if is_last {
                CompletionItemKind::File
            } else {
                CompletionItemKind::Folder
            };
            let command = if is_last && !exists.exists_spec(full) {
                Option::Some(cache_command_spec(full))
            } else {
                Option::None
            };
            Option::Some(
                (
                    item,
                    CompletionItemView {
                        label,
                        kind: Option::Some(kind),
                        detail: Option::Some(detail_spec(k)),
                        sort_text: Option::Some(zero_pad_ten(idx + 1)),
                        filter_text: Option::Some(full),
                        text_edit: Option::Some(TextEditView { range, new_text: full }),
                        command,
                        preselect: preselect_spec(item, preselect),
                        data: data_spec(reg, cur, k, item),
                    },
                ),
            )
        },
    }
}

/// The items of a parameter's value list folded into the accumulator, from
/// `idx` on.
pub open spec fn fold_items_spec<E: SpecifierExists>(
    exists: &E,
    reg: RegistryConfigurationView,
    tokens: Seq<TokenView>,
    mr: ParamsView,
    k: KeyView,
    prefix_opt: Option<Seq<char>>,
    index: int,
    origin: Seq<char>,
    cur: Seq<char>,
    range: Range,
    last: Seq<char>,
    items: Seq<Seq<char>>,
    idx: int,
    preselect: Option<Seq<char>>,
    acc: Seq<(Seq<char>, CompletionItemView)>,
) -> Seq<(Seq<char>, CompletionItemView)>
    decreases items.len() - idx,
    when 0 <= idx <= items.len()
{
    if idx >= items.len() {
        acc
    } else {
        let entry = item_completion_spec(
            exists,
            reg,
            tokens,
            mr,
            k,
            prefix_opt,
            index,
            origin,
            cur,
            range,
            last,
            items[idx],
            idx,
            preselect,
        );
        let acc2 = match entry {
            Option::None => acc,
            Option::Some(e) => acc_insert(acc, e.0, e.1),
        };
        fold_items_spec(
            exists,
            reg,
            tokens,
            mr,
            k,
            prefix_opt,
            index,
            origin,
            cur,
            range,
            last,
            items,
            idx + 1,
            preselect,
            acc2,
        )
    }
}

/// The completions a parameter classification yields: the variable's
/// endpoint is resolved and fetched, and each returned item becomes a
/// completion; when the variable is unknown or the fetch yields nothing,
/// the accumulator is unchanged.
pub open spec fn key_completions_spec<F: ArtifactFetcher, E: SpecifierExists>(
    fetcher: &F,
    exists: &E,
    reg: RegistryConfigurationView,
    tokens: Seq<TokenView>,
    mr: ParamsView,
    k: KeyView,
    prefix_opt: Option<Seq<char>>,
    index: int,
    origin: Seq<char>,
    cur: Seq<char>,
    range: Range,
    last: Seq<char>,
    acc: CompletionAcc,
) -> CompletionAcc {
    match url_for_key_spec(reg.variables, k.name) {
        Option::None => acc,
        Option::Some(u) => match endpoint_with_match_spec(k, u, cur, tokens, mr, Option::None) {
            Option::None => acc,
            Option::Some(endpoint) => match fetcher.items_spec(endpoint) {
                Option::None => acc,
                Option::Some(resp) => CompletionAcc {
                    items: fold_items_spec(
                        exists,
                        reg,
                        tokens,
                        mr,
                        k,
                        prefix_opt,
                        index,
                        origin,
                        cur,
                        range,
                        last,
                        items_of_response(resp),
                        0,
                        preselect_of_response(resp),
                        acc.items,
                    ),
                    is_incomplete: acc.is_incomplete || incomplete_of_response(resp),
                    did_match: acc.did_match,
                },
            },
        },
    }
}

/// The completion the no-match fallback offers for a leading literal: the
/// literal as the specifier's new path, preselected.
pub open spec fn fallback_literal_item_spec(s: Seq<char>, full: Seq<char>, range: Range)
    -> CompletionItemView {
    CompletionItemView {
        label: s,
        kind: Option::Some(CompletionItemKind::Folder),
        detail: Option::None,
        sort_text: Option::Some("1"@),
        filter_text: Option::Some(full),
        text_edit: Option::Some(TextEditView { range, new_text: full }),
        command: Option::None,
        preselect: Option::Some(true),
        data: Option::None,
    }
}

/// The completion one item yields in the no-match fallback for a leading
/// parameter with a prefix.
pub open spec fn prefix_item_completion_spec<E: SpecifierExists>(
    exists: &E,
    reg: RegistryConfigurationView,
    k: KeyView,
    origin: Seq<char>,
    cur: Seq<char>,
    range: Range,
    last: Seq<char>,
    item: Seq<char>,
    idx: int,
    preselect: Option<Seq<char>>,
) -> Option<(Seq<char>, CompletionItemView)> {
    let path2 = k.prefix + item;
    match url_join_of(origin, path2) {
        Option::None => Option::None,
        Option::Some(full) => {
            let is_last = k.name == StringOrNumberView::Str(last);
            let command = if is_last && !exists.exists_spec(full) {
                Option::Some(cache_command_spec(full))
            } else {
                Option::None
            };
            Option::Some(
                (
                    item,
                    CompletionItemView {
                        label: item,
                        kind: Option::Some(CompletionItemKind::Folder),
                        detail: Option::Some(detail_spec(k)),
                        sort_text: Option::Some(zero_pad_ten(idx + 1)),
                        filter_text: Option::Some(full),
                        text_edit: Option::Some(TextEditView { range, new_text: full }),
                        command,
                        preselect: preselect_spec(item, preselect),
                        data: data_spec(reg, cur, k, path2),
                    },
                ),
            )
        },
    }
}

/// The fallback items folded into the accumulator, from `idx` on.
pub open spec fn fold_prefix_items_spec<E: SpecifierExists>(
    exists: &E,
    reg: RegistryConfigurationView,
    k: KeyView,
    origin: Seq<char>,
    cur: Seq<char>,
    range: Range,
    last: Seq<char>,
    items: Seq<Seq<char>>,
    idx: int,
    preselect: Option<Seq<char>>,
    acc: Seq<(Seq<char>, CompletionItemView)>,
) -> Seq<(Seq<char>, CompletionItemView)>
    decreases items.len() - idx,
    when 0 <= idx <= items.len()
{
    if idx >= items.len() {
        acc
    } else {
        let entry = prefix_item_completion_spec(
            exists,
            reg,
            k,
            origin,
            cur,
            range,
            last,
            items[idx],
            idx,
            preselect,
        );
        let acc2 = match entry {
            Option::None => acc,
            Option::Some(e) => acc_insert(acc, e.0, e.1),
        };
        fold_prefix_items_spec(
            exists,
            reg,
            k,
            origin,
            cur,
            range,
            last,
            items,
            idx + 1,
            preselect,
            acc2,
        )
    }
}

/// What the engine offers when no schema prefix matched: a leading literal
/// that the path is a prefix of becomes a preselected completion; a leading
/// parameter with a non-empty prefix has its unsubstituted endpoint fetched
/// and its items offered.
pub open spec fn fallback_spec<F: ArtifactFetcher, E: SpecifierExists>(
    fetcher: &F,
    exists: &E,
    reg: RegistryConfigurationView,
    tokens: Seq<TokenView>,
    path: Seq<char>,
    origin: Seq<char>,
    cur: Seq<char>,
    range: Range,
    last: Seq<char>,
    acc: CompletionAcc,
) -> CompletionAcc {
    if tokens.len() == 0 {
        acc
    } else {
        match tokens[0] {
            TokenView::Literal(s) => if is_prefix_of(path, s) {
                match url_with_path(cur, s) {
                    Option::None => acc,
                    Option::Some(full) => CompletionAcc {
                        items: acc_insert(acc.items, s, fallback_literal_item_spec(s, full, range)),
                        is_incomplete: acc.is_incomplete,
                        did_match: acc.did_match,
                    },
                }
            } else {
                acc
            },
            TokenView::Param(k) => if k.prefix.len() > 0 {
                match url_for_key_spec(reg.variables, k.name) {
                    Option::None => acc,
                    Option::Some(u) => match url_parse(u) {
                        Option::None => acc,
                        Option::Some(endpoint) => match fetcher.items_spec(endpoint) {
                            Option::None => acc,
                            Option::Some(resp) => CompletionAcc {
                                items: fold_prefix_items_spec(
                                    exists,
                                    reg,
                                    k,
                                    origin,
                                    cur,
                                    range,
                                    last,
                                    items_of_response(resp),
                                    0,
                                    preselect_of_response(resp),
                                    acc.items,
                                ),
                                is_incomplete: acc.is_incomplete || incomplete_of_response(resp),
                                did_match: acc.did_match,
                            },
                        },
                    },
                }
            } else {
                acc
            },
        }
    }
}

/// The completions one registry contributes: its schema is parsed, the
/// longest matching prefix found, the cursor classified, and the resulting
/// completions folded in; a schema that does not parse is skipped.
pub open spec fn registry_completions_spec<F: ArtifactFetcher, E: SpecifierExists>(
    fetcher: &F,
    exists: &E,
    reg: RegistryConfigurationView,
    path: Seq<char>,
    path_offset: int,
    origin: Seq<char>,
    cur: Seq<char>,
    offset: int,
    range: Range,
    acc: CompletionAcc,
) -> CompletionAcc {
    match parse_spec(reg.schema) {
        Option::None => acc,
        Option::Some(tokens) => {
            let last = last_key_name(tokens);
            match best_match_from(tokens, path, tokens.len() as int) {
                Option::Some(m) => {
                    let mr = m.1;
                    let acc1 = CompletionAcc {
                        items: acc.items,
                        is_incomplete: acc.is_incomplete,
                        did_match: true,
                    };
                    match classify_spec(path_offset, tokens, mr) {
                        Option::None => acc1,
                        Option::Some(CompletorTypeView::Literal(s)) => CompletionAcc {
                            items: acc_insert(
                                acc1.items,
                                s,
                                literal_item_spec(s, cur, offset, range),
                            ),
                            is_incomplete: acc1.is_incomplete,
                            did_match: true,
                        },
                        Option::Some(CompletorTypeView::Key { key, prefix, index }) =>
                            key_completions_spec(
                            fetcher,
                            exists,
                            reg,
                            tokens,
                            mr,
                            key,
                            prefix,
                            index,
                            origin,
                            cur,
                            range,
                            last,
                            acc1,
                        ),
                    }
                },
                Option::None => fallback_spec(
                    fetcher,
                    exists,
                    reg,
                    tokens,
                    path,
                    origin,
                    cur,
                    range,
                    last,
                    acc,
                ),
            }
        },
    }
}

/// The registries folded in order, from `i` on.
pub open spec fn fold_registries_spec<F: ArtifactFetcher, E: SpecifierExists>(
    fetcher: &F,
    exists: &E,
    regs: Seq<RegistryConfigurationView>,
    i: int,
    path: Seq<char>,
    path_offset: int,
    origin: Seq<char>,
    cur: Seq<char>,
    offset: int,
    range: Range,
    acc: CompletionAcc,
) -> CompletionAcc
    decreases regs.len() - i,
    when 0 <= i <= regs.len()
{
    if i >= regs.len() {
        acc
    } else {
        fold_registries_spec(
            fetcher,
            exists,
            regs,
            i + 1,
            path,
            path_offset,
            origin,
            cur,
            offset,
            range,
            registry_completions_spec(
                fetcher,
                exists,
                regs[i],
                path,
                path_offset,
                origin,
                cur,
                offset,
                range,
                acc,
            ),
        )
    }
}

/// An origin with its trailing slash removed.
pub open spec fn strip_trailing_slash(o: Seq<char>) -> Seq<char> {
    if o.len() > 0 && o.last() == '/' {
        o.drop_last()
    } else {
        o
    }
}

/// The completion offered for one known origin.
pub open spec fn origin_item_spec(origin_stripped: Seq<char>, range: Range) -> CompletionItemView {
    CompletionItemView {
        label: origin_stripped,
        kind: Option::Some(CompletionItemKind::Folder),
        detail: Option::Some("(registry)"@),
        sort_text: Option::Some("2"@),
        filter_text: Option::None,
        text_edit: Option::Some(TextEditView { range, new_text: origin_stripped }),
        command: Option::None,
        preselect: Option::None,
        data: Option::None,
    }
}

/// The origin completions, from key `i` on: every known origin, trailing
/// slash removed, that starts with the typed specifier.
pub open spec fn origin_items_from(
    keys: Seq<Seq<char>>,
    cur: Seq<char>,
    range: Range,
    i: int,
) -> Seq<CompletionItemView>
    decreases keys.len() - i,
    when 0 <= i <= keys.len()
{
    if i >= keys.len() {
        Seq::empty()
    } else {
        let o = strip_trailing_slash(keys[i]);
        let rest = origin_items_from(keys, cur, range, i + 1);
        if is_prefix_of(cur, o) {
            seq![origin_item_spec(o, range)] + rest
        } else {
            rest
        }
    }
}

/// What the origin-completion fallback returns: the matching origins, or
/// nothing when none match.
pub open spec fn get_origin_completions_spec(
    keys: Seq<Seq<char>>,
    cur: Seq<char>,
    range: Range,
) -> Option<CompletionListView> {
    let items = origin_items_from(keys, cur, range, 0);
    if items.len() > 0 {
        Option::Some(CompletionListView { items, is_incomplete: false })
    } else {
        Option::None
    }
}

/// What the engine returns. A specifier that parses as an absolute URL with
/// the cursor at or past its origin, whose origin is enabled, is completed
/// against that origin's registries: nothing exactly when no schema prefix
/// matched and no completions were produced. Anything else falls back to
/// origin completions.
pub open spec fn get_completions_spec<F: ArtifactFetcher, E: SpecifierExists>(
    origins: Seq<(Seq<char>, Seq<RegistryConfigurationView>)>,
    fetcher: &F,
    exists: &E,
    cur: Seq<char>,
    offset: int,
    range: Range,
) -> Option<CompletionListView> {
    if url_parse(cur) is Some {
        let origin = url_origin_of(cur);
        if offset >= origin.len() && origins_lookup(origins, origin) is Some {
            let regs = origins_lookup(origins, origin)->Some_0;
            let path = url_path_onward(cur);
            let acc = fold_registries_spec(
                fetcher,
                exists,
                regs,
                0,
                path,
                offset - origin.len(),
                origin,
                cur,
                offset,
                range,
                CompletionAcc {
                    items: Seq::empty(),
                    is_incomplete: false,
                    did_match: false,
                },
            );
            if acc.items.len() == 0 && !acc.did_match {
                Option::None
            } else {
                Option::Some(
                    CompletionListView {
                        items: acc_values(acc.items),
                        is_incomplete: acc.is_incomplete,
                    },
                )
            }
        } else {
            get_origin_completions_spec(origin_keys(origins), cur, range)
        }
    } else {
        get_origin_completions_spec(origin_keys(origins), cur, range)
    }
}

/// What fetching and validating a configuration yields: the fetcher's
/// error, the validator's error, or the registries of a valid document.
pub open spec fn fetch_config_spec<F: ArtifactFetcher>(fetcher: &F, url: Seq<char>) -> Result<
    Seq<RegistryConfigurationView>,
    RegistryError,
> {
    match fetcher.config_spec(url) {
        Result::Err(e) => Result::Err(e),
        Result::Ok(c) => match validate_config_spec(c) {
            Result::Err(e) => Result::Err(e),
            Result::Ok(_) => Result::Ok(c.registries),
        },
    }
}

} // verus!

verus! {

// ---------------------------------------------------------------------------
// The completion engine: executable helpers
// ---------------------------------------------------------------------------

/// The view of an optional completion list.
pub open spec fn opt_list_view(o: Option<CompletionList>) -> Option<CompletionListView> {
    match o {
        Option::Some(l) => Option::Some(l@),
        Option::None => Option::None,
    }
}

/// The views of completion accumulator entries.
pub open spec fn comp_acc_view(v: Seq<(String, CompletionItem)>) -> Seq<
    (Seq<char>, CompletionItemView),
> {
    Seq::new(v.len(), |i: int| (v[i].0@, v[i].1@))
}

/// The engine's executable accumulator.
pub struct EngineAcc {
    pub items: Vec<(String, CompletionItem)>,
    pub is_incomplete: bool,
    pub did_match: bool,
}

/// The view of the executable accumulator.
pub open spec fn engine_acc_view(a: EngineAcc) -> CompletionAcc {
    CompletionAcc {
        items: comp_acc_view(a.items@),
        is_incomplete: a.is_incomplete,
        did_match: a.did_match,
    }
}

fn acc_find_from(acc: &Vec<(String, CompletionItem)>, key: &Vec<char>, i: usize) -> (r: Option<
    usize,
>)
    requires
        i <= acc@.len(),
    ensures
        match r {
            Option::Some(k) => acc_index_from(comp_acc_view(acc@), key@, i as int)
                == Option::Some(k as int) && k < acc@.len(),
            Option::None => acc_index_from(comp_acc_view(acc@), key@, i as int) is None,
        },
    decreases acc@.len() - i,
{
    if i >= acc.len() {
        Option::None
    } else {
        proof {
            assert(comp_acc_view(acc@)[i as int] == (acc@[i as int].0@, acc@[i as int].1@));
        }
        if chars_eq(&str_chars(acc[i].0.as_str()), key) {
            Option::Some(i)
        } else {
            acc_find_from(acc, key, i + 1)
        }
    }
}

fn acc_insert_exec(acc: Vec<(String, CompletionItem)>, key: String, item: CompletionItem) -> (r:
    Vec<(String, CompletionItem)>)
    ensures
        comp_acc_view(r@) == acc_insert(comp_acc_view(acc@), key@, item@),
{
    let kc = str_chars(key.as_str());
    let ghost keyv = key@;
    let ghost itemv = item@;
    let ghost accv = comp_acc_view(acc@);
    match acc_find_from(&acc, &kc, 0) {
        Option::Some(idx) => {
            let mut a = acc;
            a[idx] = (key, item);
            proof {
                assert forall|x: int| 0 <= x < a@.len() implies comp_acc_view(a@)[x] == accv.update(
                    idx as int,
                    (keyv, itemv),
                )[x] by {
                    if x != idx {
                        assert(comp_acc_view(a@)[x] == (a@[x].0@, a@[x].1@));
                    }
                }
                assert(comp_acc_view(a@) =~= accv.update(idx as int, (keyv, itemv)));
            }
            a
        },
        Option::None => {
            let mut a = acc;
            a.push((key, item));
            proof {
                assert forall|x: int| 0 <= x < a@.len() implies comp_acc_view(a@)[x] == accv.push(
                    (keyv, itemv),
                )[x] by {
                    if x < accv.len() {
                        assert(comp_acc_view(a@)[x] == (a@[x].0@, a@[x].1@));
                    }
                }
                assert(comp_acc_view(a@) =~= accv.push((keyv, itemv)));
            }
            a
        },
    }
}

/// Replace a variable's placeholders in a templated URL with the supplied
/// value, or blank them when there is none.
pub fn replace_variable(url: &str, variable: &Key, maybe_value: Option<&str>) -> (r: String)
    ensures
        r@ == replace_variable_spec(
            url@,
            variable@,
            match maybe_value {
                Option::Some(v) => Option::Some(v@),
                Option::None => Option::None,
            },
        ),
{
    let value_chars: Vec<char> = match maybe_value {
        Option::Some(v) => str_chars(v),
        Option::None => Vec::new(),
    };
    match &variable.name {
        StringOrNumber::Str(n) => {
            let out = crate::template::substitute(&str_chars(url), n, &value_chars);
            chars_string(&out)
        },
        StringOrNumber::Num(_) => {
            let s = url.to_owned();
            s
        },
    }
}

/// Resolve a single-variable templated URL against a base.
pub fn get_endpoint(url: &str, base: &str, variable: &Key, maybe_value: Option<&str>) -> (r:
    Option<String>)
    ensures
        crate::url_bridge::opt_string_view(r) == endpoint_spec(
            url@,
            base@,
            variable@,
            match maybe_value {
                Option::Some(v) => Option::Some(v@),
                Option::None => Option::None,
            },
        ),
{
    let replaced = replace_variable(url, variable, maybe_value);
    parse_url_with_base(replaced.as_str(), base)
}

fn first_key_with_name_exec(tokens: &Vec<Token>, i: usize, name: &StringOrNumber) -> (r: Option<
    Key,
>)
    requires
        i <= tokens@.len(),
    ensures
        match r {
            Option::Some(k) => first_key_with_name(tokens.deep_view(), i as int, name@)
                == Option::Some(k@),
            Option::None => first_key_with_name(tokens.deep_view(), i as int, name@) is None,
        },
    decreases tokens@.len() - i,
{
    if i >= tokens.len() {
        Option::None
    } else {
        proof {
            assert(tokens.deep_view()[i as int] == tokens@[i as int]@);
        }
        match &tokens[i] {
            Token::Param(k) => {
                if k.name.same(name) {
                    Option::Some(k.duplicate())
                } else {
                    first_key_with_name_exec(tokens, i + 1, name)
                }
            },
            _ => first_key_with_name_exec(tokens, i + 1, name),
        }
    }
}

fn substitute_params_exec(
    url: Vec<char>,
    tokens: &Vec<Token>,
    match_result: &MatchResult,
    i: usize,
) -> (r: Vec<char>)
    requires
        i <= match_result.params@.len(),
    ensures
        r@ == substitute_params_spec(url@, tokens.deep_view(), match_result@, i as int),
    decreases match_result.params@.len() - i,
{
    let ghost mr = match_result@;
    if i >= match_result.params.len() {
        url
    } else {
        proof {
            assert(mr[i as int] == (
                match_result.params@[i as int].0@,
                match_result.params@[i as int].1@,
            ));
        }
        match &match_result.params[i].0 {
            StringOrNumber::Str(n) => {
                let maybe_key = first_key_with_name_exec(tokens, 0, &match_result.params[i].0);
                let rendered = match_result.params[i].1.rendered(maybe_key.as_ref());
                let p1 = crate::template::raw_placeholder_exec(n);
                let p2 = crate::template::encoded_placeholder_exec(n);
                let u1 = crate::template::replace_all(&url, &p1, &rendered);
                let encoded = crate::encoding::percent_encode_component(&rendered);
                let u2 = crate::template::replace_all(&u1, &p2, &encoded);
                substitute_params_exec(u2, tokens, match_result, i + 1)
            },
            StringOrNumber::Num(_) => substitute_params_exec(url, tokens, match_result, i + 1),
        }
    }
}

/// Resolve a templated URL against a base, substituting the variable's own
/// value first (or blanking it last) and every matched parameter between.
pub fn get_endpoint_with_match(
    variable: &Key,
    url: &str,
    base: &str,
    tokens: &Vec<Token>,
    match_result: &MatchResult,
    maybe_value: Option<&str>,
) -> (r: Option<String>)
    ensures
        crate::url_bridge::opt_string_view(r) == endpoint_with_match_spec(
            variable@,
            url@,
            base@,
            tokens.deep_view(),
            match_result@,
            match maybe_value {
                Option::Some(v) => Option::Some(v@),
                Option::None => Option::None,
            },
        ),
{
    let has_value = maybe_value.is_some();
    let u0: String = match maybe_value {
        Option::Some(v) => replace_variable(url, variable, Option::Some(v)),
        Option::None => url.to_owned(),
    };
    let u1 = substitute_params_exec(str_chars(u0.as_str()), tokens, match_result, 0);
    let u1s = chars_string(&u1);
    let u2: String = if has_value {
        u1s
    } else {
        replace_variable(u1s.as_str(), variable, Option::None)
    };
    parse_url_with_base(u2.as_str(), base)
}

/// The follow-up data for a completion item: the resolved documentation
/// endpoint of the variable, when it declares one.
pub fn get_data(registry: &RegistryConfiguration, base: &str, variable: &Key, value: &str) -> (r:
    Option<String>)
    ensures
        crate::url_bridge::opt_string_view(r) == data_spec(registry@, base@, variable@, value@),
{
    match registry.get_documentation_url_for_key(variable) {
        Option::None => Option::None,
        Option::Some(du) => get_endpoint(du.as_str(), base, variable, Option::Some(value)),
    }
}

/// Whether an item is preselected, from the response's preselect value.
pub fn get_preselect(item: String, preselect: Option<String>) -> (r: Option<bool>)
    ensures
        r == preselect_spec(item@, opt_str_view(preselect)),
{
    match preselect {
        Option::Some(p) => {
            if p == item {
                Option::Some(true)
            } else {
                Option::None
            }
        },
        Option::None => Option::None,
    }
}

fn split_response(resp: VariableItems) -> (r: (Vec<String>, Option<String>, bool))
    ensures
        strings_view(r.0@) == items_of_response(resp@),
        opt_str_view(r.1) == preselect_of_response(resp@),
        r.2 == incomplete_of_response(resp@),
{
    match resp {
        VariableItems::Simple(items) => (items, Option::None, false),
        VariableItems::List(l) => (l.items, l.preselect, l.is_incomplete),
    }
}

fn last_key_name_exec(tokens: &Vec<Token>) -> (r: Vec<char>)
    ensures
        r@ == last_key_name(tokens.deep_view()),
{
    let n = tokens.len();
    if n == 0 {
        Vec::new()
    } else {
        proof {
            assert(tokens.deep_view()[n - 1] == tokens@[n - 1]@);
            assert(tokens.deep_view().last() == tokens.deep_view()[n - 1]);
        }
        match &tokens[n - 1] {
            Token::Param(k) => match &k.name {
                StringOrNumber::Str(s) => copy_chars(s),
                StringOrNumber::Num(_) => Vec::new(),
            },
            _ => Vec::new(),
        }
    }
}

fn best_match_rec(tokens: &Vec<Token>, path: &Vec<char>, i: usize) -> (r: Option<
    (usize, MatchResult),
>)
    requires
        i <= tokens@.len(),
    ensures
        match r {
            Option::Some(m) => best_match_from(tokens.deep_view(), path@, i as int)
                == Option::Some((m.0 as int, m.1@)) && 0 < m.0 <= tokens@.len(),
            Option::None => best_match_from(tokens.deep_view(), path@, i as int) is None,
        },
    decreases i,
{
    if i == 0 {
        Option::None
    } else {
        match Matcher::for_prefix(tokens, i) {
            Result::Err(_) => best_match_rec(tokens, path, i - 1),
            Result::Ok(m) => {
                match m.matches(path) {
                    Option::Some(mr) => Option::Some((i, mr)),
                    Option::None => best_match_rec(tokens, path, i - 1),
                }
            },
        }
    }
}

} // verus!

verus! {

pub proof fn lemma_classify_index_bound(
    tokens: Seq<TokenView>,
    params: ParamsView,
    offset: int,
    i: int,
    len: int,
)
    requires
        0 <= i <= tokens.len(),
    ensures
        match classify_from(tokens, params, offset, i, len) {
            Option::Some(CompletorTypeView::Key { key, prefix, index }) => i <= index
                < tokens.len(),
            _ => true,
        },
    decreases tokens.len() - i,
{
    if i < tokens.len() {
        match tokens[i] {
            TokenView::Literal(s) => {
                lemma_classify_index_bound(tokens, params, offset, i + 1, len + s.len());
            },
            TokenView::Param(k) => {
                let len1 = len + k.prefix.len();
                let len2 = if k.name is Str {
                    len1 + param_render_len(k, params)
                } else {
                    len1
                };
                let len3 = len2 + k.suffix.len();
                lemma_classify_index_bound(tokens, params, offset, i + 1, len3);
            },
        }
    }
}

fn build_literal_item(s: &Vec<char>, cur: &Vec<char>, offset: usize, range: Range) -> (r:
    CompletionItem)
    requires
        offset <= cur@.len(),
    ensures
        r@ == literal_item_spec(s@, cur@, offset as int, range),
{
    let mut full = subrange_chars(cur, 0, offset);
    extend_chars(&mut full, s);
    let tail = subrange_chars(cur, offset, cur.len());
    extend_chars(&mut full, &tail);
    proof {
        assert(cur@.subrange(0, offset as int) =~= cur@.take(offset as int));
        assert(cur@.subrange(offset as int, cur@.len() as int) =~= cur@.skip(offset as int));
    }
    let fs = chars_string(&full);
    let r = CompletionItem {
        label: chars_string(s),
        kind: Option::Some(CompletionItemKind::Folder),
        detail: Option::None,
        sort_text: Option::Some("1".to_owned()),
        filter_text: Option::Some(fs.clone()),
        text_edit: Option::Some(TextEdit { range, new_text: fs }),
        command: Option::None,
        preselect: Option::None,
        data: Option::None,
    };
    proof {
        assert(r@ == literal_item_spec(s@, cur@, offset as int, range));
    }
    r
}

fn build_detail(key: &Key) -> (r: String)
    ensures
        r@ == detail_spec(key@),
{
    let mut d: Vec<char> = Vec::new();
    d.push('(');
    match &key.name {
        StringOrNumber::Str(s) => extend_chars(&mut d, s),
        StringOrNumber::Num(_) => {},
    }
    d.push(')');
    proof {
        assert(d@ =~= detail_spec(key@));
    }
    chars_string(&d)
}

fn build_cache_command(full: &String) -> (r: Command)
    ensures
        r@ == cache_command_spec(full@),
{
    let r = Command {
        title: String::new(),
        command: "deno.cache".to_owned(),
        arguments: vec![full.clone()],
    };
    proof {
        assert(strings_view(r.arguments@) =~= seq![full@]);
        assert(r@ == cache_command_spec(full@));
    }
    r
}

#[verifier::rlimit(100)]
fn build_item_completion<E: SpecifierExists>(
    exists: &E,
    registry: &RegistryConfiguration,
    tokens: &Vec<Token>,
    match_result: &MatchResult,
    key: &Key,
    prefix_opt: &Option<Vec<char>>,
    index: usize,
    origin: &str,
    cur: &str,
    range: Range,
    last: &Vec<char>,
    item: &String,
    idx: usize,
    preselect: &Option<String>,
) -> (r: Option<(String, CompletionItem)>)
    requires
        index < tokens@.len(),
        idx < usize::MAX,
    ensures
        match r {
            Option::Some(e) => item_completion_spec(
                exists,
                registry@,
                tokens.deep_view(),
                match_result@,
                key@,
                crate::regex_bridge::opt_chars_view(*prefix_opt),
                index as int,
                origin@,
                cur@,
                range,
                last@,
                item@,
                idx as int,
                opt_str_view(*preselect),
            ) == Option::Some((e.0@, e.1@)),
            Option::None => item_completion_spec(
                exists,
                registry@,
                tokens.deep_view(),
                match_result@,
                key@,
                crate::regex_bridge::opt_chars_view(*prefix_opt),
                index as int,
                origin@,
                cur@,
                range,
                last@,
                item@,
                idx as int,
                opt_str_view(*preselect),
            ) is None,
        },
{
    let n = tokens.len();
    let item_chars = str_chars(item.as_str());
    let value = StringOrVec::of_item(&item_chars, key);
    let params2 = match_result.with_insert(&key.name, &value);
    let compiler = Compiler::for_prefix(tokens, index + 1);
    let path2 = compiler.to_path(&params2);
    let path2s = chars_string(&path2);
    match url_join(origin, path2s.as_str()) {
        Option::None => Option::None,
        Option::Some(full) => {
            let label: String = match prefix_opt {
                Option::Some(p) => {
                    let mut l = crate::path_to_regex::copy_chars(p);
                    extend_chars(&mut l, &item_chars);
                    chars_string(&l)
                },
                Option::None => item.clone(),
            };
            let is_last: bool = match &key.name {
                StringOrNumber::Str(s) => chars_eq(s, last),
                StringOrNumber::Num(_) => false,
            };
            let kind = if is_last {
                CompletionItemKind::File
            } else {
                CompletionItemKind::Folder
            };
            let command: Option<Command> = if is_last && !exists.specifier_exists(full.as_str()) {
                Option::Some(build_cache_command(&full))
            } else {
                Option::None
            };
            let detail = build_detail(key);
            let sort = chars_string(&zero_pad_ten_exec((idx + 1) as u64));
            let pre = get_preselect(
                item.clone(),
                match preselect {
                    Option::Some(p) => Option::Some(p.clone()),
                    Option::None => Option::None,
                },
            );
            let data = get_data(registry, cur, key, item.as_str());
            let out = CompletionItem {
                label,
                kind: Option::Some(kind),
                detail: Option::Some(detail),
                sort_text: Option::Some(sort),
                filter_text: Option::Some(full.clone()),
                text_edit: Option::Some(TextEdit { range, new_text: full }),
                command,
                preselect: pre,
                data,
            };
            Option::Some((item.clone(), out))
        },
    }
}

#[verifier::rlimit(100)]
fn build_prefix_item_completion<E: SpecifierExists>(
    exists: &E,
    registry: &RegistryConfiguration,
    key: &Key,
    origin: &str,
    cur: &str,
    range: Range,
    last: &Vec<char>,
    item: &String,
    idx: usize,
    preselect: &Option<String>,
) -> (r: Option<(String, CompletionItem)>)
    requires
        idx < usize::MAX,
    ensures
        match r {
            Option::Some(e) => prefix_item_completion_spec(
                exists,
                registry@,
                key@,
                origin@,
                cur@,
                range,
                last@,
                item@,
                idx as int,
                opt_str_view(*preselect),
            ) == Option::Some((e.0@, e.1@)),
            Option::None => prefix_item_completion_spec(
                exists,
                registry@,
                key@,
                origin@,
                cur@,
                range,
                last@,
                item@,
                idx as int,
                opt_str_view(*preselect),
            ) is None,
        },
{
    let item_chars = str_chars(item.as_str());
    let mut path2 = crate::path_to_regex::copy_chars(&key.prefix);
    extend_chars(&mut path2, &item_chars);
    let path2s = chars_string(&path2);
    match url_join(origin, path2s.as_str()) {
        Option::None => Option::None,
        Option::Some(full) => {
            let is_last: bool = match &key.name {
                StringOrNumber::Str(s) => chars_eq(s, last),
                StringOrNumber::Num(_) => false,
            };
            let command: Option<Command> = if is_last && !exists.specifier_exists(full.as_str()) {
                Option::Some(build_cache_command(&full))
            } else {
                Option::None
            };
            let detail = build_detail(key);
            let sort = chars_string(&zero_pad_ten_exec((idx + 1) as u64));
            let pre = get_preselect(
                item.clone(),
                match preselect {
                    Option::Some(p) => Option::Some(p.clone()),
                    Option::None => Option::None,
                },
            );
            let data = get_data(registry, cur, key, path2s.as_str());
            let out = CompletionItem {
                label: item.clone(),
                kind: Option::Some(CompletionItemKind::Folder),
                detail: Option::Some(detail),
                sort_text: Option::Some(sort),
                filter_text: Option::Some(full.clone()),
                text_edit: Option::Some(TextEdit { range, new_text: full }),
                command,
                preselect: pre,
                data,
            };
            Option::Some((item.clone(), out))
        },
    }
}

} // verus!

verus! {

// ---------------------------------------------------------------------------
// The module registry
// ---------------------------------------------------------------------------

/// Currently configured module registries, keyed by origin, answering
/// completion requests through an injected artifact fetcher.
pub struct ModuleRegistry<F: ArtifactFetcher> {
    pub origins: Vec<(String, Vec<RegistryConfiguration>)>,
    pub fetcher: F,
}

fn origins_find_from(
    origins: &Vec<(String, Vec<RegistryConfiguration>)>,
    key: &Vec<char>,
    i: usize,
) -> (r: Option<usize>)
    requires
        i <= origins@.len(),
    ensures
        match r {
            Option::Some(k) => acc_origin_index_from(origins_view(origins@), key@, i as int)
                == Option::Some(k as int) && k < origins@.len(),
            Option::None => acc_origin_index_from(origins_view(origins@), key@, i as int) is None,
        },
    decreases origins@.len() - i,
{
    if i >= origins.len() {
        Option::None
    } else {
        proof {
            assert(origins_view(origins@)[i as int] == (
                origins@[i as int].0@,
                registries_view(origins@[i as int].1@),
            ));
        }
        if chars_eq(&str_chars(origins[i].0.as_str()), key) {
            Option::Some(i)
        } else {
            origins_find_from(origins, key, i + 1)
        }
    }
}

/// The first origin-map index keyed `key`, from `i` on.
pub open spec fn acc_origin_index_from(
    o: Seq<(Seq<char>, Seq<RegistryConfigurationView>)>,
    key: Seq<char>,
    i: int,
) -> Option<int>
    decreases o.len() - i,
    when 0 <= i <= o.len()
{
    if i >= o.len() {
        Option::None
    } else if o[i].0 == key {
        Option::Some(i)
    } else {
        acc_origin_index_from(o, key, i + 1)
    }
}

pub proof fn lemma_origin_index_lookup(
    o: Seq<(Seq<char>, Seq<RegistryConfigurationView>)>,
    key: Seq<char>,
    i: int,
)
    requires
        0 <= i <= o.len(),
    ensures
        match acc_origin_index_from(o, key, i) {
            Option::Some(k) => i <= k < o.len() && o[k].0 == key && origins_lookup_from(o, key, i)
                == Option::Some(o[k].1),
            Option::None => origins_lookup_from(o, key, i) is None,
        },
    decreases o.len() - i,
{
    if i < o.len() && !(o[i].0 == key) {
        lemma_origin_index_lookup(o, key, i + 1);
    }
}

/// The configurations of the first entry keyed `key`, from `i` on.
pub open spec fn origins_lookup_from(
    o: Seq<(Seq<char>, Seq<RegistryConfigurationView>)>,
    key: Seq<char>,
    i: int,
) -> Option<Seq<RegistryConfigurationView>>
    decreases o.len() - i,
    when 0 <= i <= o.len()
{
    if i >= o.len() {
        Option::None
    } else if o[i].0 == key {
        Option::Some(o[i].1)
    } else {
        origins_lookup_from(o, key, i + 1)
    }
}

pub proof fn lemma_origins_lookup_from_zero(
    o: Seq<(Seq<char>, Seq<RegistryConfigurationView>)>,
    key: Seq<char>,
    i: int,
)
    requires
        0 <= i <= o.len(),
    ensures
        origins_lookup_from(o, key, i) == origins_lookup(o.skip(i), key),
    decreases o.len() - i,
{
    if i >= o.len() {
        assert(o.skip(i) =~= Seq::<(Seq<char>, Seq<RegistryConfigurationView>)>::empty());
    } else {
        assert(o.skip(i)[0] == o[i]);
        assert(o.skip(i).drop_first() =~= o.skip(i + 1));
        lemma_origins_lookup_from_zero(o, key, i + 1);
    }
}

impl<F: ArtifactFetcher> ModuleRegistry<F> {
    /// A registry with no origins enabled.
    pub fn new(fetcher: F) -> (r: ModuleRegistry<F>)
        ensures
            origins_view(r.origins@) == Seq::<(Seq<char>, Seq<RegistryConfigurationView>)>::empty(),
            r.fetcher == fetcher,
    {
        let r = ModuleRegistry { origins: Vec::new(), fetcher };
        proof {
            assert(origins_view(r.origins@) =~= Seq::<
                (Seq<char>, Seq<RegistryConfigurationView>),
            >::empty());
        }
        r
    }

    /// Fetch and validate the configuration at `specifier`, yielding its
    /// registries. A failed retrieval is recorded in the fetcher's cache so
    /// later attempts fail fast.
    pub fn fetch_config(&self, specifier: &str) -> (r: Result<
        Vec<RegistryConfiguration>,
        RegistryError,
    >)
        ensures
            match r {
                Result::Ok(v) => fetch_config_spec(&self.fetcher, specifier@)
                    == Result::<Seq<RegistryConfigurationView>, RegistryError>::Ok(
                    registries_view(v@),
                ),
                Result::Err(e) => fetch_config_spec(&self.fetcher, specifier@)
                    == Result::<Seq<RegistryConfigurationView>, RegistryError>::Err(e),
            },
    {
        match self.fetcher.fetch_config(specifier) {
            Result::Err(e) => {
                if e == RegistryError::FetchFailed {
                    self.fetcher.cache_empty(specifier);
                }
                Result::Err(e)
            },
            Result::Ok(config) => {
                match validate_config(&config) {
                    Result::Err(e) => Result::Err(e),
                    Result::Ok(_) => Result::Ok(config.registries),
                }
            },
        }
    }

    /// Check that an origin publishes a valid registry configuration,
    /// without storing it.
    pub fn check_origin(&self, origin: &str) -> (r: Result<(), RegistryError>)
        ensures
            r == check_origin_spec(&self.fetcher, origin@),
    {
        match url_join(origin, "/.well-known/deno-import-intellisense.json") {
            Option::None => Result::Err(RegistryError::BadOrigin),
            Option::Some(config_url) => {
                match self.fetch_config(config_url.as_str()) {
                    Result::Err(e) => Result::Err(e),
                    Result::Ok(_) => Result::Ok(()),
                }
            },
        }
    }

    /// Enable a registry: fetch, validate and store its configuration,
    /// unless the origin is already known.
    pub fn enable(&mut self, origin: &str) -> (r: Result<(), RegistryError>)
        ensures
            r == enable_result_spec(
                origins_view(old(self).origins@),
                &old(self).fetcher,
                origin@,
            ),
            origins_view(final(self).origins@) == enable_origins_spec(
                origins_view(old(self).origins@),
                &old(self).fetcher,
                origin@,
            ),
            final(self).fetcher == old(self).fetcher,
    {
        match url_origin_ascii(origin) {
            Option::None => Result::Err(RegistryError::BadOrigin),
            Option::Some(key) => {
                let kc = str_chars(key.as_str());
                proof {
                    lemma_origin_index_lookup(origins_view(self.origins@), kc@, 0);
                    lemma_origins_lookup_from_zero(origins_view(self.origins@), kc@, 0);
                    assert(origins_view(self.origins@).skip(0) =~= origins_view(self.origins@));
                }
                match origins_find_from(&self.origins, &kc, 0) {
                    Option::Some(_) => Result::Ok(()),
                    Option::None => {
                        match url_join(origin, "/.well-known/deno-import-intellisense.json") {
                            Option::None => Result::Err(RegistryError::BadOrigin),
                            Option::Some(config_url) => {
                                match self.fetch_config(config_url.as_str()) {
                                    Result::Err(e) => Result::Err(e),
                                    Result::Ok(regs) => {
                                        let ghost before = origins_view(self.origins@);
                                        let ghost regsv = registries_view(regs@);
                                        let ghost keyv = key@;
                                        self.origins.push((key, regs));
                                        proof {
                                            assert forall|x: int|
                                                0 <= x < origins_view(self.origins@).len() implies
                                                origins_view(self.origins@)[x] == before.push(
                                                (keyv, regsv),
                                            )[x] by {
                                                if x < before.len() {
                                                    assert(origins_view(self.origins@)[x] == (
                                                        self.origins@[x].0@,
                                                        registries_view(self.origins@[x].1@),
                                                    ));
                                                    assert(before[x] == (
                                                        old(self).origins@[x].0@,
                                                        registries_view(old(self).origins@[x].1@),
                                                    ));
                                                }
                                            }
                                            assert(origins_view(self.origins@) =~= before.push(
                                                (keyv, regsv),
                                            ));
                                        }
                                        Result::Ok(())
                                    },
                                }
                            },
                        }
                    },
                }
            },
        }
    }

    /// Enable a registry from the full URL of its configuration, rather
    /// than the origin's well-known path.
    pub fn enable_custom(&mut self, specifier: &str) -> (r: Result<(), RegistryError>)
        ensures
            r == enable_custom_result_spec(
                origins_view(old(self).origins@),
                &old(self).fetcher,
                specifier@,
            ),
            origins_view(final(self).origins@) == enable_custom_origins_spec(
                origins_view(old(self).origins@),
                &old(self).fetcher,
                specifier@,
            ),
            final(self).fetcher == old(self).fetcher,
    {
        match parse_url_string(specifier) {
            Option::None => Result::Err(RegistryError::BadOrigin),
            Option::Some(config_url) => {
                match url_origin_ascii(specifier) {
                    Option::None => Result::Err(RegistryError::BadOrigin),
                    Option::Some(key) => {
                        let kc = str_chars(key.as_str());
                        proof {
                            lemma_origin_index_lookup(origins_view(self.origins@), kc@, 0);
                            lemma_origins_lookup_from_zero(origins_view(self.origins@), kc@, 0);
                            assert(origins_view(self.origins@).skip(0) =~= origins_view(
                                self.origins@,
                            ));
                        }
                        match origins_find_from(&self.origins, &kc, 0) {
                            Option::Some(_) => Result::Ok(()),
                            Option::None => {
                                match self.fetch_config(config_url.as_str()) {
                                    Result::Err(e) => Result::Err(e),
                                    Result::Ok(regs) => {
                                        let ghost before = origins_view(self.origins@);
                                        let ghost regsv = registries_view(regs@);
                                        let ghost keyv = key@;
                                        self.origins.push((key, regs));
                                        proof {
                                            assert forall|x: int|
                                                0 <= x < origins_view(self.origins@).len() implies
                                                origins_view(self.origins@)[x] == before.push(
                                                (keyv, regsv),
                                            )[x] by {
                                                if x < before.len() {
                                                    assert(origins_view(self.origins@)[x] == (
                                                        self.origins@[x].0@,
                                                        registries_view(self.origins@[x].1@),
                                                    ));
                                                    assert(before[x] == (
                                                        old(self).origins@[x].0@,
                                                        registries_view(old(self).origins@[x].1@),
                                                    ));
                                                }
                                            }
                                            assert(origins_view(self.origins@) =~= before.push(
                                                (keyv, regsv),
                                            ));
                                        }
                                        Result::Ok(())
                                    },
                                }
                            },
                        }
                    },
                }
            },
        }
    }

    /// Disable a registry, removing its configuration, if any.
    pub fn disable(&mut self, origin: &str) -> (r: Result<(), RegistryError>)
        ensures
            r == disable_result_spec(origin@),
            origins_view(final(self).origins@) == disable_origins_spec(
                origins_view(old(self).origins@),
                origin@,
            ),
            final(self).fetcher == old(self).fetcher,
    {
        match url_origin_ascii(origin) {
            Option::None => Result::Err(RegistryError::BadOrigin),
            Option::Some(key) => {
                let kc = str_chars(key.as_str());
                proof {
                    lemma_origin_index_lookup(origins_view(self.origins@), kc@, 0);
                }
                match origins_find_from(&self.origins, &kc, 0) {
                    Option::None => Result::Ok(()),
                    Option::Some(idx) => {
                        let ghost before = origins_view(self.origins@);
                        self.origins.remove(idx);
                        proof {
                            assert forall|x: int|
                                0 <= x < origins_view(self.origins@).len() implies origins_view(
                                self.origins@,
                            )[x] == before.remove(idx as int)[x] by {
                                assert(origins_view(self.origins@)[x] == (
                                    self.origins@[x].0@,
                                    registries_view(self.origins@[x].1@),
                                ));
                                if x < idx {
                                    assert(before[x] == (
                                        old(self).origins@[x].0@,
                                        registries_view(old(self).origins@[x].1@),
                                    ));
                                } else {
                                    assert(before[x + 1] == (
                                        old(self).origins@[x + 1].0@,
                                        registries_view(old(self).origins@[x + 1].1@),
                                    ));
                                }
                            }
                            assert(origins_view(self.origins@) =~= before.remove(idx as int));
                        }
                        Result::Ok(())
                    },
                }
            },
        }
    }

    /// Fetch and decode the documentation value at `url`; nothing on any
    /// failure.
    pub fn get_documentation(&self, url: &str) -> (r: Option<Documentation>)
        ensures
            crate::fetcher::opt_doc_view(r) == get_documentation_spec(&self.fetcher, url@),
    {
        match parse_url_string(url) {
            Option::None => Option::None,
            Option::Some(u) => self.fetcher.fetch_documentation(u.as_str()),
        }
    }

    /// Fetch and decode the variable items at an absolute endpoint URL;
    /// nothing on any failure.
    pub fn get_items(&self, url: &str) -> (r: Option<VariableItems>)
        ensures
            crate::fetcher::opt_items_view(r) == get_items_spec(&self.fetcher, url@),
    {
        match parse_url_string(url) {
            Option::None => Option::None,
            Option::Some(u) => self.fetcher.fetch_items(u.as_str()),
        }
    }

    /// Resolve a variable's templated endpoint with the current match and
    /// fetch its items; nothing on any failure.
    pub fn get_variable_items(
        &self,
        variable: &Key,
        url: &str,
        base: &str,
        tokens: &Vec<Token>,
        match_result: &MatchResult,
    ) -> (r: Option<VariableItems>)
        ensures
            crate::fetcher::opt_items_view(r) == variable_items_spec(
                &self.fetcher,
                variable@,
                url@,
                base@,
                tokens.deep_view(),
                match_result@,
            ),
    {
        match get_endpoint_with_match(variable, url, base, tokens, match_result, Option::None) {
            Option::None => Option::None,
            Option::Some(endpoint) => self.fetcher.fetch_items(endpoint.as_str()),
        }
    }
}

/// What checking an origin yields: a bad origin when the configuration URL
/// cannot be formed, else the outcome of fetching and validating it.
pub open spec fn check_origin_spec<F: ArtifactFetcher>(fetcher: &F, origin: Seq<char>) -> Result<
    (),
    RegistryError,
> {
    match url_join_of(origin, config_path_spec()) {
        Option::None => Result::Err(RegistryError::BadOrigin),
        Option::Some(cu) => match fetch_config_spec(fetcher, cu) {
            Result::Err(e) => Result::Err(e),
            Result::Ok(_) => Result::Ok(()),
        },
    }
}

/// What enabling an origin returns.
pub open spec fn enable_result_spec<F: ArtifactFetcher>(
    origins: Seq<(Seq<char>, Seq<RegistryConfigurationView>)>,
    fetcher: &F,
    origin: Seq<char>,
) -> Result<(), RegistryError> {
    if url_parse(origin) is None {
        Result::Err(RegistryError::BadOrigin)
    } else {
        let key = url_origin_of(origin);
        if origins_lookup(origins, key) is Some {
            Result::Ok(())
        } else {
            match url_join_of(origin, config_path_spec()) {
                Option::None => Result::Err(RegistryError::BadOrigin),
                Option::Some(cu) => match fetch_config_spec(fetcher, cu) {
                    Result::Err(e) => Result::Err(e),
                    Result::Ok(_) => Result::Ok(()),
                },
            }
        }
    }
}

/// The origin map after enabling an origin: unchanged unless the origin was
/// new and its configuration fetched and validated, in which case its
/// registries are appended under the origin's key.
pub open spec fn enable_origins_spec<F: ArtifactFetcher>(
    origins: Seq<(Seq<char>, Seq<RegistryConfigurationView>)>,
    fetcher: &F,
    origin: Seq<char>,
) -> Seq<(Seq<char>, Seq<RegistryConfigurationView>)> {
    if url_parse(origin) is None {
        origins
    } else {
        let key = url_origin_of(origin);
        if origins_lookup(origins, key) is Some {
            origins
        } else {
            match url_join_of(origin, config_path_spec()) {
                Option::None => origins,
                Option::Some(cu) => match fetch_config_spec(fetcher, cu) {
                    Result::Err(_) => origins,
                    Result::Ok(regs) => origins.push((key, regs)),
                },
            }
        }
    }
}

/// What enabling from a full configuration URL returns.
pub open spec fn enable_custom_result_spec<F: ArtifactFetcher>(
    origins: Seq<(Seq<char>, Seq<RegistryConfigurationView>)>,
    fetcher: &F,
    specifier: Seq<char>,
) -> Result<(), RegistryError> {
    match url_parse(specifier) {
        Option::None => Result::Err(RegistryError::BadOrigin),
        Option::Some(cu) => {
            let key = url_origin_of(specifier);
            if origins_lookup(origins, key) is Some {
                Result::Ok(())
            } else {
                match fetch_config_spec(fetcher, cu) {
                    Result::Err(e) => Result::Err(e),
                    Result::Ok(_) => Result::Ok(()),
                }
            }
        },
    }
}

/// The origin map after enabling from a full configuration URL.
pub open spec fn enable_custom_origins_spec<F: ArtifactFetcher>(
    origins: Seq<(Seq<char>, Seq<RegistryConfigurationView>)>,
    fetcher: &F,
    specifier: Seq<char>,
) -> Seq<(Seq<char>, Seq<RegistryConfigurationView>)> {
    match url_parse(specifier) {
        Option::None => origins,
        Option::Some(cu) => {
            let key = url_origin_of(specifier);
            if origins_lookup(origins, key) is Some {
                origins
            } else {
                match fetch_config_spec(fetcher, cu) {
                    Result::Err(_) => origins,
                    Result::Ok(regs) => origins.push((key, regs)),
                }
            }
        },
    }
}

/// What disabling an origin returns: an error only for an origin string
/// that does not parse.
pub open spec fn disable_result_spec(origin: Seq<char>) -> Result<(), RegistryError> {
    if url_parse(origin) is None {
        Result::Err(RegistryError::BadOrigin)
    } else {
        Result::Ok(())
    }
}

/// The origin map after disabling an origin: its entry removed.
pub open spec fn disable_origins_spec(
    origins: Seq<(Seq<char>, Seq<RegistryConfigurationView>)>,
    origin: Seq<char>,
) -> Seq<(Seq<char>, Seq<RegistryConfigurationView>)> {
    if url_parse(origin) is None {
        origins
    } else {
        match acc_origin_index_from(origins, url_origin_of(origin), 0) {
            Option::Some(i) => origins.remove(i),
            Option::None => origins,
        }
    }
}

/// What resolving documentation yields: the fetcher's answer for the parsed
/// URL, nothing for one that does not parse.
pub open spec fn get_documentation_spec<F: ArtifactFetcher>(fetcher: &F, url: Seq<char>) -> Option<
    DocumentationView,
> {
    match url_parse(url) {
        Option::None => Option::None,
        Option::Some(u) => fetcher.documentation_spec(u),
    }
}

/// What fetching items at an absolute endpoint yields.
pub open spec fn get_items_spec<F: ArtifactFetcher>(fetcher: &F, url: Seq<char>) -> Option<
    VariableItemsView,
> {
    match url_parse(url) {
        Option::None => Option::None,
        Option::Some(u) => fetcher.items_spec(u),
    }
}

/// What resolving and fetching a variable's items yields.
pub open spec fn variable_items_spec<F: ArtifactFetcher>(
    fetcher: &F,
    k: KeyView,
    url: Seq<char>,
    base: Seq<char>,
    tokens: Seq<TokenView>,
    mr: ParamsView,
) -> Option<VariableItemsView> {
    match endpoint_with_match_spec(k, url, base, tokens, mr, Option::None) {
        Option::None => Option::None,
        Option::Some(endpoint) => fetcher.items_spec(endpoint),
    }
}

} // verus!

verus! {

fn fold_items_exec<E: SpecifierExists>(
    exists: &E,
    registry: &RegistryConfiguration,
    tokens: &Vec<Token>,
    match_result: &MatchResult,
    key: &Key,
    prefix_opt: &Option<Vec<char>>,
    index: usize,
    origin: &str,
    cur: &str,
    range: Range,
    last: &Vec<char>,
    items: &Vec<String>,
    idx: usize,
    preselect: &Option<String>,
    acc: Vec<(String, CompletionItem)>,
) -> (r: Vec<(String, CompletionItem)>)
    requires
        index < tokens@.len(),
        idx <= items@.len(),
    ensures
        comp_acc_view(r@) == fold_items_spec(
            exists,
            registry@,
            tokens.deep_view(),
            match_result@,
            key@,
            crate::regex_bridge::opt_chars_view(*prefix_opt),
            index as int,
            origin@,
            cur@,
            range,
            last@,
            strings_view(items@),
            idx as int,
            opt_str_view(*preselect),
            comp_acc_view(acc@),
        ),
    decreases items@.len() - idx,
{
    if idx >= items.len() {
        acc
    } else {
        proof {
            assert(strings_view(items@)[idx as int] == items@[idx as int]@);
        }
        let entry = build_item_completion(
            exists,
            registry,
            tokens,
            match_result,
            key,
            prefix_opt,
            index,
            origin,
            cur,
            range,
            last,
            &items[idx],
            idx,
            preselect,
        );
        let acc2 = match entry {
            Option::None => acc,
            Option::Some(e) => acc_insert_exec(acc, e.0, e.1),
        };
        fold_items_exec(
            exists,
            registry,
            tokens,
            match_result,
            key,
            prefix_opt,
            index,
            origin,
            cur,
            range,
            last,
            items,
            idx + 1,
            preselect,
            acc2,
        )
    }
}

fn fold_prefix_items_exec<E: SpecifierExists>(
    exists: &E,
    registry: &RegistryConfiguration,
    key: &Key,
    origin: &str,
    cur: &str,
    range: Range,
    last: &Vec<char>,
    items: &Vec<String>,
    idx: usize,
    preselect: &Option<String>,
    acc: Vec<(String, CompletionItem)>,
) -> (r: Vec<(String, CompletionItem)>)
    requires
        idx <= items@.len(),
    ensures
        comp_acc_view(r@) == fold_prefix_items_spec(
            exists,
            registry@,
            key@,
            origin@,
            cur@,
            range,
            last@,
            strings_view(items@),
            idx as int,
            opt_str_view(*preselect),
            comp_acc_view(acc@),
        ),
    decreases items@.len() - idx,
{
    if idx >= items.len() {
        acc
    } else {
        proof {
            assert(strings_view(items@)[idx as int] == items@[idx as int]@);
        }
        let entry = build_prefix_item_completion(
            exists,
            registry,
            key,
            origin,
            cur,
            range,
            last,
            &items[idx],
            idx,
            preselect,
        );
        let acc2 = match entry {
            Option::None => acc,
            Option::Some(e) => acc_insert_exec(acc, e.0, e.1),
        };
        fold_prefix_items_exec(
            exists,
            registry,
            key,
            origin,
            cur,
            range,
            last,
            items,
            idx + 1,
            preselect,
            acc2,
        )
    }
}

impl<F: ArtifactFetcher> ModuleRegistry<F> {
    fn key_completions_exec<E: SpecifierExists>(
        &self,
        exists: &E,
        registry: &RegistryConfiguration,
        tokens: &Vec<Token>,
        match_result: &MatchResult,
        key: &Key,
        prefix_opt: &Option<Vec<char>>,
        index: usize,
        origin: &str,
        cur: &str,
        range: Range,
        last: &Vec<char>,
        acc: EngineAcc,
    ) -> (r: EngineAcc)
        requires
            index < tokens@.len(),
        ensures
            engine_acc_view(r) == key_completions_spec(
                &self.fetcher,
                exists,
                registry@,
                tokens.deep_view(),
                match_result@,
                key@,
                crate::regex_bridge::opt_chars_view(*prefix_opt),
                index as int,
                origin@,
                cur@,
                range,
                last@,
                engine_acc_view(acc),
            ),
    {
        match registry.get_url_for_key(key) {
            Option::None => acc,
            Option::Some(u) => {
                match self.get_variable_items(key, u.as_str(), cur, tokens, match_result) {
                    Option::None => acc,
                    Option::Some(resp) => {
                        let ghost respv = resp@;
                        let (items, preselect, incomplete) = split_response(resp);
                        let items2 = fold_items_exec(
                            exists,
                            registry,
                            tokens,
                            match_result,
                            key,
                            prefix_opt,
                            index,
                            origin,
                            cur,
                            range,
                            last,
                            &items,
                            0,
                            &preselect,
                            acc.items,
                        );
                        EngineAcc {
                            items: items2,
                            is_incomplete: acc.is_incomplete || incomplete,
                            did_match: acc.did_match,
                        }
                    },
                }
            },
        }
    }

    fn fallback_exec<E: SpecifierExists>(
        &self,
        exists: &E,
        registry: &RegistryConfiguration,
        tokens: &Vec<Token>,
        path: &Vec<char>,
        origin: &str,
        cur: &str,
        range: Range,
        last: &Vec<char>,
        acc: EngineAcc,
    ) -> (r: EngineAcc)
        ensures
            engine_acc_view(r) == fallback_spec(
                &self.fetcher,
                exists,
                registry@,
                tokens.deep_view(),
                path@,
                origin@,
                cur@,
                range,
                last@,
                engine_acc_view(acc),
            ),
    {
        if tokens.len() == 0 {
            return acc;
        }
        proof {
            assert(tokens.deep_view()[0] == tokens@[0]@);
        }
        match &tokens[0] {
            Token::Literal(s) => {
                if chars_starts_with(s, path) {
                    let ss = chars_string(s);
                    match url_set_path(cur, ss.as_str()) {
                        Option::None => acc,
                        Option::Some(full) => {
                            let item = CompletionItem {
                                label: ss.clone(),
                                kind: Option::Some(CompletionItemKind::Folder),
                                detail: Option::None,
                                sort_text: Option::Some("1".to_owned()),
                                filter_text: Option::Some(full.clone()),
                                text_edit: Option::Some(TextEdit { range, new_text: full }),
                                command: Option::None,
                                preselect: Option::Some(true),
                                data: Option::None,
                            };
                            proof {
                                assert(item@ == fallback_literal_item_spec(
                                    s@,
                                    item.text_edit->Some_0.new_text@,
                                    range,
                                ));
                            }
                            EngineAcc {
                                items: acc_insert_exec(acc.items, ss, item),
                                is_incomplete: acc.is_incomplete,
                                did_match: acc.did_match,
                            }
                        },
                    }
                } else {
                    acc
                }
            },
            Token::Param(k) => {
                if k.prefix.len() > 0 {
                    match registry.get_url_for_key(k) {
                        Option::None => acc,
                        Option::Some(u) => {
                            match self.get_items(u.as_str()) {
                                Option::None => acc,
                                Option::Some(resp) => {
                                    let (items, preselect, incomplete) = split_response(resp);
                                    let items2 = fold_prefix_items_exec(
                                        exists,
                                        registry,
                                        k,
                                        origin,
                                        cur,
                                        range,
                                        last,
                                        &items,
                                        0,
                                        &preselect,
                                        acc.items,
                                    );
                                    EngineAcc {
                                        items: items2,
                                        is_incomplete: acc.is_incomplete || incomplete,
                                        did_match: acc.did_match,
                                    }
                                },
                            }
                        },
                    }
                } else {
                    acc
                }
            },
        }
    }

    fn registry_completions_exec<E: SpecifierExists>(
        &self,
        exists: &E,
        registry: &RegistryConfiguration,
        path: &Vec<char>,
        path_offset: usize,
        origin: &str,
        cur: &str,
        offset: usize,
        range: Range,
        acc: EngineAcc,
    ) -> (r: EngineAcc)
        requires
            offset <= cur@.len(),
        ensures
            engine_acc_view(r) == registry_completions_spec(
                &self.fetcher,
                exists,
                registry@,
                path@,
                path_offset as int,
                origin@,
                cur@,
                offset as int,
                range,
                engine_acc_view(acc),
            ),
    {
        match parse(registry.schema.as_str()) {
            Result::Err(_) => acc,
            Result::Ok(tokens) => {
                let last = last_key_name_exec(&tokens);
                match best_match_rec(&tokens, path, tokens.len()) {
                    Option::Some(m) => {
                        let mr = m.1;
                        let acc1 = EngineAcc {
                            items: acc.items,
                            is_incomplete: acc.is_incomplete,
                            did_match: true,
                        };
                        match get_completor_type(path_offset, &tokens, &mr) {
                            Option::None => acc1,
                            Option::Some(CompletorType::Literal(s)) => {
                                let cur_chars = str_chars(cur);
                                let item = build_literal_item(&s, &cur_chars, offset, range);
                                EngineAcc {
                                    items: acc_insert_exec(acc1.items, chars_string(&s), item),
                                    is_incomplete: acc1.is_incomplete,
                                    did_match: true,
                                }
                            },
                            Option::Some(CompletorType::Key { key, prefix, index }) => {
                                proof {
                                    lemma_classify_index_bound(
                                        tokens.deep_view(),
                                        mr@,
                                        path_offset as int,
                                        0,
                                        0,
                                    );
                                }
                                self.key_completions_exec(
                                    exists,
                                    registry,
                                    &tokens,
                                    &mr,
                                    &key,
                                    &prefix,
                                    index,
                                    origin,
                                    cur,
                                    range,
                                    &last,
                                    acc1,
                                )
                            },
                        }
                    },
                    Option::None => self.fallback_exec(
                        exists,
                        registry,
                        &tokens,
                        path,
                        origin,
                        cur,
                        range,
                        &last,
                        acc,
                    ),
                }
            },
        }
    }

    fn fold_registries_exec<E: SpecifierExists>(
        &self,
        exists: &E,
        registries: &Vec<RegistryConfiguration>,
        i: usize,
        path: &Vec<char>,
        path_offset: usize,
        origin: &str,
        cur: &str,
        offset: usize,
        range: Range,
        acc: EngineAcc,
    ) -> (r: EngineAcc)
        requires
            i <= registries@.len(),
            offset <= cur@.len(),
        ensures
            engine_acc_view(r) == fold_registries_spec(
                &self.fetcher,
                exists,
                registries_view(registries@),
                i as int,
                path@,
                path_offset as int,
                origin@,
                cur@,
                offset as int,
                range,
                engine_acc_view(acc),
            ),
        decreases registries@.len() - i,
    {
        if i >= registries.len() {
            acc
        } else {
            proof {
                assert(registries_view(registries@)[i as int] == registries@[i as int]@);
            }
            let acc2 = self.registry_completions_exec(
                exists,
                &registries[i],
                path,
                path_offset,
                origin,
                cur,
                offset,
                range,
                acc,
            );
            self.fold_registries_exec(
                exists,
                registries,
                i + 1,
                path,
                path_offset,
                origin,
                cur,
                offset,
                range,
                acc2,
            )
        }
    }

    fn origin_items_rec(&self, cur: &Vec<char>, range: Range, i: usize) -> (r: Vec<CompletionItem>)
        requires
            i <= self.origins@.len(),
        ensures
            items_view(r@) == origin_items_from(
                origin_keys(origins_view(self.origins@)),
                cur@,
                range,
                i as int,
            ),
        decreases self.origins@.len() - i,
    {
        let ghost keys = origin_keys(origins_view(self.origins@));
        if i >= self.origins.len() {
            let r: Vec<CompletionItem> = Vec::new();
            proof {
                assert(items_view(r@) =~= origin_items_from(keys, cur@, range, i as int));
            }
            r
        } else {
            proof {
                assert(keys[i as int] == origins_view(self.origins@)[i as int].0);
                assert(origins_view(self.origins@)[i as int] == (
                    self.origins@[i as int].0@,
                    registries_view(self.origins@[i as int].1@),
                ));
            }
            let rest = self.origin_items_rec(cur, range, i + 1);
            let oc = str_chars(self.origins[i].0.as_str());
            let stripped: Vec<char> = if oc.len() > 0 && oc[oc.len() - 1] == '/' {
                subrange_chars(&oc, 0, oc.len() - 1)
            } else {
                copy_chars(&oc)
            };
            proof {
                assert(oc@.subrange(0, oc@.len() - 1) =~= oc@.drop_last());
                assert(stripped@ == strip_trailing_slash(keys[i as int]));
            }
            if chars_starts_with(&stripped, cur) {
                let os = chars_string(&stripped);
                let item = CompletionItem {
                    label: os.clone(),
                    kind: Option::Some(CompletionItemKind::Folder),
                    detail: Option::Some("(registry)".to_owned()),
                    sort_text: Option::Some("2".to_owned()),
                    filter_text: Option::None,
                    text_edit: Option::Some(TextEdit { range, new_text: os }),
                    command: Option::None,
                    preselect: Option::None,
                    data: Option::None,
                };
                proof {
                    assert(item@ == origin_item_spec(stripped@, range));
                }
                let ghost itemv = item@;
                let ghost restv = items_view(rest@);
                let mut out: Vec<CompletionItem> = Vec::new();
                out.push(item);
                let mut r2 = rest;
                out.append(&mut r2);
                proof {
                    assert forall|x: int| 0 <= x < out@.len() implies items_view(out@)[x] == (
                    seq![itemv] + restv)[x] by {
                        assert(items_view(out@)[x] == out@[x]@);
                    }
                    assert(items_view(out@) =~= seq![itemv] + restv);
                }
                out
            } else {
                rest
            }
        }
    }

    /// The completions for origins the registry knows: every enabled origin,
    /// trailing slash removed, that starts with the typed text.
    pub fn get_origin_completions(&self, current_specifier: &str, range: &Range) -> (r: Option<
        CompletionList,
    >)
        ensures
            opt_list_view(r) == get_origin_completions_spec(
                origin_keys(origins_view(self.origins@)),
                current_specifier@,
                *range,
            ),
    {
        let cur_chars = str_chars(current_specifier);
        let items = self.origin_items_rec(&cur_chars, *range, 0);
        if items.len() > 0 {
            Option::Some(CompletionList { items, is_incomplete: false })
        } else {
            Option::None
        }
    }

    /// Insert the completion for a literal classification: the literal
    /// spliced into the specifier at the cursor, keyed by the literal.
    pub fn complete_literal(
        &self,
        s: String,
        completions: Vec<(String, CompletionItem)>,
        current_specifier: &str,
        offset: usize,
        range: &Range,
    ) -> (r: Vec<(String, CompletionItem)>)
        requires
            offset <= current_specifier@.len(),
        ensures
            comp_acc_view(r@) == acc_insert(
                comp_acc_view(completions@),
                s@,
                literal_item_spec(s@, current_specifier@, offset as int, *range),
            ),
    {
        let s_chars = str_chars(s.as_str());
        let cur_chars = str_chars(current_specifier);
        let item = build_literal_item(&s_chars, &cur_chars, offset, *range);
        acc_insert_exec(completions, s, item)
    }
}

fn acc_values_rec(items: Vec<(String, CompletionItem)>) -> (r: Vec<CompletionItem>)
    ensures
        items_view(r@) == acc_values(comp_acc_view(items@)),
    decreases items@.len(),
{
    let ghost itemsv = comp_acc_view(items@);
    if items.len() == 0 {
        let r: Vec<CompletionItem> = Vec::new();
        proof {
            assert(items_view(r@) =~= acc_values(itemsv));
        }
        r
    } else {
        let mut rest_vec = items;
        let first = rest_vec.remove(0);
        let ghost firstv = first.1@;
        proof {
            assert forall|x: int| 0 <= x < comp_acc_view(rest_vec@).len() implies comp_acc_view(
                rest_vec@,
            )[x] == itemsv.drop_first()[x] by {
                assert(comp_acc_view(rest_vec@)[x] == (rest_vec@[x].0@, rest_vec@[x].1@));
                assert(itemsv[x + 1] == (items@[x + 1].0@, items@[x + 1].1@));
            }
            assert(comp_acc_view(rest_vec@) =~= itemsv.drop_first());
        }
        let rest = acc_values_rec(rest_vec);
        let ghost restv = items_view(rest@);
        let mut out: Vec<CompletionItem> = Vec::new();
        out.push(first.1);
        let mut r2 = rest;
        out.append(&mut r2);
        proof {
            assert(acc_values(itemsv.drop_first()).len() == itemsv.drop_first().len());
            assert(restv.len() == itemsv.len() - 1);
            assert(out@.len() == itemsv.len());
            assert(firstv == itemsv[0].1);
            assert forall|x: int| 0 <= x < out@.len() implies items_view(out@)[x] == acc_values(
                itemsv,
            )[x] by {
                assert(items_view(out@)[x] == out@[x]@);
                assert(acc_values(itemsv)[x] == itemsv[x].1);
                if x > 0 {
                    assert(out@[x]@ == restv[x - 1]);
                    assert(restv[x - 1] == acc_values(itemsv.drop_first())[x - 1]);
                    assert(acc_values(itemsv.drop_first())[x - 1] == itemsv.drop_first()[x - 1].1);
                    assert(itemsv.drop_first()[x - 1] == itemsv[x]);
                }
            }
            assert(items_view(out@) =~= acc_values(itemsv));
        }
        out
    }
}

impl<F: ArtifactFetcher> ModuleRegistry<F> {
    /// For a partially typed specifier, provide the completions the enabled
    /// registries offer, or nothing exactly when no schema prefix matched
    /// and no completions were produced; a specifier that is not yet inside
    /// a known origin falls back to origin completions.
    pub fn get_completions<E: SpecifierExists>(
        &self,
        current_specifier: &str,
        offset: usize,
        range: &Range,
        specifier_exists: &E,
    ) -> (r: Option<CompletionList>)
        requires
            offset <= current_specifier@.len(),
        ensures
            opt_list_view(r) == get_completions_spec(
                origins_view(self.origins@),
                &self.fetcher,
                specifier_exists,
                current_specifier@,
                offset as int,
                *range,
            ),
    {
        match parse_url_string(current_specifier) {
            Option::None => self.get_origin_completions(current_specifier, range),
            Option::Some(_) => {
                match url_origin_ascii(current_specifier) {
                    Option::None => self.get_origin_completions(current_specifier, range),
                    Option::Some(origin) => {
                        let origin_chars = str_chars(origin.as_str());
                        let origin_len = origin_chars.len();
                        proof {
                            lemma_origin_index_lookup(
                                origins_view(self.origins@),
                                origin_chars@,
                                0,
                            );
                            lemma_origins_lookup_from_zero(
                                origins_view(self.origins@),
                                origin_chars@,
                                0,
                            );
                            assert(origins_view(self.origins@).skip(0) =~= origins_view(
                                self.origins@,
                            ));
                        }
                        if offset >= origin_len {
                            match origins_find_from(&self.origins, &origin_chars, 0) {
                                Option::None => self.get_origin_completions(
                                    current_specifier,
                                    range,
                                ),
                                Option::Some(oi) => {
                                    match url_path_and_after(current_specifier) {
                                        Option::None => {
                                            // unreachable: the specifier parsed above
                                            self.get_origin_completions(current_specifier, range)
                                        },
                                        Option::Some(path_s) => {
                                            let path = str_chars(path_s.as_str());
                                            let acc0 = EngineAcc {
                                                items: Vec::new(),
                                                is_incomplete: false,
                                                did_match: false,
                                            };
                                            proof {
                                                assert(comp_acc_view(acc0.items@) =~= Seq::<
                                                    (Seq<char>, CompletionItemView),
                                                >::empty());
                                            }
                                            let acc = self.fold_registries_exec(
                                                specifier_exists,
                                                &self.origins[oi].1,
                                                0,
                                                &path,
                                                offset - origin_len,
                                                origin.as_str(),
                                                current_specifier,
                                                offset,
                                                *range,
                                                acc0,
                                            );
                                            if acc.items.len() == 0 && !acc.did_match {
                                                Option::None
                                            } else {
                                                let is_incomplete = acc.is_incomplete;
                                                let items = acc_values_rec(acc.items);
                                                Option::Some(
                                                    CompletionList { items, is_incomplete },
                                                )
                                            }
                                        },
                                    }
                                },
                            }
                        } else {
                            self.get_origin_completions(current_specifier, range)
                        }
                    },
                }
            },
        }
    }
}

} // verus!
