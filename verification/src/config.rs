//! The registry configuration model and its validation rules: version
//! bounds, the schema-variable correspondence, and the variable-dependency
//! ordering of endpoint templates.

use vstd::prelude::*;
use crate::RegistryError;
use crate::path_to_regex::{
    parse_spec, parse, keys_of, KeyView, regex_source_spec, regex_source, StringOrNumber,
    StringOrNumberView, Key, seqs_view,
};
use crate::regex_bridge::{regex_valid, CompiledRegex};
use crate::template::{replacement_vars_spec, parse_replacement_variables};
use crate::text::{str_chars, chars_eq};

verus! {

/// One variable of a registry schema: its key, the endpoint that lists its
/// values, and an optional documentation endpoint.
pub struct RegistryConfigurationVariable {
    /// The name of the variable.
    pub key: String,
    /// An optional endpoint that provides documentation for a completion
    /// item when the editor asks for it.
    pub documentation: Option<String>,
    /// The templated endpoint that provides the values of the variable.
    pub url: String,
}

/// The spec-level shape of a registry variable.
pub struct RegistryVariableView {
    pub key: Seq<char>,
    pub documentation: Option<Seq<char>>,
    pub url: Seq<char>,
}

impl View for RegistryConfigurationVariable {
    type V = RegistryVariableView;

    open spec fn view(&self) -> RegistryVariableView {
        RegistryVariableView {
            key: self.key@,
            documentation: crate::lsp_types::opt_str_view(self.documentation),
            url: self.url@,
        }
    }
}

/// One registry: a path schema and the variables its parameters draw from.
pub struct RegistryConfiguration {
    /// A path template that describes how URLs are composed for a registry.
    pub schema: String,
    /// The variables the parameters of `schema` are resolved with.
    pub variables: Vec<RegistryConfigurationVariable>,
}

/// The views of a variable vector.
pub open spec fn vars_view(v: Seq<RegistryConfigurationVariable>) -> Seq<RegistryVariableView> {
    Seq::new(v.len(), |i: int| v[i]@)
}

/// The spec-level shape of a registry configuration.
pub struct RegistryConfigurationView {
    pub schema: Seq<char>,
    pub variables: Seq<RegistryVariableView>,
}

impl View for RegistryConfiguration {
    type V = RegistryConfigurationView;

    open spec fn view(&self) -> RegistryConfigurationView {
        RegistryConfigurationView { schema: self.schema@, variables: vars_view(self.variables@) }
    }
}

/// The whole configuration document of an origin.
pub struct RegistryConfigurationJson {
    pub version: u32,
    pub registries: Vec<RegistryConfiguration>,
}

/// The views of a registry vector.
pub open spec fn registries_view(v: Seq<RegistryConfiguration>) -> Seq<RegistryConfigurationView> {
    Seq::new(v.len(), |i: int| v[i]@)
}

/// The spec-level shape of a configuration document.
pub struct RegistryConfigurationJsonView {
    pub version: int,
    pub registries: Seq<RegistryConfigurationView>,
}

impl View for RegistryConfigurationJson {
    type V = RegistryConfigurationJsonView;

    open spec fn view(&self) -> RegistryConfigurationJsonView {
        RegistryConfigurationJsonView {
            version: self.version as int,
            registries: registries_view(self.registries@),
        }
    }
}

impl RegistryConfigurationVariable {
    /// Copy a variable.
    pub fn duplicate(&self) -> (r: RegistryConfigurationVariable)
        ensures
            r@ == self@,
    {
        RegistryConfigurationVariable {
            key: self.key.clone(),
            documentation: match &self.documentation {
                Option::Some(d) => Option::Some(d.clone()),
                Option::None => Option::None,
            },
            url: self.url.clone(),
        }
    }
}

/// Copy a variable vector.
pub fn copy_variables(v: &Vec<RegistryConfigurationVariable>) -> (r: Vec<
    RegistryConfigurationVariable,
>)
    ensures
        vars_view(r@) == vars_view(v@),
{
    let n = v.len();
    let mut out: Vec<RegistryConfigurationVariable> = Vec::new();
    let mut i: usize = 0;
    while i < n
        invariant
            n == v@.len(),
            i <= n,
            out@.len() == i,
            forall|x: int| 0 <= x < i ==> out@[x]@ == v@[x]@,
        decreases n - i,
    {
        out.push(v[i].duplicate());
        i += 1;
    }
    proof {
        assert(vars_view(out@) =~= vars_view(v@));
    }
    out
}

impl RegistryConfiguration {
    /// Copy a registry configuration.
    pub fn duplicate(&self) -> (r: RegistryConfiguration)
        ensures
            r@ == self@,
    {
        RegistryConfiguration {
            schema: self.schema.clone(),
            variables: copy_variables(&self.variables),
        }
    }
}

/// Copy a registry vector.
pub fn copy_registries(v: &Vec<RegistryConfiguration>) -> (r: Vec<RegistryConfiguration>)
    ensures
        registries_view(r@) == registries_view(v@),
{
    let n = v.len();
    let mut out: Vec<RegistryConfiguration> = Vec::new();
    let mut i: usize = 0;
    while i < n
        invariant
            n == v@.len(),
            i <= n,
            out@.len() == i,
            forall|x: int| 0 <= x < i ==> out@[x]@ == v@[x]@,
        decreases n - i,
    {
        out.push(v[i].duplicate());
        i += 1;
    }
    proof {
        assert(registries_view(out@) =~= registries_view(v@));
    }
    out
}

impl RegistryConfigurationJson {
    /// Copy a configuration document.
    pub fn duplicate(&self) -> (r: RegistryConfigurationJson)
        ensures
            r@ == self@,
    {
        RegistryConfigurationJson {
            version: self.version,
            registries: copy_registries(&self.registries),
        }
    }
}

// ---------------------------------------------------------------------------
// Looking up a variable's endpoints
// ---------------------------------------------------------------------------

/// The endpoint URL of the first variable whose key is the given name.
pub open spec fn url_for_key_spec(vars: Seq<RegistryVariableView>, name: StringOrNumberView)
    -> Option<Seq<char>>
    decreases vars.len(),
{
    if vars.len() == 0 {
        Option::None
    } else if name == StringOrNumberView::Str(vars[0].key) {
        Option::Some(vars[0].url)
    } else {
        url_for_key_spec(vars.drop_first(), name)
    }
}

/// The documentation URL of the first variable whose key is the given name
/// and which declares one.
pub open spec fn doc_url_for_key_spec(vars: Seq<RegistryVariableView>, name: StringOrNumberView)
    -> Option<Seq<char>>
    decreases vars.len(),
{
    if vars.len() == 0 {
        Option::None
    } else if name == StringOrNumberView::Str(vars[0].key) && vars[0].documentation is Some {
        vars[0].documentation
    } else {
        doc_url_for_key_spec(vars.drop_first(), name)
    }
}

fn url_for_key_from(vars: &Vec<RegistryConfigurationVariable>, i: usize, key: &Key) -> (r: Option<
    String,
>)
    requires
        i <= vars@.len(),
    ensures
        crate::lsp_types::opt_str_view(r) == url_for_key_spec(
            vars_view(vars@).skip(i as int),
            key.name@,
        ),
    decreases vars@.len() - i,
{
    let ghost vs = vars_view(vars@).skip(i as int);
    if i >= vars.len() {
        Option::None
    } else {
        proof {
            assert(vs[0] == vars@[i as int]@);
            assert(vs.drop_first() =~= vars_view(vars@).skip(i + 1));
        }
        let name_matches: bool = match &key.name {
            StringOrNumber::Str(s) => chars_eq(s, &str_chars(vars[i].key.as_str())),
            StringOrNumber::Num(_) => false,
        };
        if name_matches {
            Option::Some(vars[i].url.clone())
        } else {
            url_for_key_from(vars, i + 1, key)
        }
    }
}

fn doc_url_for_key_from(vars: &Vec<RegistryConfigurationVariable>, i: usize, key: &Key) -> (r:
    Option<String>)
    requires
        i <= vars@.len(),
    ensures
        crate::lsp_types::opt_str_view(r) == doc_url_for_key_spec(
            vars_view(vars@).skip(i as int),
            key.name@,
        ),
    decreases vars@.len() - i,
{
    let ghost vs = vars_view(vars@).skip(i as int);
    if i >= vars.len() {
        Option::None
    } else {
        proof {
            assert(vs[0] == vars@[i as int]@);
            assert(vs.drop_first() =~= vars_view(vars@).skip(i + 1));
        }
        let name_matches: bool = match &key.name {
            StringOrNumber::Str(s) => chars_eq(s, &str_chars(vars[i].key.as_str())),
            StringOrNumber::Num(_) => false,
        };
        if name_matches {
            match &vars[i].documentation {
                Option::Some(d) => {
                    return Option::Some(d.clone());
                },
                Option::None => {},
            }
        }
        doc_url_for_key_from(vars, i + 1, key)
    }
}

impl RegistryConfiguration {
    /// The values endpoint for a key, taken from the first variable whose
    /// key matches the parameter's name.
    pub fn get_url_for_key(&self, key: &Key) -> (r: Option<String>)
        ensures
            crate::lsp_types::opt_str_view(r) == url_for_key_spec(self@.variables, key.name@),
    {
        proof {
            assert(vars_view(self.variables@).skip(0) =~= self@.variables);
        }
        url_for_key_from(&self.variables, 0, key)
    }

    /// The documentation endpoint for a key, taken from the first variable
    /// whose key matches the parameter's name and declares one.
    pub fn get_documentation_url_for_key(&self, key: &Key) -> (r: Option<String>)
        ensures
            crate::lsp_types::opt_str_view(r) == doc_url_for_key_spec(self@.variables, key.name@),
    {
        proof {
            assert(vars_view(self.variables@).skip(0) =~= self@.variables);
        }
        doc_url_for_key_from(&self.variables, 0, key)
    }
}

} // verus!

verus! {

// ---------------------------------------------------------------------------
// Validation
// ---------------------------------------------------------------------------

/// The string names among the keys, from `i` onward, in schema order.
pub open spec fn string_names_from(keys: Seq<KeyView>, i: int) -> Seq<Seq<char>>
    decreases keys.len() - i,
    when 0 <= i <= keys.len()
{
    if i >= keys.len() {
        Seq::empty()
    } else {
        match keys[i].name {
            StringOrNumberView::Str(s) => seq![s] + string_names_from(keys, i + 1),
            _ => string_names_from(keys, i + 1),
        }
    }
}

/// The named parameters of a token sequence, left to right.
pub open spec fn schema_key_names(tokens: Seq<crate::path_to_regex::TokenView>) -> Seq<Seq<char>> {
    string_names_from(keys_of(tokens), 0)
}

fn string_names_from_exec(keys: &Vec<Key>, i: usize) -> (r: Vec<Vec<char>>)
    requires
        i <= keys@.len(),
    ensures
        seqs_view(r@) == string_names_from(crate::path_to_regex::keys_view(keys@), i as int),
    decreases keys@.len() - i,
{
    let ghost kv = crate::path_to_regex::keys_view(keys@);
    if i >= keys.len() {
        let r: Vec<Vec<char>> = Vec::new();
        proof {
            assert(seqs_view(r@) =~= string_names_from(kv, i as int));
        }
        r
    } else {
        proof {
            assert(kv[i as int] == keys@[i as int]@);
        }
        let rest = string_names_from_exec(keys, i + 1);
        match &keys[i].name {
            StringOrNumber::Str(s) => {
                let ghost sv = s@;
                let mut out: Vec<Vec<char>> = Vec::new();
                out.push(crate::path_to_regex::copy_chars(s));
                let mut r2 = rest;
                out.append(&mut r2);
                proof {
                    assert(seqs_view(out@) =~= seq![sv] + string_names_from(kv, i + 1));
                }
                out
            },
            StringOrNumber::Num(_) => rest,
        }
    }
}

/// Some variable declares `name` as its key.
pub open spec fn has_variable(vars: Seq<RegistryVariableView>, name: Seq<char>) -> bool {
    exists|j: int| 0 <= j < vars.len() && vars[j].key == name
}

/// Every named parameter has a variable declaration.
pub open spec fn names_covered(names: Seq<Seq<char>>, vars: Seq<RegistryVariableView>) -> bool {
    forall|x: int| 0 <= x < names.len() ==> has_variable(vars, names[x])
}

fn has_variable_exec(vars: &Vec<RegistryConfigurationVariable>, name: &Vec<char>) -> (r: bool)
    ensures
        r == has_variable(vars_view(vars@), name@),
{
    let n = vars.len();
    let mut i: usize = 0;
    while i < n
        invariant
            n == vars@.len(),
            i <= n,
            forall|j: int| 0 <= j < i ==> vars_view(vars@)[j].key != name@,
        decreases n - i,
    {
        if chars_eq(&str_chars(vars[i].key.as_str()), name) {
            assert(vars_view(vars@)[i as int].key == name@);
            return true;
        }
        proof {
            assert(vars_view(vars@)[i as int] == vars@[i as int]@);
        }
        i += 1;
    }
    false
}

fn names_covered_exec(names: &Vec<Vec<char>>, vars: &Vec<RegistryConfigurationVariable>) -> (r:
    bool)
    ensures
        r == names_covered(seqs_view(names@), vars_view(vars@)),
{
    let n = names.len();
    let mut i: usize = 0;
    while i < n
        invariant
            n == names@.len(),
            i <= n,
            forall|x: int| 0 <= x < i ==> has_variable(vars_view(vars@), seqs_view(names@)[x]),
        decreases n - i,
    {
        if !has_variable_exec(vars, &names[i]) {
            assert(seqs_view(names@)[i as int] == names@[i as int]@);
            return false;
        }
        proof {
            assert(seqs_view(names@)[i as int] == names@[i as int]@);
        }
        i += 1;
    }
    true
}

/// The position of the first occurrence of `name` in `names`, from `i` on.
pub open spec fn index_of_name_from(names: Seq<Seq<char>>, name: Seq<char>, i: int) -> Option<int>
    decreases names.len() - i,
    when 0 <= i <= names.len()
{
    if i >= names.len() {
        Option::None
    } else if names[i] == name {
        Option::Some(i)
    } else {
        index_of_name_from(names, name, i + 1)
    }
}

/// The position of the first occurrence of `name` in `names`.
pub open spec fn index_of_name(names: Seq<Seq<char>>, name: Seq<char>) -> Option<int> {
    index_of_name_from(names, name, 0)
}

fn index_of_name_from_exec(names: &Vec<Vec<char>>, name: &Vec<char>, i: usize) -> (r: Option<
    usize,
>)
    requires
        i <= names@.len(),
    ensures
        match r {
            Option::Some(k) => index_of_name_from(seqs_view(names@), name@, i as int)
                == Option::Some(k as int) && k < names@.len(),
            Option::None => index_of_name_from(seqs_view(names@), name@, i as int) is None,
        },
    decreases names@.len() - i,
{
    if i >= names.len() {
        Option::None
    } else {
        proof {
            assert(seqs_view(names@)[i as int] == names@[i as int]@);
        }
        if chars_eq(&names[i], name) {
            Option::Some(i)
        } else {
            index_of_name_from_exec(names, name, i + 1)
        }
    }
}

/// Copy the first `count` names.
fn copy_names_prefix(names: &Vec<Vec<char>>, count: usize) -> (r: Vec<Vec<char>>)
    requires
        count <= names@.len(),
    ensures
        seqs_view(r@) == seqs_view(names@).take(count as int),
{
    let mut out: Vec<Vec<char>> = Vec::new();
    let mut i: usize = 0;
    while i < count
        invariant
            count <= names@.len(),
            i <= count,
            out@.len() == i,
            forall|x: int| 0 <= x < i ==> out@[x]@ == names@[x]@,
        decreases count - i,
    {
        out.push(crate::path_to_regex::copy_chars(&names[i]));
        i += 1;
    }
    proof {
        assert(seqs_view(out@) =~= seqs_view(names@).take(count as int));
    }
    out
}

/// A reference `n` in a variable's template is in order: no self-reference
/// under version 1, and any other referenced name must stand strictly left
/// of the variable's own parameter in the schema.
pub open spec fn ref_ok(
    n: Seq<char>,
    vkey: Seq<char>,
    names: Seq<Seq<char>>,
    key_index: int,
    version: int,
) -> bool {
    &&& !(n == vkey && version == 1)
    &&& (n == vkey || index_of_name(names.take(key_index), n) is Some)
}

/// A variable is in order: its key is a named parameter of the schema, and
/// every name its template references is in order.
pub open spec fn variable_ok(
    v: RegistryVariableView,
    names: Seq<Seq<char>>,
    version: int,
) -> bool {
    match index_of_name(names, v.key) {
        Option::None => false,
        Option::Some(ki) => {
            let refs = replacement_vars_spec(v.url, 0);
            forall|r: int| 0 <= r < refs.len() ==> ref_ok(refs[r], v.key, names, ki, version)
        },
    }
}

/// Every variable of a registry is in order.
pub open spec fn variables_ok(
    vars: Seq<RegistryVariableView>,
    names: Seq<Seq<char>>,
    version: int,
) -> bool {
    forall|j: int| 0 <= j < vars.len() ==> variable_ok(vars[j], names, version)
}

fn variable_ok_exec(v: &RegistryConfigurationVariable, names: &Vec<Vec<char>>, version: u32) -> (r:
    bool)
    ensures
        r == variable_ok(v@, seqs_view(names@), version as int),
{
    let vkey = str_chars(v.key.as_str());
    match index_of_name_from_exec(names, &vkey, 0) {
        Option::None => false,
        Option::Some(ki) => {
            let limited = copy_names_prefix(names, ki);
            let refs = parse_replacement_variables(v.url.as_str());
            let ghost refsv = replacement_vars_spec(v@.url, 0);
            let n = refs.len();
            let mut i: usize = 0;
            while i < n
                invariant
                    n == refs@.len(),
                    i <= n,
                    refs.deep_view() == refsv,
                    refsv == replacement_vars_spec(v@.url, 0),
                    seqs_view(limited@) == seqs_view(names@).take(ki as int),
                    vkey@ == v@.key,
                    index_of_name(seqs_view(names@), v@.key) == Option::Some(ki as int),
                    ki <= names@.len(),
                    forall|x: int| 0 <= x < i ==> ref_ok(
                        refsv[x],
                        v@.key,
                        seqs_view(names@),
                        ki as int,
                        version as int,
                    ),
                decreases n - i,
            {
                let rn = str_chars(refs[i].as_str());
                proof {
                    assert(refs.deep_view()[i as int] == refs@[i as int]@);
                    assert(rn@ == refsv[i as int]);
                }
                let is_self = chars_eq(&rn, &vkey);
                if is_self && version == 1 {
                    proof {
                        assert(!ref_ok(
                            refsv[i as int],
                            v@.key,
                            seqs_view(names@),
                            ki as int,
                            version as int,
                        ));
                        assert(index_of_name(seqs_view(names@), v@.key) == Option::Some(
                            ki as int,
                        ));
                        assert(!variable_ok(v@, seqs_view(names@), version as int));
                    }
                    return false;
                }
                if !is_self {
                    match index_of_name_from_exec(&limited, &rn, 0) {
                        Option::Some(_) => {},
                        Option::None => {
                            proof {
                                assert(index_of_name(
                                    seqs_view(names@).take(ki as int),
                                    refsv[i as int],
                                ) is None);
                                assert(!ref_ok(
                                    refsv[i as int],
                                    v@.key,
                                    seqs_view(names@),
                                    ki as int,
                                    version as int,
                                ));
                                assert(index_of_name(seqs_view(names@), v@.key) == Option::Some(
                                    ki as int,
                                ));
                                assert(!variable_ok(v@, seqs_view(names@), version as int));
                            }
                            return false;
                        },
                    }
                }
                i += 1;
            }
            true
        },
    }
}

fn variables_ok_exec(
    vars: &Vec<RegistryConfigurationVariable>,
    names: &Vec<Vec<char>>,
    version: u32,
) -> (r: bool)
    ensures
        r == variables_ok(vars_view(vars@), seqs_view(names@), version as int),
{
    let n = vars.len();
    let mut i: usize = 0;
    while i < n
        invariant
            n == vars@.len(),
            i <= n,
            forall|j: int| 0 <= j < i ==> variable_ok(
                vars_view(vars@)[j],
                seqs_view(names@),
                version as int,
            ),
        decreases n - i,
    {
        proof {
            assert(vars_view(vars@)[i as int] == vars@[i as int]@);
        }
        if !variable_ok_exec(&vars[i], names, version) {
            return false;
        }
        i += 1;
    }
    true
}

/// What validating one registry yields: a syntax error for a schema that
/// does not lex, a compile error for one whose regex is refused, an invalid
/// configuration when a rule is broken, and success otherwise.
pub open spec fn validate_registry_spec(reg: RegistryConfigurationView, version: int) -> Result<
    (),
    RegistryError,
> {
    match parse_spec(reg.schema) {
        Option::None => Result::Err(RegistryError::SchemaSyntax),
        Option::Some(tokens) => if !regex_valid(regex_source_spec(tokens)) {
            Result::Err(RegistryError::RegexCompile)
        } else if names_covered(schema_key_names(tokens), reg.variables) && variables_ok(
            reg.variables,
            schema_key_names(tokens),
            version,
        ) {
            Result::Ok(())
        } else {
            Result::Err(RegistryError::InvalidConfig)
        },
    }
}

/// What validating the registries from `i` onward yields: the first error,
/// or success.
pub open spec fn validate_registries_spec(
    regs: Seq<RegistryConfigurationView>,
    i: int,
    version: int,
) -> Result<(), RegistryError>
    decreases regs.len() - i,
    when 0 <= i <= regs.len()
{
    if i >= regs.len() {
        Result::Ok(())
    } else {
        match validate_registry_spec(regs[i], version) {
            Result::Err(e) => Result::Err(e),
            Result::Ok(_) => validate_registries_spec(regs, i + 1, version),
        }
    }
}

/// What validating a configuration yields: versions other than 1 and 2 are
/// invalid; otherwise each registry is validated in turn.
pub open spec fn validate_config_spec(c: RegistryConfigurationJsonView) -> Result<
    (),
    RegistryError,
> {
    if c.version < 1 || c.version > 2 {
        Result::Err(RegistryError::InvalidConfig)
    } else {
        validate_registries_spec(c.registries, 0, c.version)
    }
}

fn validate_registry_exec(reg: &RegistryConfiguration, version: u32) -> (r: Result<
    (),
    RegistryError,
>)
    ensures
        r == validate_registry_spec(reg@, version as int),
{
    match parse(reg.schema.as_str()) {
        Result::Err(_) => Result::Err(RegistryError::SchemaSyntax),
        Result::Ok(tokens) => {
            let source = regex_source(&tokens);
            match CompiledRegex::new(&source) {
                Option::None => Result::Err(RegistryError::RegexCompile),
                Option::Some(_) => {
                    let keys = crate::path_to_regex::collect_keys(&tokens);
                    let names = string_names_from_exec(&keys, 0);
                    proof {
                        assert(seqs_view(names@) == schema_key_names(tokens.deep_view()));
                    }
                    if names_covered_exec(&names, &reg.variables) && variables_ok_exec(
                        &reg.variables,
                        &names,
                        version,
                    ) {
                        Result::Ok(())
                    } else {
                        Result::Err(RegistryError::InvalidConfig)
                    }
                },
            }
        },
    }
}

fn validate_registries_exec(regs: &Vec<RegistryConfiguration>, i: usize, version: u32) -> (r:
    Result<(), RegistryError>)
    requires
        i <= regs@.len(),
    ensures
        r == validate_registries_spec(registries_view(regs@), i as int, version as int),
    decreases regs@.len() - i,
{
    if i >= regs.len() {
        Result::Ok(())
    } else {
        proof {
            assert(registries_view(regs@)[i as int] == regs@[i as int]@);
        }
        match validate_registry_exec(&regs[i], version) {
            Result::Err(e) => Result::Err(e),
            Result::Ok(_) => validate_registries_exec(regs, i + 1, version),
        }
    }
}

/// Validate a registry configuration document: the version must be 1 or 2,
/// every named parameter of each schema must have exactly one variable, and
/// each variable's template may reference only itself (version 2) or
/// parameters standing strictly to the left of its own.
pub fn validate_config(config: &RegistryConfigurationJson) -> (r: Result<(), RegistryError>)
    ensures
        r == validate_config_spec(config@),
{
    if config.version < 1 || config.version > 2 {
        Result::Err(RegistryError::InvalidConfig)
    } else {
        validate_registries_exec(&config.registries, 0, config.version)
    }
}

} // verus!
