//! The path-to-regex schema compiler: lexing a schema string into tokens,
//! compiling tokens to a matching regex source, recovering named parameters
//! from a match, and compiling parameters back into a path.

use vstd::prelude::*;
use crate::text::{chars_eq, extend_chars, subrange_chars};
use crate::template::{is_word_char, word_run_len, lemma_word_run_len_bounds};

verus! {

/// A parameter name: an identifier or an unnamed capture index.
pub enum StringOrNumber {
    Str(Vec<char>),
    Num(usize),
}

/// The spec-level shape of a parameter name.
pub enum StringOrNumberView {
    Str(Seq<char>),
    Num(int),
}

impl View for StringOrNumber {
    type V = StringOrNumberView;

    open spec fn view(&self) -> StringOrNumberView {
        match self {
            StringOrNumber::Str(s) => StringOrNumberView::Str(s@),
            StringOrNumber::Num(n) => StringOrNumberView::Num(*n as int),
        }
    }
}

/// A parameter's repetition modifier.
#[derive(Clone, Copy, Debug, PartialEq, Eq, Structural)]
pub enum Modifier {
    /// No modifier: the parameter matches exactly once.
    Bare,
    /// `?`: the parameter may be absent.
    Opt,
    /// `+`: one or more occurrences.
    OneOrMore,
    /// `*`: zero or more occurrences.
    ZeroOrMore,
}

/// A named or numbered capture position in a schema.
pub struct Key {
    pub name: StringOrNumber,
    pub prefix: Vec<char>,
    pub suffix: Vec<char>,
    pub pattern: Vec<char>,
    pub modifier: Modifier,
}

/// The spec-level shape of a `Key`.
pub struct KeyView {
    pub name: StringOrNumberView,
    pub prefix: Seq<char>,
    pub suffix: Seq<char>,
    pub pattern: Seq<char>,
    pub modifier: Modifier,
}

impl View for Key {
    type V = KeyView;

    open spec fn view(&self) -> KeyView {
        KeyView {
            name: self.name@,
            prefix: self.prefix@,
            suffix: self.suffix@,
            pattern: self.pattern@,
            modifier: self.modifier,
        }
    }
}

/// One element of a compiled schema: fixed text or a parameter.
pub enum Token {
    Literal(Vec<char>),
    Param(Key),
}

/// The spec-level shape of a `Token`.
pub enum TokenView {
    Literal(Seq<char>),
    Param(KeyView),
}

impl View for Token {
    type V = TokenView;

    open spec fn view(&self) -> TokenView {
        match self {
            Token::Literal(s) => TokenView::Literal(s@),
            Token::Param(k) => TokenView::Param(k@),
        }
    }
}

impl DeepView for Token {
    type V = TokenView;

    open spec fn deep_view(&self) -> TokenView {
        self@
    }
}

/// A captured parameter value: a single string, or the list a repeated
/// parameter captured.
pub enum StringOrVec {
    Single(Vec<char>),
    Multi(Vec<Vec<char>>),
}

/// The spec-level shape of a captured value.
pub enum StringOrVecView {
    Single(Seq<char>),
    Multi(Seq<Seq<char>>),
}

/// The views of a sequence of character vectors.
pub open spec fn seqs_view(v: Seq<Vec<char>>) -> Seq<Seq<char>> {
    Seq::new(v.len(), |i: int| v[i]@)
}

impl View for StringOrVec {
    type V = StringOrVecView;

    open spec fn view(&self) -> StringOrVecView {
        match self {
            StringOrVec::Single(s) => StringOrVecView::Single(s@),
            StringOrVec::Multi(v) => StringOrVecView::Multi(seqs_view(v@)),
        }
    }
}

/// Copy a character vector.
pub fn copy_chars(v: &Vec<char>) -> (r: Vec<char>)
    ensures
        r@ == v@,
{
    let r = subrange_chars(v, 0, v.len());
    proof {
        assert(v@.subrange(0, v@.len() as int) =~= v@);
    }
    r
}

impl StringOrNumber {
    /// Copy a parameter name.
    pub fn duplicate(&self) -> (r: StringOrNumber)
        ensures
            r@ == self@,
    {
        match self {
            StringOrNumber::Str(s) => StringOrNumber::Str(copy_chars(s)),
            StringOrNumber::Num(n) => StringOrNumber::Num(*n),
        }
    }

    /// Compare two parameter names.
    pub fn same(&self, other: &StringOrNumber) -> (r: bool)
        ensures
            r == (self@ == other@),
    {
        match (self, other) {
            (StringOrNumber::Str(a), StringOrNumber::Str(b)) => chars_eq(a, b),
            (StringOrNumber::Num(a), StringOrNumber::Num(b)) => *a == *b,
            _ => false,
        }
    }
}

impl Key {
    /// Copy a key.
    pub fn duplicate(&self) -> (r: Key)
        ensures
            r@ == self@,
    {
        Key {
            name: self.name.duplicate(),
            prefix: copy_chars(&self.prefix),
            suffix: copy_chars(&self.suffix),
            pattern: copy_chars(&self.pattern),
            modifier: self.modifier,
        }
    }
}

impl StringOrVec {
    /// Copy a captured value.
    pub fn duplicate(&self) -> (r: StringOrVec)
        ensures
            r@ == self@,
    {
        match self {
            StringOrVec::Single(s) => StringOrVec::Single(copy_chars(s)),
            StringOrVec::Multi(v) => {
                let n = v.len();
                let mut out: Vec<Vec<char>> = Vec::new();
                let mut i: usize = 0;
                while i < n
                    invariant
                        n == v@.len(),
                        i <= n,
                        out@.len() == i,
                        forall|x: int| 0 <= x < i ==> out@[x]@ == v@[x]@,
                    decreases n - i,
                {
                    out.push(copy_chars(&v[i]));
                    i += 1;
                }
                proof {
                    assert(seqs_view(out@) =~= seqs_view(v@));
                }
                StringOrVec::Multi(out)
            },
        }
    }
}

// ---------------------------------------------------------------------------
// Lexing
// ---------------------------------------------------------------------------

/// A raw lexer token of the schema grammar.
pub enum LexTok {
    Open,
    Close,
    Pattern(Vec<char>),
    Name(Vec<char>),
    Ch(char),
    Escaped(char),
    Mod(char),
}

/// The spec-level shape of a lexer token.
pub enum LexTokView {
    Open,
    Close,
    Pattern(Seq<char>),
    Name(Seq<char>),
    Ch(char),
    Escaped(char),
    Mod(char),
}

impl View for LexTok {
    type V = LexTokView;

    open spec fn view(&self) -> LexTokView {
        match self {
            LexTok::Open => LexTokView::Open,
            LexTok::Close => LexTokView::Close,
            LexTok::Pattern(s) => LexTokView::Pattern(s@),
            LexTok::Name(s) => LexTokView::Name(s@),
            LexTok::Ch(c) => LexTokView::Ch(*c),
            LexTok::Escaped(c) => LexTokView::Escaped(*c),
            LexTok::Mod(c) => LexTokView::Mod(*c),
        }
    }
}

impl DeepView for LexTok {
    type V = LexTokView;

    open spec fn deep_view(&self) -> LexTokView {
        self@
    }
}

/// Scan a parenthesised pattern starting just after `(` at nesting `depth`;
/// backslash escapes two characters, nested groups must be non-capturing,
/// and the scan ends on the closing parenthesis of the outermost group.
pub open spec fn pattern_scan(s: Seq<char>, j: int, depth: int, acc: Seq<char>) -> Option<
    (Seq<char>, int),
>
    decreases s.len() - j,
    when 0 <= j <= s.len()
{
    if j >= s.len() {
        Option::None
    } else if s[j] == '\\' {
        if j + 1 < s.len() {
            pattern_scan(s, j + 2, depth, acc + seq![s[j], s[j + 1]])
        } else {
            Option::None
        }
    } else if s[j] == ')' {
        if depth == 1 {
            Option::Some((acc, j + 1))
        } else {
            pattern_scan(s, j + 1, depth - 1, acc + seq![s[j]])
        }
    } else if s[j] == '(' {
        if j + 1 < s.len() && s[j + 1] == '?' {
            pattern_scan(s, j + 1, depth + 1, acc + seq![s[j]])
        } else {
            Option::None
        }
    } else {
        pattern_scan(s, j + 1, depth, acc + seq![s[j]])
    }
}

pub proof fn lemma_pattern_scan_bounds(s: Seq<char>, j: int, depth: int, acc: Seq<char>)
    requires
        0 <= j <= s.len(),
        pattern_scan(s, j, depth, acc) is Some,
    ensures
        j < pattern_scan(s, j, depth, acc)->Some_0.1 <= s.len(),
    decreases s.len() - j,
{
    if j >= s.len() {
    } else if s[j] == '\\' {
        if j + 1 < s.len() {
            lemma_pattern_scan_bounds(s, j + 2, depth, acc + seq![s[j], s[j + 1]]);
        }
    } else if s[j] == ')' {
        if depth == 1 {
        } else {
            lemma_pattern_scan_bounds(s, j + 1, depth - 1, acc + seq![s[j]]);
        }
    } else if s[j] == '(' {
        if j + 1 < s.len() && s[j + 1] == '?' {
            lemma_pattern_scan_bounds(s, j + 1, depth + 1, acc + seq![s[j]]);
        }
    } else {
        lemma_pattern_scan_bounds(s, j + 1, depth, acc + seq![s[j]]);
    }
}

/// Prepend a token to a lexing result.
pub open spec fn lex_cons(t: LexTokView, rest: Option<Seq<LexTokView>>) -> Option<
    Seq<LexTokView>,
> {
    match rest {
        Option::None => Option::None,
        Option::Some(v) => Option::Some(seq![t] + v),
    }
}

/// Lex the schema from position `i` onward. `*`, `+` and `?` are modifiers,
/// backslash escapes one character, `{` and `}` group, `:name` names a
/// parameter, `(...)` is an inner pattern that must not start with `?`, and
/// any other character is ordinary text.
pub open spec fn lex_spec(s: Seq<char>, i: int) -> Option<Seq<LexTokView>>
    decreases s.len() - i,
    when 0 <= i <= s.len()
    via lex_spec_dec
{
    if i >= s.len() {
        Option::Some(Seq::empty())
    } else {
        let c = s[i];
        if c == '*' || c == '+' || c == '?' {
            lex_cons(LexTokView::Mod(c), lex_spec(s, i + 1))
        } else if c == '\\' {
            if i + 1 < s.len() {
                lex_cons(LexTokView::Escaped(s[i + 1]), lex_spec(s, i + 2))
            } else {
                Option::None
            }
        } else if c == '{' {
            lex_cons(LexTokView::Open, lex_spec(s, i + 1))
        } else if c == '}' {
            lex_cons(LexTokView::Close, lex_spec(s, i + 1))
        } else if c == ':' {
            let n = word_run_len(s, i + 1);
            if n == 0 {
                Option::None
            } else {
                lex_cons(LexTokView::Name(s.subrange(i + 1, i + 1 + n)), lex_spec(s, i + 1 + n))
            }
        } else if c == '(' {
            if i + 1 < s.len() && s[i + 1] == '?' {
                Option::None
            } else {
                match pattern_scan(s, i + 1, 1, Seq::empty()) {
                    Option::None => Option::None,
                    Option::Some((pat, j)) => if pat.len() == 0 {
                        Option::None
                    } else {
                        lex_cons(LexTokView::Pattern(pat), lex_spec(s, j))
                    },
                }
            }
        } else {
            lex_cons(LexTokView::Ch(c), lex_spec(s, i + 1))
        }
    }
}

#[via_fn]
proof fn lex_spec_dec(s: Seq<char>, i: int) {
    if 0 <= i < s.len() {
        let c = s[i];
        if c == ':' {
            lemma_word_run_len_bounds(s, i + 1);
        }
        if c == '(' && !(i + 1 < s.len() && s[i + 1] == '?') {
            if pattern_scan(s, i + 1, 1, Seq::empty()) is Some {
                lemma_pattern_scan_bounds(s, i + 1, 1, Seq::empty());
            }
        }
    }
}

fn pattern_scan_exec(s: &Vec<char>, j: usize, depth: usize, acc: Vec<char>) -> (r: Option<
    (Vec<char>, usize),
>)
    requires
        j <= s@.len(),
        depth >= 1,
    ensures
        match r {
            Option::Some((pat, end)) => pattern_scan(s@, j as int, depth as int, acc@)
                == Option::Some((pat@, end as int)) && j < end <= s@.len(),
            Option::None => pattern_scan(s@, j as int, depth as int, acc@) is None,
        },
    decreases s@.len() - j,
{
    if j >= s.len() {
        return Option::None;
    }
    let c = s[j];
    if c == '\\' {
        if j + 1 < s.len() {
            let mut acc2 = acc;
            acc2.push(c);
            acc2.push(s[j + 1]);
            proof {
                assert(acc2@ =~= acc@ + seq![s@[j as int], s@[j + 1]]);
            }
            pattern_scan_exec(s, j + 2, depth, acc2)
        } else {
            Option::None
        }
    } else if c == ')' {
        if depth == 1 {
            Option::Some((acc, j + 1))
        } else {
            let mut acc2 = acc;
            acc2.push(c);
            proof {
                assert(acc2@ =~= acc@ + seq![s@[j as int]]);
            }
            pattern_scan_exec(s, j + 1, depth - 1, acc2)
        }
    } else if c == '(' {
        if j + 1 < s.len() && s[j + 1] == '?' {
            let mut acc2 = acc;
            acc2.push(c);
            proof {
                assert(acc2@ =~= acc@ + seq![s@[j as int]]);
            }
            if depth < usize::MAX {
                pattern_scan_exec(s, j + 1, depth + 1, acc2)
            } else {
                // unreachable in practice: nesting deeper than the text is left
                proof {
                    lemma_pattern_scan_depth_bound(s@, j as int + 1, depth as int + 1, acc2@);
                }
                Option::None
            }
        } else {
            Option::None
        }
    } else {
        let mut acc2 = acc;
        acc2.push(c);
        proof {
            assert(acc2@ =~= acc@ + seq![s@[j as int]]);
        }
        pattern_scan_exec(s, j + 1, depth, acc2)
    }
}

proof fn lemma_pattern_scan_depth_bound(s: Seq<char>, j: int, depth: int, acc: Seq<char>)
    requires
        0 <= j <= s.len(),
        depth > s.len() - j,
    ensures
        pattern_scan(s, j, depth, acc) is None,
    decreases s.len() - j,
{
    if j >= s.len() {
    } else if s[j] == '\\' {
        if j + 1 < s.len() {
            lemma_pattern_scan_depth_bound(s, j + 2, depth, acc + seq![s[j], s[j + 1]]);
        }
    } else if s[j] == ')' {
        if depth != 1 {
            lemma_pattern_scan_depth_bound(s, j + 1, depth - 1, acc + seq![s[j]]);
        }
    } else if s[j] == '(' {
        if j + 1 < s.len() && s[j + 1] == '?' {
            lemma_pattern_scan_depth_bound(s, j + 1, depth + 1, acc + seq![s[j]]);
        }
    } else {
        lemma_pattern_scan_depth_bound(s, j + 1, depth, acc + seq![s[j]]);
    }
}

fn word_run_len_exec2(s: &Vec<char>, i: usize) -> (r: usize)
    requires
        i <= s@.len(),
    ensures
        r as int == word_run_len(s@, i as int),
        i + r <= s@.len(),
{
    let n = s.len();
    let mut j: usize = i;
    while j < n && (('a' <= s[j] && s[j] <= 'z') || ('A' <= s[j] && s[j] <= 'Z') || ('0' <= s[j]
        && s[j] <= '9') || s[j] == '_')
        invariant
            i <= j <= n,
            n == s@.len(),
            word_run_len(s@, i as int) == (j - i) + word_run_len(s@, j as int),
            forall|x: int| i <= x < j ==> is_word_char(s@[x]),
        decreases n - j,
    {
        j += 1;
    }
    proof {
        lemma_word_run_len_bounds(s@, j as int);
    }
    j - i
}

/// Lex a schema from position `i` onward.
fn lex_exec(s: &Vec<char>, i: usize) -> (r: Option<Vec<LexTok>>)
    requires
        i <= s@.len(),
    ensures
        match r {
            Option::Some(v) => lex_spec(s@, i as int) == Option::Some(v.deep_view()),
            Option::None => lex_spec(s@, i as int) is None,
        },
    decreases s@.len() - i,
{
    if i >= s.len() {
        let r: Vec<LexTok> = Vec::new();
        proof {
            assert(r.deep_view() =~= Seq::<LexTokView>::empty());
        }
        return Option::Some(r);
    }
    let c = s[i];
    if c == '*' || c == '+' || c == '?' {
        let rest = lex_exec(s, i + 1);
        cons_lex(LexTok::Mod(c), rest)
    } else if c == '\\' {
        if i + 1 < s.len() {
            let e = s[i + 1];
            let rest = lex_exec(s, i + 2);
            cons_lex(LexTok::Escaped(e), rest)
        } else {
            Option::None
        }
    } else if c == '{' {
        let rest = lex_exec(s, i + 1);
        cons_lex(LexTok::Open, rest)
    } else if c == '}' {
        let rest = lex_exec(s, i + 1);
        cons_lex(LexTok::Close, rest)
    } else if c == ':' {
        let n = word_run_len_exec2(s, i + 1);
        if n == 0 {
            Option::None
        } else {
            let name = subrange_chars(s, i + 1, i + 1 + n);
            let rest = lex_exec(s, i + 1 + n);
            cons_lex(LexTok::Name(name), rest)
        }
    } else if c == '(' {
        if i + 1 < s.len() && s[i + 1] == '?' {
            Option::None
        } else {
            match pattern_scan_exec(s, i + 1, 1, Vec::new()) {
                Option::None => Option::None,
                Option::Some((pat, j)) => {
                    if pat.len() == 0 {
                        Option::None
                    } else {
                        let rest = lex_exec(s, j);
                        cons_lex(LexTok::Pattern(pat), rest)
                    }
                },
            }
        }
    } else {
        let rest = lex_exec(s, i + 1);
        cons_lex(LexTok::Ch(c), rest)
    }
}

fn cons_lex(t: LexTok, rest: Option<Vec<LexTok>>) -> (r: Option<Vec<LexTok>>)
    ensures
        match r {
            Option::Some(v) => rest is Some && v.deep_view() == lex_cons(
                t@,
                Option::Some(rest->Some_0.deep_view()),
            )->Some_0,
            Option::None => rest is None,
        },
{
    match rest {
        Option::None => Option::None,
        Option::Some(v) => {
            let mut out: Vec<LexTok> = Vec::new();
            out.push(t);
            let mut v2 = v;
            out.append(&mut v2);
            proof {
                assert(out.deep_view() =~= seq![t@] + v.deep_view());
            }
            Option::Some(out)
        },
    }
}

} // verus!


verus! {

// ---------------------------------------------------------------------------
// Parsing lexer tokens into schema tokens
// ---------------------------------------------------------------------------

/// The default inner pattern: one or more characters that are not a
/// delimiter, matched non-greedily.
pub open spec fn default_pattern() -> Seq<char> {
    seq!['[', '^', '\\', '/', '#', '\\', '?', ']', '+', '?']
}

/// Build the default inner pattern.
pub fn default_pattern_exec() -> (r: Vec<char>)
    ensures
        r@ == default_pattern(),
{
    let mut r: Vec<char> = Vec::new();
    r.push('[');
    r.push('^');
    r.push('\\');
    r.push('/');
    r.push('#');
    r.push('\\');
    r.push('?');
    r.push(']');
    r.push('+');
    r.push('?');
    proof {
        assert(r@ =~= default_pattern());
    }
    r
}

/// The modifier a modifier character denotes.
pub open spec fn modifier_of(c: char) -> Modifier {
    if c == '?' {
        Modifier::Opt
    } else if c == '+' {
        Modifier::OneOrMore
    } else if c == '*' {
        Modifier::ZeroOrMore
    } else {
        Modifier::Bare
    }
}

/// Collect the run of ordinary and escaped characters starting at `i`,
/// returning the text and the position after it.
pub open spec fn consume_text(t: Seq<LexTokView>, i: int) -> (Seq<char>, int)
    decreases t.len() - i,
    when 0 <= i <= t.len()
{
    if i < t.len() {
        match t[i] {
            LexTokView::Ch(c) => {
                let r = consume_text(t, i + 1);
                (seq![c] + r.0, r.1)
            },
            LexTokView::Escaped(c) => {
                let r = consume_text(t, i + 1);
                (seq![c] + r.0, r.1)
            },
            _ => (Seq::empty(), i),
        }
    } else {
        (Seq::empty(), i)
    }
}

pub proof fn lemma_consume_text_bounds(t: Seq<LexTokView>, i: int)
    requires
        0 <= i <= t.len(),
    ensures
        i <= consume_text(t, i).1 <= t.len(),
    decreases t.len() - i,
{
    if i < t.len() {
        match t[i] {
            LexTokView::Ch(c) => lemma_consume_text_bounds(t, i + 1),
            LexTokView::Escaped(c) => lemma_consume_text_bounds(t, i + 1),
            _ => {},
        }
    }
}

/// A literal character standing before a parameter becomes the parameter's
/// prefix when it is a delimiter; otherwise it joins the pending text.
pub open spec fn inline_prefix(char_opt: Option<char>, path: Seq<char>) -> (Seq<char>, Seq<char>) {
    match char_opt {
        Option::Some(c) => if c == '.' || c == '/' {
            (path, seq![c])
        } else {
            (path.push(c), Seq::empty())
        },
        Option::None => (path, Seq::empty()),
    }
}

/// Prepend tokens to a parsing result.
pub open spec fn prepend_tokens(pre: Seq<TokenView>, rest: Option<Seq<TokenView>>) -> Option<
    Seq<TokenView>,
> {
    match rest {
        Option::None => Option::None,
        Option::Some(v) => Option::Some(pre + v),
    }
}

/// Parse lexer tokens from `i` onward into schema tokens. `next_key` numbers
/// unnamed pattern captures and `path` is the pending literal text.
pub open spec fn parse_toks(t: Seq<LexTokView>, i: int, next_key: int, path: Seq<char>) -> Option<
    Seq<TokenView>,
>
    decreases t.len() - i,
    when 0 <= i <= t.len()
    via parse_toks_dec
{
    if i >= t.len() {
        if path.len() > 0 {
            Option::Some(seq![TokenView::Literal(path)])
        } else {
            Option::Some(Seq::empty())
        }
    } else {
        let char_opt: Option<char> = match t[i] {
            LexTokView::Ch(c) => Option::Some(c),
            _ => Option::None,
        };
        let i1: int = if char_opt is Some {
            i + 1
        } else {
            i
        };
        let name_opt: Option<Seq<char>> = if i1 < t.len() {
            match t[i1] {
                LexTokView::Name(nm) => Option::Some(nm),
                _ => Option::None,
            }
        } else {
            Option::None
        };
        let i2: int = if name_opt is Some {
            i1 + 1
        } else {
            i1
        };
        let pat_opt: Option<Seq<char>> = if i2 < t.len() {
            match t[i2] {
                LexTokView::Pattern(p) => Option::Some(p),
                _ => Option::None,
            }
        } else {
            Option::None
        };
        let i3: int = if pat_opt is Some {
            i2 + 1
        } else {
            i2
        };
        if name_opt is Some || pat_opt is Some {
            let adjusted = inline_prefix(char_opt, path);
            let path1 = adjusted.0;
            let prefix = adjusted.1;
            let lit_part: Seq<TokenView> = if path1.len() > 0 {
                seq![TokenView::Literal(path1)]
            } else {
                Seq::empty()
            };
            let has_mod = i3 < t.len() && t[i3] is Mod;
            let modifier = if has_mod {
                modifier_of(t[i3]->Mod_0)
            } else {
                Modifier::Bare
            };
            let i4: int = if has_mod {
                i3 + 1
            } else {
                i3
            };
            let name = match name_opt {
                Option::Some(nm) => StringOrNumberView::Str(nm),
                Option::None => StringOrNumberView::Num(next_key),
            };
            let nk: int = if name_opt is Some {
                next_key
            } else {
                next_key + 1
            };
            let pattern = match pat_opt {
                Option::Some(p) => p,
                Option::None => default_pattern(),
            };
            let key = KeyView { name, prefix, suffix: Seq::empty(), pattern, modifier };
            prepend_tokens(
                lit_part.push(TokenView::Param(key)),
                parse_toks(t, i4, nk, Seq::empty()),
            )
        } else if char_opt is Some {
            parse_toks(t, i + 1, next_key, path.push(char_opt->Some_0))
        } else if t[i] is Escaped {
            parse_toks(t, i + 1, next_key, path.push(t[i]->Escaped_0))
        } else if t[i] is Open {
            let pr = consume_text(t, i + 1);
            let prefix = pr.0;
            let j1 = pr.1;
            let gname_opt: Option<Seq<char>> = if j1 < t.len() {
                match t[j1] {
                    LexTokView::Name(nm) => Option::Some(nm),
                    _ => Option::None,
                }
            } else {
                Option::None
            };
            let j2: int = if gname_opt is Some {
                j1 + 1
            } else {
                j1
            };
            let gpat_opt: Option<Seq<char>> = if j2 < t.len() {
                match t[j2] {
                    LexTokView::Pattern(p) => Option::Some(p),
                    _ => Option::None,
                }
            } else {
                Option::None
            };
            let j3: int = if gpat_opt is Some {
                j2 + 1
            } else {
                j2
            };
            let sr = consume_text(t, j3);
            let suffix = sr.0;
            let j4 = sr.1;
            if j4 < t.len() && t[j4] is Close {
                let has_mod = j4 + 1 < t.len() && t[j4 + 1] is Mod;
                let modifier = if has_mod {
                    modifier_of(t[j4 + 1]->Mod_0)
                } else {
                    Modifier::Bare
                };
                let j5: int = if has_mod {
                    j4 + 2
                } else {
                    j4 + 1
                };
                let lit_part: Seq<TokenView> = if path.len() > 0 {
                    seq![TokenView::Literal(path)]
                } else {
                    Seq::empty()
                };
                let name = match gname_opt {
                    Option::Some(nm) => StringOrNumberView::Str(nm),
                    Option::None => if gpat_opt is Some {
                        StringOrNumberView::Num(next_key)
                    } else {
                        StringOrNumberView::Str(Seq::empty())
                    },
                };
                let nk: int = if gname_opt is None && gpat_opt is Some {
                    next_key + 1
                } else {
                    next_key
                };
                let pattern = if gname_opt is Some && gpat_opt is None {
                    default_pattern()
                } else {
                    match gpat_opt {
                        Option::Some(p) => p,
                        Option::None => Seq::empty(),
                    }
                };
                let key = KeyView { name, prefix, suffix, pattern, modifier };
                prepend_tokens(
                    lit_part.push(TokenView::Param(key)),
                    parse_toks(t, j5, nk, Seq::empty()),
                )
            } else {
                Option::None
            }
        } else {
            Option::None
        }
    }
}

#[via_fn]
proof fn parse_toks_dec(t: Seq<LexTokView>, i: int, next_key: int, path: Seq<char>) {
    if 0 <= i < t.len() {
        lemma_consume_text_bounds(t, i + 1);
        let pr = consume_text(t, i + 1);
        if pr.1 <= t.len() {
            let j1 = pr.1;
            let gname_opt: Option<Seq<char>> = if j1 < t.len() {
                match t[j1] {
                    LexTokView::Name(nm) => Option::Some(nm),
                    _ => Option::None,
                }
            } else {
                Option::None
            };
            let j2: int = if gname_opt is Some {
                j1 + 1
            } else {
                j1
            };
            let gpat_opt: Option<Seq<char>> = if j2 < t.len() {
                match t[j2] {
                    LexTokView::Pattern(p) => Option::Some(p),
                    _ => Option::None,
                }
            } else {
                Option::None
            };
            let j3: int = if gpat_opt is Some {
                j2 + 1
            } else {
                j2
            };
            lemma_consume_text_bounds(t, j3);
        }
    }
}

} // verus!

verus! {

fn consume_text_exec(t: &Vec<LexTok>, i: usize) -> (r: (Vec<char>, usize))
    requires
        i <= t@.len(),
    ensures
        consume_text(t.deep_view(), i as int) == (r.0@, r.1 as int),
        i <= r.1 <= t@.len(),
    decreases t@.len() - i,
{
    if i < t.len() {
        let c_opt: Option<char> = match &t[i] {
            LexTok::Ch(c) => Option::Some(*c),
            LexTok::Escaped(c) => Option::Some(*c),
            _ => Option::None,
        };
        match c_opt {
            Option::Some(c) => {
                let rest = consume_text_exec(t, i + 1);
                let mut out: Vec<char> = Vec::new();
                out.push(c);
                let mut r2 = rest.0;
                out.append(&mut r2);
                proof {
                    assert(out@ =~= seq![c] + consume_text(t.deep_view(), i + 1).0);
                }
                (out, rest.1)
            },
            Option::None => {
                (Vec::new(), i)
            },
        }
    } else {
        (Vec::new(), i)
    }
}

#[verifier::rlimit(100)]
fn parse_toks_exec(t: &Vec<LexTok>, i: usize, next_key: usize, path: Vec<char>) -> (r: Option<
    Vec<Token>,
>)
    requires
        i <= t@.len(),
        next_key + (t@.len() - i) <= usize::MAX,
    ensures
        match r {
            Option::Some(v) => parse_toks(t.deep_view(), i as int, next_key as int, path@)
                == Option::Some(v.deep_view()),
            Option::None => parse_toks(t.deep_view(), i as int, next_key as int, path@) is None,
        },
    decreases t@.len() - i, 1int,
{
    let n = t.len();
    if i >= n {
        let mut out: Vec<Token> = Vec::new();
        if path.len() > 0 {
            let ghost pv = path@;
            out.push(Token::Literal(path));
            proof {
                assert(out.deep_view() =~= seq![TokenView::Literal(pv)]);
            }
        } else {
            proof {
                assert(out.deep_view() =~= Seq::<TokenView>::empty());
            }
        }
        return Option::Some(out);
    }
    let char_opt: Option<char> = match &t[i] {
        LexTok::Ch(c) => Option::Some(*c),
        _ => Option::None,
    };
    let i1: usize = if char_opt.is_some() {
        i + 1
    } else {
        i
    };
    let name_opt: Option<Vec<char>> = if i1 < n {
        match &t[i1] {
            LexTok::Name(nm) => Option::Some(copy_chars(nm)),
            _ => Option::None,
        }
    } else {
        Option::None
    };
    let i2: usize = if name_opt.is_some() {
        i1 + 1
    } else {
        i1
    };
    let pat_opt: Option<Vec<char>> = if i2 < n {
        match &t[i2] {
            LexTok::Pattern(p) => Option::Some(copy_chars(p)),
            _ => Option::None,
        }
    } else {
        Option::None
    };
    let i3: usize = if pat_opt.is_some() {
        i2 + 1
    } else {
        i2
    };
    if name_opt.is_some() || pat_opt.is_some() {
        let mut path1 = path;
        let mut prefix: Vec<char> = Vec::new();
        match char_opt {
            Option::Some(c) => {
                if c == '.' || c == '/' {
                    prefix.push(c);
                } else {
                    path1.push(c);
                }
            },
            Option::None => {},
        }
        proof {
            assert((path1@, prefix@) == inline_prefix(char_opt, path@));
        }
        let has_mod: bool = if i3 < n {
            match &t[i3] {
                LexTok::Mod(_) => true,
                _ => false,
            }
        } else {
            false
        };
        let modifier: Modifier = if has_mod {
            match &t[i3] {
                LexTok::Mod(m) => {
                    if *m == '?' {
                        Modifier::Opt
                    } else if *m == '+' {
                        Modifier::OneOrMore
                    } else if *m == '*' {
                        Modifier::ZeroOrMore
                    } else {
                        Modifier::Bare
                    }
                },
                _ => Modifier::Bare,
            }
        } else {
            Modifier::Bare
        };
        let i4: usize = if has_mod {
            i3 + 1
        } else {
            i3
        };
        let name: StringOrNumber;
        let nk: usize;
        match name_opt {
            Option::Some(nm) => {
                name = StringOrNumber::Str(nm);
                nk = next_key;
            },
            Option::None => {
                name = StringOrNumber::Num(next_key);
                nk = next_key + 1;
            },
        }
        let pattern: Vec<char> = match pat_opt {
            Option::Some(p) => p,
            Option::None => default_pattern_exec(),
        };
        let key = Key { name, prefix, suffix: Vec::new(), pattern, modifier };
        let ghost keyv = key@;
        let ghost litv: Seq<TokenView> = if path1@.len() > 0 {
            seq![TokenView::Literal(path1@)]
        } else {
            Seq::empty()
        };
        match parse_toks_exec(t, i4, nk, Vec::new()) {
            Option::None => Option::None,
            Option::Some(rest) => {
                let ghost restv = rest.deep_view();
                let mut out: Vec<Token> = Vec::new();
                if path1.len() > 0 {
                    out.push(Token::Literal(path1));
                }
                out.push(Token::Param(key));
                let mut r2 = rest;
                out.append(&mut r2);
                proof {
                    assert(out.deep_view() =~= litv.push(TokenView::Param(keyv)) + restv);
                }
                Option::Some(out)
            },
        }
    } else if char_opt.is_some() {
        let c = match char_opt {
            Option::Some(c) => c,
            Option::None => ' ',
        };
        let mut path2 = path;
        path2.push(c);
        parse_toks_exec(t, i + 1, next_key, path2)
    } else {
        proof {
            assert(!(t.deep_view()[i as int] is Ch));
            assert(!(t.deep_view()[i as int] is Name));
            assert(!(t.deep_view()[i as int] is Pattern));
        }
        parse_rest_exec(t, i, next_key, path)
    }
}

#[verifier::rlimit(100)]
fn parse_rest_exec(t: &Vec<LexTok>, i: usize, next_key: usize, path: Vec<char>) -> (r: Option<
    Vec<Token>,
>)
    requires
        i < t@.len(),
        next_key + (t@.len() - i) <= usize::MAX,
        !(t.deep_view()[i as int] is Ch),
        !(t.deep_view()[i as int] is Name),
        !(t.deep_view()[i as int] is Pattern),
    ensures
        match r {
            Option::Some(v) => parse_toks(t.deep_view(), i as int, next_key as int, path@)
                == Option::Some(v.deep_view()),
            Option::None => parse_toks(t.deep_view(), i as int, next_key as int, path@) is None,
        },
    decreases t@.len() - i, 0int,
{
    let n = t.len();
    let esc_opt: Option<char> = match &t[i] {
        LexTok::Escaped(c) => Option::Some(*c),
        _ => Option::None,
    };
    match esc_opt {
        Option::Some(c) => {
            let mut path2 = path;
            path2.push(c);
            return parse_toks_exec(t, i + 1, next_key, path2);
        },
        Option::None => {},
    }
    let is_open: bool = match &t[i] {
        LexTok::Open => true,
        _ => false,
    };
    if is_open {
        let pr = consume_text_exec(t, i + 1);
        let prefix = pr.0;
        let j1 = pr.1;
        let gname_opt: Option<Vec<char>> = if j1 < n {
            match &t[j1] {
                LexTok::Name(nm) => Option::Some(copy_chars(nm)),
                _ => Option::None,
            }
        } else {
            Option::None
        };
        let j2: usize = if gname_opt.is_some() {
            j1 + 1
        } else {
            j1
        };
        let gpat_opt: Option<Vec<char>> = if j2 < n {
            match &t[j2] {
                LexTok::Pattern(p) => Option::Some(copy_chars(p)),
                _ => Option::None,
            }
        } else {
            Option::None
        };
        let j3: usize = if gpat_opt.is_some() {
            j2 + 1
        } else {
            j2
        };
        let sr = consume_text_exec(t, j3);
        let suffix = sr.0;
        let j4 = sr.1;
        let is_close: bool = if j4 < n {
            match &t[j4] {
                LexTok::Close => true,
                _ => false,
            }
        } else {
            false
        };
        if is_close {
            let has_mod: bool = if j4 + 1 < n {
                match &t[j4 + 1] {
                    LexTok::Mod(_) => true,
                    _ => false,
                }
            } else {
                false
            };
            let modifier: Modifier = if has_mod {
                match &t[j4 + 1] {
                    LexTok::Mod(m) => {
                        if *m == '?' {
                            Modifier::Opt
                        } else if *m == '+' {
                            Modifier::OneOrMore
                        } else if *m == '*' {
                            Modifier::ZeroOrMore
                        } else {
                            Modifier::Bare
                        }
                    },
                    _ => Modifier::Bare,
                }
            } else {
                Modifier::Bare
            };
            let j5: usize = if has_mod {
                j4 + 2
            } else {
                j4 + 1
            };
            let name: StringOrNumber;
            let nk: usize;
            let gname_some = gname_opt.is_some();
            match gname_opt {
                Option::Some(nm) => {
                    name = StringOrNumber::Str(nm);
                    nk = next_key;
                },
                Option::None => {
                    if gpat_opt.is_some() {
                        name = StringOrNumber::Num(next_key);
                        nk = next_key + 1;
                    } else {
                        name = StringOrNumber::Str(Vec::new());
                        nk = next_key;
                    }
                },
            }
            let pattern: Vec<char> = if gname_some {
                match gpat_opt {
                    Option::Some(p) => p,
                    Option::None => default_pattern_exec(),
                }
            } else {
                match gpat_opt {
                    Option::Some(p) => p,
                    Option::None => Vec::new(),
                }
            };
            let key = Key { name, prefix, suffix, pattern, modifier };
            let ghost keyv = key@;
            let ghost litv: Seq<TokenView> = if path@.len() > 0 {
                seq![TokenView::Literal(path@)]
            } else {
                Seq::empty()
            };
            match parse_toks_exec(t, j5, nk, Vec::new()) {
                Option::None => Option::None,
                Option::Some(rest) => {
                    let ghost restv = rest.deep_view();
                    let mut out: Vec<Token> = Vec::new();
                    if path.len() > 0 {
                        out.push(Token::Literal(path));
                    }
                    out.push(Token::Param(key));
                    let mut r2 = rest;
                    out.append(&mut r2);
                    proof {
                        assert(out.deep_view() =~= litv.push(TokenView::Param(keyv)) + restv);
                    }
                    Option::Some(out)
                },
            }
        } else {
            Option::None
        }
    } else {
        Option::None
    }
}

/// The tokens of a schema string, or nothing when it is malformed.
pub open spec fn parse_spec(s: Seq<char>) -> Option<Seq<TokenView>> {
    match lex_spec(s, 0) {
        Option::None => Option::None,
        Option::Some(t) => parse_toks(t, 0, 0, Seq::empty()),
    }
}

/// Lex and parse a schema string into tokens.
pub fn parse(schema: &str) -> (r: Result<Vec<Token>, crate::RegistryError>)
    ensures
        match r {
            Result::Ok(v) => parse_spec(schema@) == Option::Some(v.deep_view()),
            Result::Err(e) => parse_spec(schema@) is None && e
                == crate::RegistryError::SchemaSyntax,
        },
{
    let chars = crate::text::str_chars(schema);
    match lex_exec(&chars, 0) {
        Option::None => Result::Err(crate::RegistryError::SchemaSyntax),
        Option::Some(toks) => {
            match parse_toks_exec(&toks, 0, 0, Vec::new()) {
                Option::None => Result::Err(crate::RegistryError::SchemaSyntax),
                Option::Some(v) => Result::Ok(v),
            }
        },
    }
}

} // verus!

verus! {

// ---------------------------------------------------------------------------
// Compiling tokens to a regex source
// ---------------------------------------------------------------------------

/// Characters that must be escaped when they stand for themselves in a regex.
pub open spec fn needs_escape(c: char) -> bool {
    c == '.' || c == '+' || c == '*' || c == '?' || c == '=' || c == '^' || c == '!' || c == ':'
        || c == '$' || c == '{' || c == '}' || c == '(' || c == ')' || c == '[' || c == ']'
        || c == '|' || c == '/' || c == '\\'
}

/// A character written so that it stands for itself in a regex.
pub open spec fn escape_char(c: char) -> Seq<char> {
    if needs_escape(c) {
        seq!['\\', c]
    } else {
        seq![c]
    }
}

/// `s` written so that it stands for itself in a regex, from position `i`.
pub open spec fn escape_from(s: Seq<char>, i: int) -> Seq<char>
    decreases s.len() - i,
    when 0 <= i <= s.len()
{
    if i >= s.len() {
        Seq::empty()
    } else {
        escape_char(s[i]) + escape_from(s, i + 1)
    }
}

/// The regex escaping of a whole string.
pub open spec fn escape_string_spec(s: Seq<char>) -> Seq<char> {
    escape_from(s, 0)
}

fn needs_escape_exec(c: char) -> (r: bool)
    ensures
        r == needs_escape(c),
{
    c == '.' || c == '+' || c == '*' || c == '?' || c == '=' || c == '^' || c == '!' || c == ':'
        || c == '$' || c == '{' || c == '}' || c == '(' || c == ')' || c == '[' || c == ']'
        || c == '|' || c == '/' || c == '\\'
}

fn escape_from_exec(s: &Vec<char>, i: usize) -> (r: Vec<char>)
    requires
        i <= s@.len(),
    ensures
        r@ == escape_from(s@, i as int),
    decreases s@.len() - i,
{
    if i >= s.len() {
        Vec::new()
    } else {
        let c = s[i];
        let rest = escape_from_exec(s, i + 1);
        let mut out: Vec<char> = Vec::new();
        if needs_escape_exec(c) {
            out.push('\\');
        }
        out.push(c);
        let mut r2 = rest;
        out.append(&mut r2);
        proof {
            assert(out@ =~= escape_char(s@[i as int]) + escape_from(s@, i + 1));
        }
        out
    }
}

/// Escape a string for literal use in a regex.
pub fn escape_string(s: &Vec<char>) -> (r: Vec<char>)
    ensures
        r@ == escape_string_spec(s@),
{
    escape_from_exec(s, 0)
}

/// The modifier written as it appears in a regex.
pub open spec fn modifier_str(m: Modifier) -> Seq<char> {
    match m {
        Modifier::Bare => Seq::empty(),
        Modifier::Opt => seq!['?'],
        Modifier::OneOrMore => seq!['+'],
        Modifier::ZeroOrMore => seq!['*'],
    }
}

fn modifier_str_exec(m: Modifier) -> (r: Vec<char>)
    ensures
        r@ == modifier_str(m),
{
    let mut out: Vec<char> = Vec::new();
    match m {
        Modifier::Bare => {},
        Modifier::Opt => out.push('?'),
        Modifier::OneOrMore => out.push('+'),
        Modifier::ZeroOrMore => out.push('*'),
    }
    proof {
        assert(out@ =~= modifier_str(m));
    }
    out
}

/// The regex fragment one token contributes. A literal is escaped text. A
/// parameter with a pattern contributes one capture group, wrapped and
/// repeated according to its prefix, suffix and modifier; one without a
/// pattern contributes only its grouped prefix and suffix.
pub open spec fn token_source(tok: TokenView) -> Seq<char> {
    match tok {
        TokenView::Literal(s) => escape_string_spec(s),
        TokenView::Param(k) => {
            let pre = escape_string_spec(k.prefix);
            let suf = escape_string_spec(k.suffix);
            if k.pattern.len() > 0 {
                if k.prefix.len() > 0 || k.suffix.len() > 0 {
                    if k.modifier == Modifier::OneOrMore || k.modifier == Modifier::ZeroOrMore {
                        let outer_mod: Seq<char> = if k.modifier == Modifier::ZeroOrMore {
                            seq!['?']
                        } else {
                            Seq::empty()
                        };
                        seq!['(', '?', ':'] + pre + seq!['(', '(', '?', ':'] + k.pattern + seq![')', '(', '?', ':'] + suf + pre + seq!['(', '?', ':'] + k.pattern + seq![')', ')', '*', ')'] + suf + seq![')'] + outer_mod
                    } else {
                        seq!['(', '?', ':'] + pre + seq!['('] + k.pattern + seq![')'] + suf + seq![')'] + modifier_str(k.modifier)
                    }
                } else {
                    if k.modifier == Modifier::OneOrMore || k.modifier == Modifier::ZeroOrMore {
                        seq!['(', '(', '?', ':'] + k.pattern + seq![')'] + modifier_str(k.modifier) + seq![')']
                    } else {
                        seq!['('] + k.pattern + seq![')'] + modifier_str(k.modifier)
                    }
                }
            } else {
                seq!['(', '?', ':'] + pre + suf + seq![')'] + modifier_str(k.modifier)
            }
        },
    }
}

/// Build the regex fragment for one token.
#[verifier::rlimit(100)]
pub fn token_source_exec(tok: &Token) -> (r: Vec<char>)
    ensures
        r@ == token_source(tok@),
{
    match tok {
        Token::Literal(s) => escape_string(s),
        Token::Param(k) => {
            let pre = escape_string(&k.prefix);
            let suf = escape_string(&k.suffix);
            let mut out: Vec<char> = Vec::new();
            if k.pattern.len() > 0 {
                if k.prefix.len() > 0 || k.suffix.len() > 0 {
                    if k.modifier == Modifier::OneOrMore || k.modifier == Modifier::ZeroOrMore {
                        out.push('(');
                        out.push('?');
                        out.push(':');
                        extend_chars(&mut out, &pre);
                        out.push('(');
                        out.push('(');
                        out.push('?');
                        out.push(':');
                        extend_chars(&mut out, &k.pattern);
                        out.push(')');
                        out.push('(');
                        out.push('?');
                        out.push(':');
                        extend_chars(&mut out, &suf);
                        extend_chars(&mut out, &pre);
                        out.push('(');
                        out.push('?');
                        out.push(':');
                        extend_chars(&mut out, &k.pattern);
                        out.push(')');
                        out.push(')');
                        out.push('*');
                        out.push(')');
                        extend_chars(&mut out, &suf);
                        out.push(')');
                        if k.modifier == Modifier::ZeroOrMore {
                            out.push('?');
                        }
                        proof {
                            assert(out@ =~= token_source(tok@));
                        }
                    } else {
                        out.push('(');
                        out.push('?');
                        out.push(':');
                        extend_chars(&mut out, &pre);
                        out.push('(');
                        extend_chars(&mut out, &k.pattern);
                        out.push(')');
                        extend_chars(&mut out, &suf);
                        out.push(')');
                        let ms = modifier_str_exec(k.modifier);
                        extend_chars(&mut out, &ms);
                        proof {
                            assert(out@ =~= token_source(tok@));
                        }
                    }
                } else {
                    if k.modifier == Modifier::OneOrMore || k.modifier == Modifier::ZeroOrMore {
                        out.push('(');
                        out.push('(');
                        out.push('?');
                        out.push(':');
                        extend_chars(&mut out, &k.pattern);
                        out.push(')');
                        let ms = modifier_str_exec(k.modifier);
                        extend_chars(&mut out, &ms);
                        out.push(')');
                        proof {
                            assert(out@ =~= token_source(tok@));
                        }
                    } else {
                        out.push('(');
                        extend_chars(&mut out, &k.pattern);
                        out.push(')');
                        let ms = modifier_str_exec(k.modifier);
                        extend_chars(&mut out, &ms);
                        proof {
                            assert(out@ =~= token_source(tok@));
                        }
                    }
                }
            } else {
                out.push('(');
                out.push('?');
                out.push(':');
                extend_chars(&mut out, &pre);
                extend_chars(&mut out, &suf);
                out.push(')');
                let ms = modifier_str_exec(k.modifier);
                extend_chars(&mut out, &ms);
                proof {
                    assert(out@ =~= token_source(tok@));
                }
            }
            out
        },
    }
}

/// The concatenated regex fragments of the tokens from `i` onward.
pub open spec fn tokens_source_from(toks: Seq<TokenView>, i: int) -> Seq<char>
    decreases toks.len() - i,
    when 0 <= i <= toks.len()
{
    if i >= toks.len() {
        Seq::empty()
    } else {
        token_source(toks[i]) + tokens_source_from(toks, i + 1)
    }
}

/// The full anchored regex source for a token sequence: anchored at the
/// start, ending with an optional trailing delimiter before the anchor.
pub open spec fn regex_source_spec(toks: Seq<TokenView>) -> Seq<char> {
    seq!['^'] + tokens_source_from(toks, 0) + seq!['[', '\\', '/', '#', '\\', '?', ']', '?', '$']
}

fn tokens_source_from_exec(toks: &Vec<Token>, i: usize) -> (r: Vec<char>)
    requires
        i <= toks@.len(),
    ensures
        r@ == tokens_source_from(toks.deep_view(), i as int),
    decreases toks@.len() - i,
{
    if i >= toks.len() {
        Vec::new()
    } else {
        let mut out = token_source_exec(&toks[i]);
        let mut rest = tokens_source_from_exec(toks, i + 1);
        out.append(&mut rest);
        proof {
            assert(toks.deep_view()[i as int] == toks@[i as int]@);
        }
        out
    }
}

/// Build the full anchored regex source for a token sequence.
pub fn regex_source(toks: &Vec<Token>) -> (r: Vec<char>)
    ensures
        r@ == regex_source_spec(toks.deep_view()),
{
    let mut out: Vec<char> = Vec::new();
    out.push('^');
    let mut mid = tokens_source_from_exec(toks, 0);
    out.append(&mut mid);
    out.push('[');
    out.push('\\');
    out.push('/');
    out.push('#');
    out.push('\\');
    out.push('?');
    out.push(']');
    out.push('?');
    out.push('$');
    proof {
        assert(out@ =~= regex_source_spec(toks.deep_view()));
    }
    out
}

/// The keys that contribute capture groups, from `i` onward: every parameter
/// token with a non-empty pattern, in order.
pub open spec fn keys_from(toks: Seq<TokenView>, i: int) -> Seq<KeyView>
    decreases toks.len() - i,
    when 0 <= i <= toks.len()
{
    if i >= toks.len() {
        Seq::empty()
    } else {
        match toks[i] {
            TokenView::Param(k) => if k.pattern.len() > 0 {
                seq![k] + keys_from(toks, i + 1)
            } else {
                keys_from(toks, i + 1)
            },
            _ => keys_from(toks, i + 1),
        }
    }
}

/// The capture-group keys of a token sequence.
pub open spec fn keys_of(toks: Seq<TokenView>) -> Seq<KeyView> {
    keys_from(toks, 0)
}

/// The views of a key vector.
pub open spec fn keys_view(v: Seq<Key>) -> Seq<KeyView> {
    Seq::new(v.len(), |i: int| v[i]@)
}

fn keys_from_exec(toks: &Vec<Token>, i: usize) -> (r: Vec<Key>)
    requires
        i <= toks@.len(),
    ensures
        keys_view(r@) == keys_from(toks.deep_view(), i as int),
    decreases toks@.len() - i,
{
    if i >= toks.len() {
        let r: Vec<Key> = Vec::new();
        proof {
            assert(keys_view(r@) =~= Seq::<KeyView>::empty());
        }
        r
    } else {
        let rest = keys_from_exec(toks, i + 1);
        let push_key: Option<Key> = match &toks[i] {
            Token::Param(k) => {
                if k.pattern.len() > 0 {
                    Option::Some(k.duplicate())
                } else {
                    Option::None
                }
            },
            _ => Option::None,
        };
        proof {
            assert(toks.deep_view()[i as int] == toks@[i as int]@);
        }
        match push_key {
            Option::Some(k) => {
                let ghost kv = k@;
                let mut out: Vec<Key> = Vec::new();
                out.push(k);
                let mut r2 = rest;
                out.append(&mut r2);
                proof {
                    assert(keys_view(out@) =~= seq![kv] + keys_from(toks.deep_view(), i + 1));
                }
                out
            },
            Option::None => rest,
        }
    }
}

/// The capture-group keys of a token vector.
pub fn collect_keys(toks: &Vec<Token>) -> (r: Vec<Key>)
    ensures
        keys_view(r@) == keys_of(toks.deep_view()),
{
    keys_from_exec(toks, 0)
}

} // verus!

verus! {

// ---------------------------------------------------------------------------
// Match results
// ---------------------------------------------------------------------------

/// The spec-level shape of a match result: parameter names paired with
/// captured values, in token order.
pub type ParamsView = Seq<(StringOrNumberView, StringOrVecView)>;

/// The views of a parameter vector.
pub open spec fn params_view(v: Seq<(StringOrNumber, StringOrVec)>) -> ParamsView {
    Seq::new(v.len(), |i: int| (v[i].0@, v[i].1@))
}

/// An ordered mapping from parameter name to captured value.
pub struct MatchResult {
    pub params: Vec<(StringOrNumber, StringOrVec)>,
}

impl View for MatchResult {
    type V = ParamsView;

    open spec fn view(&self) -> ParamsView {
        params_view(self.params@)
    }
}

/// The value bound to `name`, looking from the front.
pub open spec fn lookup_param(ps: ParamsView, name: StringOrNumberView) -> Option<StringOrVecView>
    decreases ps.len(),
{
    if ps.len() == 0 {
        Option::None
    } else if ps[0].0 == name {
        Option::Some(ps[0].1)
    } else {
        lookup_param(ps.drop_first(), name)
    }
}

/// `ps` with `name` bound to `val`: the first binding of `name` is replaced,
/// or the pair is appended when none exists.
pub open spec fn insert_param(ps: ParamsView, name: StringOrNumberView, val: StringOrVecView)
    -> ParamsView
    decreases ps.len(),
{
    if ps.len() == 0 {
        seq![(name, val)]
    } else if ps[0].0 == name {
        seq![(name, val)] + ps.drop_first()
    } else {
        seq![ps[0]] + insert_param(ps.drop_first(), name, val)
    }
}

fn get_from(params: &Vec<(StringOrNumber, StringOrVec)>, name: &StringOrNumber, i: usize) -> (r:
    Option<StringOrVec>)
    requires
        i <= params@.len(),
    ensures
        opt_value_view(r) == lookup_param(params_view(params@).skip(i as int), name@),
    decreases params@.len() - i,
{
    let ghost ps = params_view(params@).skip(i as int);
    if i >= params.len() {
        proof {
            assert(ps.len() == 0);
        }
        Option::None
    } else {
        proof {
            assert(ps[0] == (params@[i as int].0@, params@[i as int].1@));
            assert(ps.drop_first() =~= params_view(params@).skip(i + 1));
        }
        if params[i].0.same(name) {
            Option::Some(params[i].1.duplicate())
        } else {
            get_from(params, name, i + 1)
        }
    }
}

/// The view of an optional captured value.
pub open spec fn opt_value_view(o: Option<StringOrVec>) -> Option<StringOrVecView> {
    match o {
        Option::Some(v) => Option::Some(v@),
        Option::None => Option::None,
    }
}

fn copy_params_from(params: &Vec<(StringOrNumber, StringOrVec)>, i: usize) -> (r: Vec<
    (StringOrNumber, StringOrVec),
>)
    requires
        i <= params@.len(),
    ensures
        params_view(r@) == params_view(params@).skip(i as int),
    decreases params@.len() - i,
{
    if i >= params.len() {
        let r: Vec<(StringOrNumber, StringOrVec)> = Vec::new();
        proof {
            assert(params_view(r@) =~= params_view(params@).skip(i as int));
        }
        r
    } else {
        let rest = copy_params_from(params, i + 1);
        let ghost restv = rest@;
        let mut out: Vec<(StringOrNumber, StringOrVec)> = Vec::new();
        out.push((params[i].0.duplicate(), params[i].1.duplicate()));
        let mut r2 = rest;
        out.append(&mut r2);
        proof {
            assert(params_view(restv).len() == restv.len());
            assert(params_view(params@).skip(i + 1).len() == params@.len() - i - 1);
            assert(restv.len() == params@.len() - i - 1);
            assert(out@.len() == 1 + restv.len());
            assert forall|x: int| 0 <= x < out@.len() implies params_view(out@)[x] == params_view(
                params@,
            ).skip(i as int)[x] by {
                assert(params_view(out@)[x] == (out@[x].0@, out@[x].1@));
                if x == 0 {
                    assert(params_view(params@).skip(i as int)[0] == params_view(params@)[
                        i as int
                    ]);
                } else {
                    assert(out@[x] == restv[x - 1]);
                    assert(params_view(restv)[x - 1] == (restv[x - 1].0@, restv[x - 1].1@));
                    assert(params_view(restv)[x - 1] == params_view(params@).skip(i + 1)[x - 1]);
                    assert(params_view(params@).skip(i + 1)[x - 1] == params_view(params@)[i + x]);
                    assert(params_view(params@).skip(i as int)[x] == params_view(params@)[i + x]);
                }
            }
            assert(params_view(out@) =~= params_view(params@).skip(i as int));
        }
        out
    }
}

fn insert_from(params: &Vec<(StringOrNumber, StringOrVec)>, i: usize, name: &StringOrNumber,
    value: &StringOrVec) -> (r: Vec<(StringOrNumber, StringOrVec)>)
    requires
        i <= params@.len(),
    ensures
        params_view(r@) == insert_param(params_view(params@).skip(i as int), name@, value@),
    decreases params@.len() - i,
{
    let ghost ps = params_view(params@).skip(i as int);
    if i >= params.len() {
        let mut out: Vec<(StringOrNumber, StringOrVec)> = Vec::new();
        out.push((name.duplicate(), value.duplicate()));
        proof {
            assert(params_view(out@) =~= seq![(name@, value@)]);
        }
        out
    } else {
        proof {
            assert(ps[0] == (params@[i as int].0@, params@[i as int].1@));
            assert(ps.drop_first() =~= params_view(params@).skip(i + 1));
        }
        if params[i].0.same(name) {
            let rest = copy_params_from(params, i + 1);
            let mut out: Vec<(StringOrNumber, StringOrVec)> = Vec::new();
            out.push((name.duplicate(), value.duplicate()));
            let mut r2 = rest;
            out.append(&mut r2);
            proof {
                assert(params_view(out@) =~= seq![(name@, value@)] + params_view(params@).skip(
                    i + 1,
                ));
            }
            out
        } else {
            let rest = insert_from(params, i + 1, name, value);
            let mut out: Vec<(StringOrNumber, StringOrVec)> = Vec::new();
            out.push((params[i].0.duplicate(), params[i].1.duplicate()));
            let mut r2 = rest;
            out.append(&mut r2);
            proof {
                assert(params_view(out@) =~= seq![ps[0]] + insert_param(
                    params_view(params@).skip(i + 1),
                    name@,
                    value@,
                ));
            }
            out
        }
    }
}

impl MatchResult {
    /// An empty match result.
    pub fn new_empty() -> (r: MatchResult)
        ensures
            r@ == Seq::<(StringOrNumberView, StringOrVecView)>::empty(),
    {
        let r = MatchResult { params: Vec::new() };
        proof {
            assert(r@ =~= Seq::<(StringOrNumberView, StringOrVecView)>::empty());
        }
        r
    }

    /// The value bound to `name`, if any.
    pub fn get(&self, name: &StringOrNumber) -> (r: Option<StringOrVec>)
        ensures
            opt_value_view(r) == lookup_param(self@, name@),
    {
        proof {
            assert(params_view(self.params@).skip(0) =~= self@);
        }
        get_from(&self.params, name, 0)
    }

    /// A copy of this match result with `name` bound to `value`.
    pub fn with_insert(&self, name: &StringOrNumber, value: &StringOrVec) -> (r: MatchResult)
        ensures
            r@ == insert_param(self@, name@, value@),
    {
        proof {
            assert(params_view(self.params@).skip(0) =~= self@);
        }
        MatchResult { params: insert_from(&self.params, 0, name, value) }
    }
}

// ---------------------------------------------------------------------------
// Splitting repeated captures and rendering values
// ---------------------------------------------------------------------------

/// Split `s` from `i` on, on every occurrence of `sep`, with `cur` the piece
/// collected so far.
pub open spec fn split_from(s: Seq<char>, i: int, cur: Seq<char>, sep: Seq<char>) -> Seq<Seq<char>>
    decreases s.len() - i,
    when 0 <= i <= s.len() && sep.len() > 0
{
    if s.len() - i < sep.len() {
        seq![cur + s.skip(i)]
    } else if s.subrange(i, i + sep.len()) == sep {
        seq![cur] + split_from(s, i + sep.len(), Seq::empty(), sep)
    } else {
        split_from(s, i + 1, cur.push(s[i]), sep)
    }
}

/// `s` split on every occurrence of `sep`.
pub open spec fn split_by(s: Seq<char>, sep: Seq<char>) -> Seq<Seq<char>> {
    split_from(s, 0, Seq::empty(), sep)
}

fn split_from_exec(s: &Vec<char>, i: usize, cur: Vec<char>, sep: &Vec<char>) -> (r: Vec<Vec<char>>)
    requires
        i <= s@.len(),
        sep@.len() > 0,
    ensures
        seqs_view(r@) == split_from(s@, i as int, cur@, sep@),
    decreases s@.len() - i,
{
    if s.len() - i < sep.len() {
        let mut piece = cur;
        let tail = subrange_chars(s, i, s.len());
        extend_chars(&mut piece, &tail);
        let ghost pv = piece@;
        let mut out: Vec<Vec<char>> = Vec::new();
        out.push(piece);
        proof {
            assert(s@.subrange(i as int, s@.len() as int) =~= s@.skip(i as int));
            assert(seqs_view(out@) =~= seq![pv]);
        }
        out
    } else if crate::template::matches_at(s, sep, i) {
        let ghost cv = cur@;
        let rest = split_from_exec(s, i + sep.len(), Vec::new(), sep);
        let mut out: Vec<Vec<char>> = Vec::new();
        out.push(cur);
        let mut r2 = rest;
        out.append(&mut r2);
        proof {
            assert(seqs_view(out@) =~= seq![cv] + split_from(
                s@,
                i + sep@.len(),
                Seq::<char>::empty(),
                sep@,
            ));
        }
        out
    } else {
        let mut cur2 = cur;
        cur2.push(s[i]);
        split_from_exec(s, i + 1, cur2, sep)
    }
}

/// Split a captured slice on every occurrence of `sep`.
pub fn split_chars(s: &Vec<char>, sep: &Vec<char>) -> (r: Vec<Vec<char>>)
    requires
        sep@.len() > 0,
    ensures
        seqs_view(r@) == split_by(s@, sep@),
{
    split_from_exec(s, 0, Vec::new(), sep)
}

/// The separator a repeated parameter's capture is split on: its prefix and
/// suffix joined, or the path delimiter when both are empty.
pub open spec fn key_separator(k: KeyView) -> Seq<char> {
    if k.prefix.len() + k.suffix.len() > 0 {
        k.prefix + k.suffix
    } else {
        seq!['/']
    }
}

fn key_separator_exec(k: &Key) -> (r: Vec<char>)
    ensures
        r@ == key_separator(k@),
        r@.len() > 0,
{
    if k.prefix.len() > 0 || k.suffix.len() > 0 {
        let mut out = copy_chars(&k.prefix);
        extend_chars(&mut out, &k.suffix);
        out
    } else {
        let mut out: Vec<char> = Vec::new();
        out.push('/');
        proof {
            assert(out@ =~= seq!['/']);
        }
        out
    }
}

/// Whether a modifier repeats its parameter.
pub open spec fn is_repeated(m: Modifier) -> bool {
    m == Modifier::OneOrMore || m == Modifier::ZeroOrMore
}

/// The captured value a single item stands for under `k`: a one-element list
/// for a repeated parameter, the bare string otherwise.
pub open spec fn of_item_spec(item: Seq<char>, k: KeyView) -> StringOrVecView {
    if is_repeated(k.modifier) {
        StringOrVecView::Multi(seq![item])
    } else {
        StringOrVecView::Single(item)
    }
}

impl StringOrVec {
    /// Wrap one item as the captured value of `key`.
    pub fn of_item(item: &Vec<char>, key: &Key) -> (r: StringOrVec)
        ensures
            r@ == of_item_spec(item@, key@),
    {
        match key.modifier {
            Modifier::OneOrMore | Modifier::ZeroOrMore => {
                let mut parts: Vec<Vec<char>> = Vec::new();
                parts.push(copy_chars(item));
                let r = StringOrVec::Multi(parts);
                proof {
                    assert(seqs_view(r->Multi_0@) =~= seq![item@]);
                }
                r
            },
            _ => StringOrVec::Single(copy_chars(item)),
        }
    }
}

/// Each part wrapped in `pre` and `suf` and all concatenated, from `i` on.
pub open spec fn concat_parts(parts: Seq<Seq<char>>, i: int, pre: Seq<char>, suf: Seq<char>)
    -> Seq<char>
    decreases parts.len() - i,
    when 0 <= i <= parts.len()
{
    if i >= parts.len() {
        Seq::empty()
    } else {
        pre + parts[i] + suf + concat_parts(parts, i + 1, pre, suf)
    }
}

/// How a captured value renders as path text: a single capture is written as
/// it stands; a list writes each element wrapped in the key's prefix and
/// suffix, when a key is given.
pub open spec fn rendered_value(v: StringOrVecView, k: Option<KeyView>) -> Seq<char> {
    match v {
        StringOrVecView::Single(s) => s,
        StringOrVecView::Multi(parts) => {
            let pre = match k {
                Option::Some(kk) => kk.prefix,
                Option::None => Seq::empty(),
            };
            let suf = match k {
                Option::Some(kk) => kk.suffix,
                Option::None => Seq::empty(),
            };
            concat_parts(parts, 0, pre, suf)
        },
    }
}

fn concat_parts_exec(parts: &Vec<Vec<char>>, i: usize, pre: &Vec<char>, suf: &Vec<char>) -> (r:
    Vec<char>)
    requires
        i <= parts@.len(),
    ensures
        r@ == concat_parts(seqs_view(parts@), i as int, pre@, suf@),
    decreases parts@.len() - i,
{
    if i >= parts.len() {
        Vec::new()
    } else {
        let rest = concat_parts_exec(parts, i + 1, pre, suf);
        let mut out = copy_chars(pre);
        extend_chars(&mut out, &parts[i]);
        extend_chars(&mut out, suf);
        extend_chars(&mut out, &rest);
        proof {
            assert(seqs_view(parts@)[i as int] == parts@[i as int]@);
            assert(out@ =~= pre@ + parts@[i as int]@ + suf@ + concat_parts(
                seqs_view(parts@),
                i + 1,
                pre@,
                suf@,
            ));
        }
        out
    }
}

impl StringOrVec {
    /// Render this captured value as path text.
    pub fn rendered(&self, key: Option<&Key>) -> (r: Vec<char>)
        ensures
            r@ == rendered_value(
                self@,
                match key {
                    Option::Some(k) => Option::Some(k@),
                    Option::None => Option::None,
                },
            ),
    {
        match self {
            StringOrVec::Single(s) => copy_chars(s),
            StringOrVec::Multi(parts) => {
                let empty1: Vec<char> = Vec::new();
                let empty2: Vec<char> = Vec::new();
                match key {
                    Option::Some(k) => concat_parts_exec(parts, 0, &k.prefix, &k.suffix),
                    Option::None => concat_parts_exec(parts, 0, &empty1, &empty2),
                }
            },
        }
    }
}

} // verus!

verus! {

// ---------------------------------------------------------------------------
// Matching
// ---------------------------------------------------------------------------

/// Pair the capture groups with the keys, from key `i` onward: a missing
/// group binds nothing; a repeated key's capture is split on its separator.
pub open spec fn assemble_params(
    keys: Seq<KeyView>,
    caps: Seq<Option<Seq<char>>>,
    i: int,
) -> ParamsView
    decreases keys.len() - i,
    when 0 <= i <= keys.len()
{
    if i >= keys.len() {
        Seq::empty()
    } else {
        let cap: Option<Seq<char>> = if i < caps.len() {
            caps[i]
        } else {
            Option::None
        };
        match cap {
            Option::None => assemble_params(keys, caps, i + 1),
            Option::Some(val) => {
                let v: StringOrVecView = if is_repeated(keys[i].modifier) {
                    StringOrVecView::Multi(split_by(val, key_separator(keys[i])))
                } else {
                    StringOrVecView::Single(val)
                };
                seq![(keys[i].name, v)] + assemble_params(keys, caps, i + 1)
            },
        }
    }
}

/// What matching a token sequence against `path` yields: the assembled
/// parameters of the capture groups, or nothing when the regex does not
/// match.
pub open spec fn match_tokens(tokens: Seq<TokenView>, path: Seq<char>) -> Option<ParamsView> {
    match crate::regex_bridge::regex_captures(regex_source_spec(tokens), path) {
        Option::None => Option::None,
        Option::Some(caps) => Option::Some(assemble_params(keys_of(tokens), caps, 0)),
    }
}

fn assemble_params_exec(keys: &Vec<Key>, caps: &Vec<Option<Vec<char>>>, i: usize) -> (r: Vec<
    (StringOrNumber, StringOrVec),
>)
    requires
        i <= keys@.len(),
    ensures
        params_view(r@) == assemble_params(
            keys_view(keys@),
            crate::regex_bridge::caps_seq_view(caps@),
            i as int,
        ),
    decreases keys@.len() - i,
{
    let ghost kv = keys_view(keys@);
    let ghost cv = crate::regex_bridge::caps_seq_view(caps@);
    if i >= keys.len() {
        let r: Vec<(StringOrNumber, StringOrVec)> = Vec::new();
        proof {
            assert(params_view(r@) =~= assemble_params(kv, cv, i as int));
        }
        r
    } else {
        let cap: Option<Vec<char>> = if i < caps.len() {
            match &caps[i] {
                Option::Some(c) => Option::Some(copy_chars(c)),
                Option::None => Option::None,
            }
        } else {
            Option::None
        };
        proof {
            assert(kv[i as int] == keys@[i as int]@);
            if i < caps@.len() {
                assert(cv[i as int] == crate::regex_bridge::opt_chars_view(caps@[i as int]));
            }
        }
        match cap {
            Option::None => assemble_params_exec(keys, caps, i + 1),
            Option::Some(val) => {
                let k = &keys[i];
                let value: StringOrVec = match k.modifier {
                    Modifier::OneOrMore | Modifier::ZeroOrMore => {
                        let sep = key_separator_exec(k);
                        StringOrVec::Multi(split_chars(&val, &sep))
                    },
                    _ => StringOrVec::Single(val),
                };
                let ghost valv = value@;
                let rest = assemble_params_exec(keys, caps, i + 1);
                let mut out: Vec<(StringOrNumber, StringOrVec)> = Vec::new();
                out.push((k.name.duplicate(), value));
                let mut r2 = rest;
                out.append(&mut r2);
                proof {
                    assert(params_view(out@) =~= seq![(kv[i as int].name, valv)]
                        + assemble_params(kv, cv, i + 1));
                }
                out
            },
        }
    }
}

/// A compiled matcher for a token sequence.
pub struct Matcher {
    pub regex: crate::regex_bridge::CompiledRegex,
    pub keys: Vec<Key>,
    pub tokens: Ghost<Seq<TokenView>>,
}

impl Matcher {
    /// The tokens this matcher was built over.
    pub open spec fn tokens_spec(&self) -> Seq<TokenView> {
        self.tokens@
    }

    /// The matcher's regex and keys agree with its tokens.
    pub open spec fn wf(&self) -> bool {
        self.regex.pattern() == regex_source_spec(self.tokens@) && keys_view(self.keys@)
            == keys_of(self.tokens@)
    }

    /// Compile a matcher over the first `count` tokens.
    pub fn for_prefix(toks: &Vec<Token>, count: usize) -> (r: Result<
        Matcher,
        crate::RegistryError,
    >)
        requires
            count <= toks@.len(),
        ensures
            match r {
                Result::Ok(m) => m.wf() && m.tokens_spec() == toks.deep_view().take(count as int)
                    && crate::regex_bridge::regex_valid(
                    regex_source_spec(toks.deep_view().take(count as int)),
                ),
                Result::Err(e) => e == crate::RegistryError::RegexCompile
                    && !crate::regex_bridge::regex_valid(
                    regex_source_spec(toks.deep_view().take(count as int)),
                ),
            },
    {
        let prefix = copy_tokens_prefix(toks, count);
        let source = regex_source(&prefix);
        let keys = collect_keys(&prefix);
        match crate::regex_bridge::CompiledRegex::new(&source) {
            Option::Some(regex) => Result::Ok(
                Matcher { regex, keys, tokens: Ghost(prefix.deep_view()) },
            ),
            Option::None => Result::Err(crate::RegistryError::RegexCompile),
        }
    }

    /// Match a path, yielding the captured parameters.
    pub fn matches(&self, path: &Vec<char>) -> (r: Option<MatchResult>)
        requires
            self.wf(),
        ensures
            match r {
                Option::Some(m) => match_tokens(self.tokens@, path@) == Option::Some(m@),
                Option::None => match_tokens(self.tokens@, path@) is None,
            },
    {
        match self.regex.captures(path) {
            Option::None => Option::None,
            Option::Some(caps) => {
                let params = assemble_params_exec(&self.keys, &caps, 0);
                Option::Some(MatchResult { params })
            },
        }
    }
}

/// Copy the first `count` tokens.
pub fn copy_tokens_prefix(toks: &Vec<Token>, count: usize) -> (r: Vec<Token>)
    requires
        count <= toks@.len(),
    ensures
        r.deep_view() == toks.deep_view().take(count as int),
{
    let mut out: Vec<Token> = Vec::new();
    let mut i: usize = 0;
    while i < count
        invariant
            count <= toks@.len(),
            i <= count,
            out@.len() == i,
            forall|x: int| 0 <= x < i ==> out@[x]@ == toks@[x]@,
        decreases count - i,
    {
        let copied: Token = match &toks[i] {
            Token::Literal(s) => Token::Literal(copy_chars(s)),
            Token::Param(k) => Token::Param(k.duplicate()),
        };
        out.push(copied);
        i += 1;
    }
    proof {
        assert(out.deep_view() =~= toks.deep_view().take(count as int));
    }
    out
}

// ---------------------------------------------------------------------------
// Back-compilation: parameters to a path
// ---------------------------------------------------------------------------

/// The path text one token contributes under `params`: literal text stands
/// as it is; a parameter writes its looked-up value wrapped in its prefix
/// and suffix, or nothing when the value is missing.
pub open spec fn token_path(tok: TokenView, params: ParamsView) -> Seq<char> {
    match tok {
        TokenView::Literal(s) => s,
        TokenView::Param(k) => match lookup_param(params, k.name) {
            Option::None => Seq::empty(),
            Option::Some(StringOrVecView::Single(s)) => k.prefix + s + k.suffix,
            Option::Some(StringOrVecView::Multi(parts)) => concat_parts(
                parts,
                0,
                k.prefix,
                k.suffix,
            ),
        },
    }
}

/// The path the tokens from `i` onward compile to under `params`.
pub open spec fn to_path_from(toks: Seq<TokenView>, params: ParamsView, i: int) -> Seq<char>
    decreases toks.len() - i,
    when 0 <= i <= toks.len()
{
    if i >= toks.len() {
        Seq::empty()
    } else {
        token_path(toks[i], params) + to_path_from(toks, params, i + 1)
    }
}

/// The path a token sequence compiles to under `params`.
pub open spec fn to_path_spec(toks: Seq<TokenView>, params: ParamsView) -> Seq<char> {
    to_path_from(toks, params, 0)
}

fn token_path_exec(tok: &Token, params: &MatchResult) -> (r: Vec<char>)
    ensures
        r@ == token_path(tok@, params@),
{
    match tok {
        Token::Literal(s) => copy_chars(s),
        Token::Param(k) => {
            match params.get(&k.name) {
                Option::None => Vec::new(),
                Option::Some(v) => {
                    match v {
                        StringOrVec::Single(s) => {
                            let mut out = copy_chars(&k.prefix);
                            extend_chars(&mut out, &s);
                            extend_chars(&mut out, &k.suffix);
                            proof {
                                assert(out@ =~= token_path(tok@, params@));
                            }
                            out
                        },
                        StringOrVec::Multi(parts) => {
                            concat_parts_exec(&parts, 0, &k.prefix, &k.suffix)
                        },
                    }
                },
            }
        },
    }
}

fn to_path_from_exec(toks: &Vec<Token>, params: &MatchResult, i: usize) -> (r: Vec<char>)
    requires
        i <= toks@.len(),
    ensures
        r@ == to_path_from(toks.deep_view(), params@, i as int),
    decreases toks@.len() - i,
{
    if i >= toks.len() {
        Vec::new()
    } else {
        let mut out = token_path_exec(&toks[i], params);
        let mut rest = to_path_from_exec(toks, params, i + 1);
        out.append(&mut rest);
        proof {
            assert(toks.deep_view()[i as int] == toks@[i as int]@);
        }
        out
    }
}

/// Compiles parameters back into a path over a fixed token sequence.
pub struct Compiler {
    pub tokens: Vec<Token>,
}

impl Compiler {
    /// A compiler over the first `count` tokens.
    pub fn for_prefix(toks: &Vec<Token>, count: usize) -> (r: Compiler)
        requires
            count <= toks@.len(),
        ensures
            r.tokens.deep_view() == toks.deep_view().take(count as int),
    {
        Compiler { tokens: copy_tokens_prefix(toks, count) }
    }

    /// Reassemble a path from parameters: literal text verbatim, each
    /// parameter's value wrapped in its prefix and suffix, missing
    /// parameters rendering as empty.
    pub fn to_path(&self, params: &MatchResult) -> (r: Vec<char>)
        ensures
            r@ == to_path_spec(self.tokens.deep_view(), params@),
    {
        to_path_from_exec(&self.tokens, params, 0)
    }
}

} // verus!
