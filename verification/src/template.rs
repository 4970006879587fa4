//! Template substitution: literal find-and-replace of `${name}` and
//! `${{name}}` placeholders, and enumeration of the variable names a
//! template references.

use vstd::prelude::*;
use crate::text::{chars_string, str_chars, extend_chars, subrange_chars};

verus! {

/// Left-to-right, non-overlapping replacement of every occurrence of `pat`
/// by `to`, scanning onward after each replacement.
pub open spec fn replace_all_spec(s: Seq<char>, pat: Seq<char>, to: Seq<char>) -> Seq<char>
    decreases s.len(),
    when pat.len() > 0
{
    if s.len() < pat.len() {
        s
    } else if s.subrange(0, pat.len() as int) == pat {
        to + replace_all_spec(s.skip(pat.len() as int), pat, to)
    } else {
        seq![s[0]] + replace_all_spec(s.drop_first(), pat, to)
    }
}

/// `pat` occurs in `s` starting at `i`.
pub open spec fn occurs_at(s: Seq<char>, pat: Seq<char>, i: int) -> bool {
    0 <= i && i + pat.len() <= s.len() && s.subrange(i, i + pat.len() as int) == pat
}

/// Does `pat` occur in `s` at position `i`?
pub fn matches_at(s: &Vec<char>, pat: &Vec<char>, i: usize) -> (r: bool)
    requires
        i <= s@.len(),
    ensures
        r == occurs_at(s@, pat@, i as int),
{
    if pat.len() > s.len() - i {
        return false;
    }
    let m = pat.len();
    let slen = s.len();
    let mut j: usize = 0;
    while j < m
        invariant
            i + m <= slen,
            slen == s@.len(),
            m == pat@.len(),
            j <= m,
            forall|x: int| 0 <= x < j ==> s@[i + x] == pat@[x],
        decreases m - j,
    {
        if s[i + j] != pat[j] {
            assert(s@.subrange(i as int, i + m)[j as int] != pat@[j as int]);
            return false;
        }
        j += 1;
    }
    proof {
        assert(s@.subrange(i as int, i + m) =~= pat@);
    }
    true
}

/// Replace every occurrence of `pat` in `s` by `to`.
pub fn replace_all(s: &Vec<char>, pat: &Vec<char>, to: &Vec<char>) -> (r: Vec<char>)
    requires
        pat@.len() > 0,
    ensures
        r@ == replace_all_spec(s@, pat@, to@),
{
    let n = s.len();
    let mut r: Vec<char> = Vec::new();
    proof {
        assert(s@.skip(0) =~= s@);
        assert(Seq::<char>::empty() + replace_all_spec(s@, pat@, to@) =~= replace_all_spec(
            s@,
            pat@,
            to@,
        ));
    }
    let mut i: usize = 0;
    while i < n
        invariant
            n == s@.len(),
            pat@.len() > 0,
            i <= n,
            r@ + replace_all_spec(s@.skip(i as int), pat@, to@) == replace_all_spec(
                s@,
                pat@,
                to@,
            ),
        decreases n - i,
    {
        let ghost prev = r@;
        if matches_at(s, pat, i) {
            extend_chars(&mut r, to);
            proof {
                let rest = s@.skip(i as int);
                assert(rest.subrange(0, pat@.len() as int) =~= s@.subrange(
                    i as int,
                    i + pat@.len(),
                ));
                assert(rest.skip(pat@.len() as int) =~= s@.skip(i + pat@.len()));
                assert(replace_all_spec(rest, pat@, to@) == to@ + replace_all_spec(
                    s@.skip(i + pat@.len()),
                    pat@,
                    to@,
                ));
                assert((prev + to@) + replace_all_spec(s@.skip(i + pat@.len()), pat@, to@)
                    =~= prev + (to@ + replace_all_spec(s@.skip(i + pat@.len()), pat@, to@)));
            }
            i += pat.len();
        } else {
            r.push(s[i]);
            proof {
                let rest = s@.skip(i as int);
                assert(rest[0] == s@[i as int]);
                if rest.len() >= pat@.len() {
                    assert(rest.subrange(0, pat@.len() as int) =~= s@.subrange(
                        i as int,
                        i + pat@.len(),
                    ));
                }
                assert(rest.drop_first() =~= s@.skip(i + 1));
                assert(replace_all_spec(rest, pat@, to@) == seq![s@[i as int]]
                    + replace_all_spec(s@.skip(i + 1), pat@, to@));
                assert(prev.push(s@[i as int]) =~= prev + seq![s@[i as int]]);
                assert((prev + seq![s@[i as int]]) + replace_all_spec(s@.skip(i + 1), pat@, to@)
                    =~= prev + (seq![s@[i as int]] + replace_all_spec(s@.skip(i + 1), pat@, to@)));
            }
            i += 1;
        }
    }
    proof {
        assert(s@.skip(n as int) =~= Seq::<char>::empty());
        assert(replace_all_spec(Seq::<char>::empty(), pat@, to@) == Seq::<char>::empty());
        assert(r@ + Seq::<char>::empty() =~= r@);
    }
    r
}

/// The raw placeholder `${name}`.
pub open spec fn raw_placeholder(name: Seq<char>) -> Seq<char> {
    seq!['$', '{'] + name + seq!['}']
}

/// The percent-encoding placeholder `${{name}}`.
pub open spec fn encoded_placeholder(name: Seq<char>) -> Seq<char> {
    seq!['$', '{', '{'] + name + seq!['}', '}']
}

/// Build the raw placeholder for `name`.
pub fn raw_placeholder_exec(name: &Vec<char>) -> (r: Vec<char>)
    ensures
        r@ == raw_placeholder(name@),
{
    let mut r: Vec<char> = Vec::new();
    r.push('$');
    r.push('{');
    extend_chars(&mut r, name);
    r.push('}');
    proof {
        assert(r@ =~= raw_placeholder(name@));
    }
    r
}

/// Build the percent-encoding placeholder for `name`.
pub fn encoded_placeholder_exec(name: &Vec<char>) -> (r: Vec<char>)
    ensures
        r@ == encoded_placeholder(name@),
{
    let mut r: Vec<char> = Vec::new();
    r.push('$');
    r.push('{');
    r.push('{');
    extend_chars(&mut r, name);
    r.push('}');
    r.push('}');
    proof {
        assert(r@ =~= encoded_placeholder(name@));
    }
    r
}

/// Both placeholder forms of `name` replaced by `value` throughout `url`:
/// the raw form first, then the doubled form.
pub open spec fn substitute_spec(url: Seq<char>, name: Seq<char>, value: Seq<char>) -> Seq<char> {
    replace_all_spec(
        replace_all_spec(url, raw_placeholder(name), value),
        encoded_placeholder(name),
        value,
    )
}

/// Replace both placeholder forms of `name` in `url` by `value`.
pub fn substitute(url: &Vec<char>, name: &Vec<char>, value: &Vec<char>) -> (r: Vec<char>)
    ensures
        r@ == substitute_spec(url@, name@, value@),
{
    let p1 = raw_placeholder_exec(name);
    let p2 = encoded_placeholder_exec(name);
    let step = replace_all(url, &p1, value);
    replace_all(&step, &p2, value)
}

/// A word character as the replacement-variable pattern accepts it.
pub open spec fn is_word_char(c: char) -> bool {
    ('a' <= c && c <= 'z') || ('A' <= c && c <= 'Z') || ('0' <= c && c <= '9') || c == '_'
}

/// Length of the run of word characters starting at `i`.
pub open spec fn word_run_len(s: Seq<char>, i: int) -> int
    decreases s.len() - i,
    when 0 <= i <= s.len()
{
    if i < s.len() && is_word_char(s[i]) {
        1 + word_run_len(s, i + 1)
    } else {
        0
    }
}

pub proof fn lemma_word_run_len_bounds(s: Seq<char>, i: int)
    requires
        0 <= i <= s.len(),
    ensures
        0 <= word_run_len(s, i) <= s.len() - i,
    decreases s.len() - i,
{
    if i < s.len() && is_word_char(s[i]) {
        lemma_word_run_len_bounds(s, i + 1);
    }
}

/// The replacement-variable pattern matched at position `i`: an optional
/// extra opening brace, a non-empty run of word characters, and an optional
/// extra closing brace taken greedily. Yields the name and the position just
/// after the match.
pub open spec fn placeholder_at(s: Seq<char>, i: int) -> Option<(Seq<char>, int)> {
    if i + 2 <= s.len() && s[i] == '$' && s[i + 1] == '{' {
        let j: int = if i + 2 < s.len() && s[i + 2] == '{' {
            i + 3
        } else {
            i + 2
        };
        let n = word_run_len(s, j);
        if n == 0 {
            Option::None
        } else {
            let k = j + n;
            let name = s.subrange(j, k);
            if k + 1 < s.len() && s[k] == '}' && s[k + 1] == '}' {
                Option::Some((name, k + 2))
            } else if k < s.len() && s[k] == '}' {
                Option::Some((name, k + 1))
            } else {
                Option::None
            }
        }
    } else {
        Option::None
    }
}

pub proof fn lemma_placeholder_at_bounds(s: Seq<char>, i: int)
    requires
        0 <= i <= s.len(),
        placeholder_at(s, i) is Some,
    ensures
        i < placeholder_at(s, i)->Some_0.1 <= s.len(),
{
    if i + 2 <= s.len() && s[i] == '$' && s[i + 1] == '{' {
        let j: int = if i + 2 < s.len() && s[i + 2] == '{' {
            i + 3
        } else {
            i + 2
        };
        lemma_word_run_len_bounds(s, j);
    }
}

/// Every variable name the template references through either placeholder
/// form, scanning left to right and continuing after each match.
pub open spec fn replacement_vars_spec(s: Seq<char>, i: int) -> Seq<Seq<char>>
    decreases s.len() - i,
    when 0 <= i <= s.len()
    via replacement_vars_spec_dec
{
    if i >= s.len() {
        Seq::empty()
    } else {
        match placeholder_at(s, i) {
            Option::Some((name, end)) => seq![name] + replacement_vars_spec(s, end),
            Option::None => replacement_vars_spec(s, i + 1),
        }
    }
}

#[via_fn]
proof fn replacement_vars_spec_dec(s: Seq<char>, i: int) {
    if 0 <= i <= s.len() && i < s.len() {
        if placeholder_at(s, i) is Some {
            lemma_placeholder_at_bounds(s, i);
        }
    }
}

fn is_word_char_exec(c: char) -> (r: bool)
    ensures
        r == is_word_char(c),
{
    ('a' <= c && c <= 'z') || ('A' <= c && c <= 'Z') || ('0' <= c && c <= '9') || c == '_'
}

fn word_run_len_exec(s: &Vec<char>, i: usize) -> (r: usize)
    requires
        i <= s@.len(),
    ensures
        r as int == word_run_len(s@, i as int),
        i + r <= s@.len(),
{
    let n = s.len();
    let mut j: usize = i;
    while j < n && is_word_char_exec(s[j])
        invariant
            i <= j <= n,
            n == s@.len(),
            word_run_len(s@, i as int) == (j - i) + word_run_len(s@, j as int),
            forall|x: int| i <= x < j ==> is_word_char(s@[x]),
        decreases n - j,
    {
        j += 1;
    }
    proof {
        lemma_word_run_len_bounds(s@, j as int);
    }
    j - i
}

fn placeholder_at_exec(s: &Vec<char>, i: usize) -> (r: Option<(Vec<char>, usize)>)
    requires
        i <= s@.len(),
    ensures
        match r {
            Option::Some((name, end)) => placeholder_at(s@, i as int) == Option::Some(
                (name@, end as int),
            ) && i < end <= s@.len(),
            Option::None => placeholder_at(s@, i as int) is None,
        },
{
    let n = s.len();
    if !(i < n && i + 1 < n && s[i] == '$' && s[i + 1] == '{') {
        return Option::None;
    }
    let j: usize = if i + 2 < n && s[i + 2] == '{' {
        i + 3
    } else {
        i + 2
    };
    let run = word_run_len_exec(s, j);
    if run == 0 {
        return Option::None;
    }
    let k = j + run;
    if k < n && s[k] == '}' && k + 1 < n && s[k + 1] == '}' {
        let name = subrange_chars(s, j, k);
        Option::Some((name, k + 2))
    } else if k < n && s[k] == '}' {
        let name = subrange_chars(s, j, k);
        Option::Some((name, k + 1))
    } else {
        Option::None
    }
}

/// The names referenced by a templated URL through `${name}` or
/// `${{name}}`, in order of first appearance of each occurrence.
pub fn parse_replacement_variables(s: &str) -> (r: Vec<String>)
    ensures
        r.deep_view() == replacement_vars_spec(s@, 0),
{
    let chars = str_chars(s);
    let n = chars.len();
    let mut r: Vec<String> = Vec::new();
    let mut i: usize = 0;
    while i < n
        invariant
            n == chars@.len(),
            chars@ == s@,
            i <= n,
            r.deep_view() + replacement_vars_spec(s@, i as int) == replacement_vars_spec(s@, 0),
        decreases n - i,
    {
        let ghost prev = r.deep_view();
        match placeholder_at_exec(&chars, i) {
            Option::Some((name, end)) => {
                let ghost namev = name@;
                r.push(chars_string(&name));
                proof {
                    assert(r.deep_view() =~= prev.push(namev));
                    assert(replacement_vars_spec(s@, i as int) == seq![namev]
                        + replacement_vars_spec(s@, end as int));
                    assert(prev.push(namev) + replacement_vars_spec(s@, end as int)
                        =~= prev + (seq![namev] + replacement_vars_spec(s@, end as int)));
                }
                i = end;
            },
            Option::None => {
                i += 1;
            },
        }
    }
    proof {
        assert(replacement_vars_spec(s@, n as int) =~= Seq::<Seq<char>>::empty());
        assert(r.deep_view() + Seq::<Seq<char>>::empty() =~= r.deep_view());
    }
    r
}

} // verus!
