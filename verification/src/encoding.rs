//! Component percent-encoding: the ASCII controls plus a fixed set of
//! component-unsafe characters are written as `%XX`; everything else passes
//! through unchanged.

use vstd::prelude::*;

verus! {

/// An ASCII C0 control or delete.
pub open spec fn is_ascii_control(c: char) -> bool {
    (c as u32) < 0x20 || (c as u32) == 0x7f
}

/// The characters the component set percent-encodes: the ASCII controls plus
/// space and the listed punctuation.
pub open spec fn in_component_set(c: char) -> bool {
    is_ascii_control(c) || c == ' ' || c == '"' || c == '#' || c == '<' || c == '>' || c == '?'
        || c == '`' || c == '{' || c == '}' || c == '/' || c == ':' || c == ';' || c == '='
        || c == '@' || c == '[' || c == '\\' || c == ']' || c == '^' || c == '|' || c == '$'
        || c == '&' || c == '+' || c == ','
}

/// The uppercase hexadecimal digit for `n`.
pub open spec fn hex_digit_char(n: int) -> char {
    if n == 0 { '0' }
    else if n == 1 { '1' }
    else if n == 2 { '2' }
    else if n == 3 { '3' }
    else if n == 4 { '4' }
    else if n == 5 { '5' }
    else if n == 6 { '6' }
    else if n == 7 { '7' }
    else if n == 8 { '8' }
    else if n == 9 { '9' }
    else if n == 10 { 'A' }
    else if n == 11 { 'B' }
    else if n == 12 { 'C' }
    else if n == 13 { 'D' }
    else if n == 14 { 'E' }
    else { 'F' }
}

/// How one character is written: component-set characters become a percent
/// escape of their code, all others stand as themselves.
pub open spec fn encode_char(c: char) -> Seq<char> {
    if in_component_set(c) {
        seq!['%', hex_digit_char((c as u32) as int / 16), hex_digit_char((c as u32) as int % 16)]
    } else {
        seq![c]
    }
}

/// The component percent-encoding of a character sequence.
pub open spec fn percent_encode_spec(s: Seq<char>) -> Seq<char>
    decreases s.len(),
{
    if s.len() == 0 {
        Seq::empty()
    } else {
        encode_char(s[0]) + percent_encode_spec(s.drop_first())
    }
}

proof fn lemma_percent_encode_snoc(s: Seq<char>, c: char)
    ensures
        percent_encode_spec(s.push(c)) == percent_encode_spec(s) + encode_char(c),
    decreases s.len(),
{
    let sp = s.push(c);
    assert(sp.len() == s.len() + 1);
    if s.len() == 0 {
        assert(sp[0] == c);
        assert(sp.drop_first() =~= Seq::<char>::empty());
        assert(percent_encode_spec(sp) == encode_char(c) + percent_encode_spec(
            Seq::<char>::empty(),
        ));
        assert(encode_char(c) + Seq::<char>::empty() =~= encode_char(c));
        assert(Seq::<char>::empty() + encode_char(c) =~= encode_char(c));
    } else {
        assert(sp[0] == s[0]);
        assert(sp.drop_first() =~= s.drop_first().push(c));
        lemma_percent_encode_snoc(s.drop_first(), c);
        assert(percent_encode_spec(sp) == encode_char(s[0]) + (percent_encode_spec(s.drop_first())
            + encode_char(c)));
        assert(percent_encode_spec(s) == encode_char(s[0]) + percent_encode_spec(s.drop_first()));
        assert(encode_char(s[0]) + (percent_encode_spec(s.drop_first()) + encode_char(c)) =~= (
        encode_char(s[0]) + percent_encode_spec(s.drop_first())) + encode_char(c));
    }
}

fn hex_digit_exec(n: u32) -> (r: char)
    requires
        n < 16,
    ensures
        r == hex_digit_char(n as int),
{
    if n == 0 { '0' }
    else if n == 1 { '1' }
    else if n == 2 { '2' }
    else if n == 3 { '3' }
    else if n == 4 { '4' }
    else if n == 5 { '5' }
    else if n == 6 { '6' }
    else if n == 7 { '7' }
    else if n == 8 { '8' }
    else if n == 9 { '9' }
    else if n == 10 { 'A' }
    else if n == 11 { 'B' }
    else if n == 12 { 'C' }
    else if n == 13 { 'D' }
    else if n == 14 { 'E' }
    else { 'F' }
}

fn in_component_set_exec(c: char) -> (r: bool)
    ensures
        r == in_component_set(c),
{
    let code = c as u32;
    code < 0x20 || code == 0x7f || c == ' ' || c == '"' || c == '#' || c == '<' || c == '>'
        || c == '?' || c == '`' || c == '{' || c == '}' || c == '/' || c == ':' || c == ';'
        || c == '=' || c == '@' || c == '[' || c == '\\' || c == ']' || c == '^' || c == '|'
        || c == '$' || c == '&' || c == '+' || c == ','
}

/// Percent-encode a character sequence with the component set.
pub fn percent_encode_component(s: &Vec<char>) -> (r: Vec<char>)
    ensures
        r@ == percent_encode_spec(s@),
{
    let n = s.len();
    let mut r: Vec<char> = Vec::new();
    let mut i: usize = 0;
    while i < n
        invariant
            n == s.len(),
            i <= n,
            r@ == percent_encode_spec(s@.take(i as int)),
        decreases n - i,
    {
        let c = s[i];
        proof {
            assert(s@.take(i + 1) =~= s@.take(i as int).push(c));
            lemma_percent_encode_snoc(s@.take(i as int), c);
        }
        if in_component_set_exec(c) {
            let code = c as u32;
            assert(code < 0x80) by {
                assert(in_component_set(c));
            };
            r.push('%');
            r.push(hex_digit_exec(code / 16));
            r.push(hex_digit_exec(code % 16));
            proof {
                assert(r@ =~= percent_encode_spec(s@.take(i + 1)));
            }
        } else {
            r.push(c);
            proof {
                assert(r@ =~= percent_encode_spec(s@.take(i + 1)));
            }
        }
        i += 1;
    }
    proof {
        assert(s@.take(n as int) =~= s@);
    }
    r
}

} // verus!
