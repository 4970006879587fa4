//! The bridge to the URL parser. Parsing, origins, joins and path edits are
//! outside calls whose results are named by uninterpreted functions of the
//! input strings, so the completion logic is verified relative to them.

use vstd::prelude::*;

verus! {

/// The serialization of `s` parsed as an absolute URL; nothing when `s` does
/// not parse.
pub uninterp spec fn url_parse(s: Seq<char>) -> Option<Seq<char>>;

/// The ASCII serialization of the origin of `s`, for parseable `s`.
pub uninterp spec fn url_origin_of(s: Seq<char>) -> Seq<char>;

/// The serialization of `s` from the start of its path onward, for
/// parseable `s`.
pub uninterp spec fn url_path_onward(s: Seq<char>) -> Seq<char>;

/// Whether parsing `s` fails for being a relative URL without a base.
pub uninterp spec fn url_relative_err(s: Seq<char>) -> bool;

/// The serialization of `rel` joined against `base`; nothing when `base`
/// does not parse or the join fails.
pub uninterp spec fn url_join_of(base: Seq<char>, rel: Seq<char>) -> Option<Seq<char>>;

/// The serialization of `s` with its path replaced by `path`; nothing when
/// `s` does not parse.
pub uninterp spec fn url_with_path(s: Seq<char>, path: Seq<char>) -> Option<Seq<char>>;

/// The view of an optional string.
pub open spec fn opt_string_view(o: Option<String>) -> Option<Seq<char>> {
    match o {
        Option::Some(s) => Option::Some(s@),
        Option::None => Option::None,
    }
}

/// Relies on url::Url::parse and url::Url::as_str: the serialization of the
/// string parsed as an absolute URL.
#[verifier::external_body]
pub fn parse_url_string(s: &str) -> (r: Option<String>)
    ensures
        opt_string_view(r) == url_parse(s@),
{
    match url::Url::parse(s) {
        Ok(u) => Some(u.as_str().to_string()),
        Err(_) => None,
    }
}

/// Relies on url::Url::origin and url::Origin::ascii_serialization: the
/// ASCII origin of a parseable URL string.
#[verifier::external_body]
pub fn url_origin_ascii(s: &str) -> (r: Option<String>)
    ensures
        r is Some <==> url_parse(s@) is Some,
        r matches Option::Some(o) ==> o@ == url_origin_of(s@),
{
    match url::Url::parse(s) {
        Ok(u) => Some(u.origin().ascii_serialization()),
        Err(_) => None,
    }
}

/// Relies on url::Url's indexing by url::Position: the serialization from
/// the start of the path onward.
#[verifier::external_body]
pub fn url_path_and_after(s: &str) -> (r: Option<String>)
    ensures
        r is Some <==> url_parse(s@) is Some,
        r matches Option::Some(p) ==> p@ == url_path_onward(s@),
{
    match url::Url::parse(s) {
        Ok(u) => Some(u[url::Position::BeforePath..].to_string()),
        Err(_) => None,
    }
}

/// Relies on url::Url::parse's error kinds: whether parsing fails with a
/// relative URL that lacks a base.
#[verifier::external_body]
pub fn url_is_relative_err(s: &str) -> (r: bool)
    ensures
        r == url_relative_err(s@),
{
    matches!(url::Url::parse(s), Err(url::ParseError::RelativeUrlWithoutBase))
}

/// Relies on url::Url::join: the serialization of `rel` resolved against
/// `base`.
#[verifier::external_body]
pub fn url_join(base: &str, rel: &str) -> (r: Option<String>)
    ensures
        opt_string_view(r) == url_join_of(base@, rel@),
{
    match url::Url::parse(base) {
        Ok(b) => match b.join(rel) {
            Ok(u) => Some(u.as_str().to_string()),
            Err(_) => None,
        },
        Err(_) => None,
    }
}

/// Relies on url::Url::set_path: the serialization of `s` with its path
/// replaced by `path`.
#[verifier::external_body]
pub fn url_set_path(s: &str, path: &str) -> (r: Option<String>)
    ensures
        opt_string_view(r) == url_with_path(s@, path@),
{
    match url::Url::parse(s) {
        Ok(mut u) => {
            u.set_path(path);
            Some(u.as_str().to_string())
        },
        Err(_) => None,
    }
}

/// Parse a URL, falling back to a join against `base` when the string is
/// relative. Other parse failures yield nothing.
pub open spec fn parse_with_base_spec(url: Seq<char>, base: Seq<char>) -> Option<Seq<char>> {
    if url_parse(url) is Some {
        url_parse(url)
    } else if url_relative_err(url) {
        url_join_of(base, url)
    } else {
        Option::None
    }
}

/// Attempt to parse a URL along with a base, where the base is used when the
/// URL is relative.
pub fn parse_url_with_base(url: &str, base: &str) -> (r: Option<String>)
    ensures
        opt_string_view(r) == parse_with_base_spec(url@, base@),
{
    match parse_url_string(url) {
        Option::Some(u) => Option::Some(u),
        Option::None => {
            if url_is_relative_err(url) {
                url_join(base, url)
            } else {
                Option::None
            }
        },
    }
}

} // verus!
