//! The URL operations that the client leaves to the `url` crate (through
//! `reqwest::Url`), each on the serialization of a URL.
use vstd::prelude::*;
use crate::form::{lacks, query_encoded};
use crate::json_body::pair_views;
use crate::path::string_views;

verus! {

/// The view of an optional string.
pub open spec fn opt_string_view(o: Option<String>) -> Option<Seq<char>> {
    match o {
        Some(s) => Some(s@),
        None => None,
    }
}

/// The serialization of the URL `base` after its path was extended by
/// `segments`, one path segment each (`None` when `base` is no URL or one
/// that cannot take path segments).
pub uninterp spec fn url_with_path_segments(base: Seq<char>, segments: Seq<Seq<char>>) -> Option<
    Seq<char>,
>;

/// The serialization of the URL `url` after `pairs` were appended to its
/// query, form-urlencoded (`None` when `url` is no URL).
pub uninterp spec fn url_with_query_pairs(url: Seq<char>, pairs: Seq<(Seq<char>, Seq<char>)>) -> Option<
    Seq<char>,
>;

/// Parses `base` with `reqwest::Url::parse` and extends its path with
/// `PathSegmentsMut::extend`, which percent-encodes each segment, skips `.`
/// and `..` and puts a slash before each segment (none before the first one
/// when the path is `/`). The contract claims only that the result is the
/// named function of the two arguments: `None` when parsing fails or the URL
/// cannot be a base (`path_segments_mut` refuses it), else the new
/// serialization.
#[verifier::external_body]
pub(crate) fn extend_url_path(base: &str, segments: &Vec<String>) -> (url: Option<String>)
    ensures
        opt_string_view(url) == url_with_path_segments(base@, string_views(segments@)),
{
    let mut parsed = reqwest::Url::parse(base).ok()?;
    parsed.path_segments_mut().ok()?.extend(segments.iter());
    Some(String::from(parsed))
}

/// Parses `url` with `reqwest::Url::parse` and appends `pairs` to its query
/// with `query_pairs_mut().extend_pairs`. The contract claims that the
/// result is the named function of the two arguments (`None` when parsing
/// fails), and what the `url` and `form_urlencoded` sources show of it:
/// `query_pairs_mut` takes the fragment off and starts a query with `?` when
/// there is none; each pair is written after a `&` when the query is not
/// empty, as `name=value` with both UTF-8 encoded and `byte_serialize`d
/// (`*-._`, digits and letters unchanged, space as `+`, any other byte as
/// upper-case `%XY`); the fragment, if any, then follows after `#`. A URL
/// text without `#` parses to a URL without fragment. How the URL before
/// the query is serialized is left unsaid.
#[verifier::external_body]
pub(crate) fn append_url_query(url: &str, pairs: &Vec<(String, String)>) -> (res: Option<String>)
    ensures
        opt_string_view(res) == url_with_query_pairs(url@, pair_views(pairs@)),
        pairs@.len() > 0 ==> (res matches Some(u) ==> exists|pre: Seq<char>, post: Seq<char>|
            #![trigger pre + query_encoded(pair_views(pairs@)) + post]
            {
                &&& u@ == pre + query_encoded(pair_views(pairs@)) + post
                &&& pre.len() > 0
                &&& (pre.last() == '?' || pre.last() == '&')
                &&& (post.len() == 0 || post[0] == '#')
                &&& (lacks(url@, '#') ==> post.len() == 0)
            }),
{
    let mut parsed = reqwest::Url::parse(url).ok()?;
    parsed.query_pairs_mut().extend_pairs(pairs.iter());
    Some(String::from(parsed))
}

} // verus!
