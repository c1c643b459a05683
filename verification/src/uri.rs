use crate::text::owned;
use crate::value::UriValue;
use vstd::prelude::*;
use vstd::string::{StrSliceExecFns, StringExecFns};

verus! {

/// Whether the `http` crate's parser takes a text for a URI.
pub uninterp spec fn uri_accepted(text: Seq<char>) -> bool;

/// The path of the URI that a text parses to, where the URI has a path and
/// query part at all.
pub uninterp spec fn uri_path_part(text: Seq<char>) -> Option<Seq<char>>;

/// The text of the URI that comes of the URI of `text` when its path and
/// query part is replaced by what `path_and_query` parses to; `None` where
/// that part does not parse or the parts make no URI.
pub uninterp spec fn uri_with_path_part(text: Seq<char>, path_and_query: Seq<char>) -> Option<
    Seq<char>,
>;

/// Parses the text with `<http::Uri as FromStr>::from_str` and says whether
/// that gave a URI: the answer named by [`uri_accepted`].
#[verifier::external_body]
pub(crate) fn uri_parses(s: &str) -> (b: bool)
    ensures
        b == uri_accepted(s@),
{
    s.parse::<http::Uri>().is_ok()
}

/// Parses the text, takes the URI apart with `http::uri::Parts::from` and
/// reads `PathAndQuery::path` of its path and query part, if it has one:
/// the result named by [`uri_path_part`].
#[verifier::external_body]
pub(crate) fn uri_path(text: &str) -> (r: Option<String>)
    requires
        uri_accepted(text@),
    ensures
        match r {
            Some(path) => uri_path_part(text@) == Some(path@),
            None => uri_path_part(text@) is None,
        },
{
    let uri: http::Uri = text.parse().unwrap();
    let parts = http::uri::Parts::from(uri);
    parts.path_and_query.map(|path_and_query| path_and_query.path().to_owned())
}

/// Parses the text, takes the URI apart with `http::uri::Parts::from`, puts
/// what `path_and_query` parses to in place of its path and query part,
/// puts the parts together with `http::Uri::from_parts` and formats the
/// URI: the result named by [`uri_with_path_part`].
#[verifier::external_body]
pub(crate) fn uri_with_path(text: &str, path_and_query: &str) -> (r: Option<String>)
    requires
        uri_accepted(text@),
    ensures
        match r {
            Some(uri) => uri_with_path_part(text@, path_and_query@) == Some(uri@),
            None => uri_with_path_part(text@, path_and_query@) is None,
        },
{
    let uri: http::Uri = text.parse().unwrap();
    let mut parts = http::uri::Parts::from(uri);
    parts.path_and_query = Some(path_and_query.parse().ok()?);
    Some(http::Uri::from_parts(parts).ok()?.to_string())
}

/// A path with a suffix behind it and exactly one slash between them,
/// whether the path ends in one, the suffix starts with one, both or
/// neither.
pub open spec fn joined_path(path: Seq<char>, suffix: Seq<char>) -> Seq<char> {
    let path_slash = path.len() > 0 && path.last() == '/';
    let suffix_slash = suffix.len() > 0 && suffix[0] == '/';
    if !path_slash && !suffix_slash {
        path + seq!['/'] + suffix
    } else if path_slash && suffix_slash {
        path.drop_last() + suffix
    } else {
        path + suffix
    }
}

/// The URI that comes of putting `suffix` behind the path of `base`. Where
/// `base` has no path and query part, `suffix` becomes that part.
pub open spec fn joined_uri(base: Seq<char>, suffix: Seq<char>) -> Option<Seq<char>> {
    match uri_path_part(base) {
        Some(path) => uri_with_path_part(base, joined_path(path, suffix)),
        None => uri_with_path_part(base, suffix),
    }
}

/// Puts `suffix` behind `path` with one slash between them.
pub fn join_path(path: &str, suffix: &str) -> (r: String)
    ensures
        r@ == joined_path(path@, suffix@),
{
    let path_len = path.unicode_len();
    let suffix_len = suffix.unicode_len();
    let path_ends_with_slash = path_len > 0 && path.get_char(path_len - 1) == '/';
    let suffix_starts_with_slash = suffix_len > 0 && suffix.get_char(0) == '/';
    if !path_ends_with_slash && !suffix_starts_with_slash {
        let mut joined = owned(path);
        joined.append("/");
        joined.append(suffix);
        proof {
            reveal_strlit("/");
            assert(joined@ =~= path@ + seq!['/'] + suffix@);
        }
        joined
    } else if path_ends_with_slash && suffix_starts_with_slash {
        let mut joined = owned(path.substring_char(0, path_len - 1));
        joined.append(suffix);
        proof {
            assert(joined@ =~= path@.drop_last() + suffix@);
        }
        joined
    } else {
        let mut joined = owned(path);
        joined.append(suffix);
        joined
    }
}

/// Puts `relative_suffix` behind the path of `uri`.
pub fn uri_join_relative(uri: &UriValue, relative_suffix: &str) -> (r: Option<String>)
    ensures
        match r {
            Some(text) => joined_uri(uri@, relative_suffix@) == Some(text@),
            None => joined_uri(uri@, relative_suffix@) is None,
        },
{
    let base = uri.val();
    match uri_path(base) {
        Some(path) => {
            let new_path = join_path(path.as_str(), relative_suffix);
            uri_with_path(base, new_path.as_str())
        },
        None => uri_with_path(base, relative_suffix),
    }
}

} // verus!
