//! What the library takes on trust from the `url` crate: the `Url` type and
//! the few of its methods that the requests and the menus are built with.
//!
//! A `Url` is known to the proofs by the text it is written as: the crate
//! keeps that text and finds every part of the URL in it. What the crate's
//! parser makes of the text is not restated here: each result has a name,
//! and the contracts of the library speak of those names.

use url::Url;
use vstd::prelude::*;
use vstd::string::*;
use vstd::utf8::*;

verus! {

#[verifier::external_type_specification]
#[verifier::external_body]
pub struct ExUrl(url::Url);

/// The text that a URL is written as: what `Url::as_str` gives.
pub uninterp spec fn url_text(url: Url) -> Seq<char>;

/// The path segments of the URL written as `text`, as `Url::path_segments`
/// gives them: `None` for a URL that cannot be a base.
pub uninterp spec fn path_segments_of(text: Seq<char>) -> Option<Seq<Seq<char>>>;

/// The text of the URL written as `text` once `Url::set_path` has put `path`
/// in the place of its path.
pub uninterp spec fn text_with_path(text: Seq<char>, path: Seq<char>) -> Seq<char>;

/// The port of the URL written as `text`, as `Url::port_or_known_default`
/// gives it: the port that the text names, else the one that the crate knows
/// for the scheme, else none.
pub uninterp spec fn port_of(text: Seq<char>) -> Option<u16>;

/// `Url::port_or_known_default`.
pub assume_specification[ Url::port_or_known_default ](url: &Url) -> (port: Option<u16>)
    ensures
        port == port_of(url_text(*url)),
;

/// `Url::as_str`: the serialization that the URL holds.
pub assume_specification<'a>[ Url::as_str ](url: &'a Url) -> (s: &'a str)
    ensures
        s@ == url_text(*url),
;

/// `Clone::clone` of a `Url`, which the crate derives: a URL equal to the
/// first.
pub assume_specification[ <Url as Clone>::clone ](url: &Url) -> (copy: Url)
    ensures
        copy == *url,
;

/// `Url::set_path`: afterwards the URL is written as `text_with_path` says.
/// The method counts the bytes of the new text in a `u32` and panics when
/// they do not fit; each byte of `path` becomes at most three, after at most
/// four bytes more, so the `requires` keeps the sum in range.
pub assume_specification[ Url::set_path ](url: &mut Url, path: &str)
    requires
        encode_utf8(url_text(*old(url))).len() + 3 * path.spec_bytes().len() + 4 <= u32::MAX,
    ensures
        url_text(*final(url)) == text_with_path(url_text(*old(url)), path@),
;

/// `Url::path_segments`, with each segment copied into a `String`.
#[verifier::external_body]
pub(crate) fn url_path_segments(url: &Url) -> (segments: Option<Vec<String>>)
    ensures
        match segments {
            Some(list) => path_segments_of(url_text(*url)) == Some(list.deep_view()),
            None => path_segments_of(url_text(*url)) is None,
        },
{
    url.path_segments().map(|parts| parts.map(|part| part.to_string()).collect())
}

} // verus!
