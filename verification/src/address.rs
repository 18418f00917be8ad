//! URLs: what parsing tells of one, and which kinds of URL can be crawled.
use url::Url;
use vstd::prelude::*;

use crate::text::{opt_text, same_text};

verus! {

/// What the queue reads of a parsed URL.
#[derive(Debug)]
pub struct UrlParts {
    /// The scheme, in lower case and without the colon.
    pub scheme: String,
    /// The host, if the URL has one.
    pub host: Option<String>,
    /// The URL in its normal form, without its fragment.
    pub text: String,
}

/// The contents of a `UrlParts`.
pub struct UrlView {
    pub scheme: Seq<char>,
    pub host: Option<Seq<char>>,
    pub text: Seq<char>,
}

impl View for UrlParts {
    type V = UrlView;

    open spec fn view(&self) -> UrlView {
        UrlView { scheme: self.scheme@, host: opt_text(self.host), text: self.text@ }
    }
}

/// The contents of an optional `UrlParts`.
pub open spec fn opt_parts(parts: Option<UrlParts>) -> Option<UrlView> {
    match parts {
        Some(p) => Some(p@),
        None => None,
    }
}

/// What `Url::parse` makes of a text: nothing, where it is no absolute URL.
pub uninterp spec fn parsed_url(text: Seq<char>) -> Option<UrlView>;

/// Calls `Url::parse`, reads `Url::scheme` and `Url::host_str` of the result,
/// drops its fragment by `Url::set_fragment(None)` and writes it out by
/// `Url::to_string`. Claimed: what comes back is a function of the text alone;
/// the written URL begins with the scheme and a colon, and holds no `#`, which
/// stands only before a fragment and is percent-encoded everywhere else.
#[verifier::external_body]
pub(crate) fn url_parse(text: &str) -> (parts: Option<UrlParts>)
    ensures
        opt_parts(parts) == parsed_url(text@),
        parts matches Some(p) ==> {
            &&& !p@.text.contains('#')
            &&& p@.text.len() > p@.scheme.len()
            &&& p@.text.take(p@.scheme.len() as int) == p@.scheme
            &&& p@.text[p@.scheme.len() as int] == ':'
        },
{
    let mut parsed = Url::parse(text).ok()?;
    let scheme = parsed.scheme().to_string();
    let host = parsed.host_str().map(|host| host.to_string());
    parsed.set_fragment(None);
    Some(UrlParts { scheme, host, text: parsed.to_string() })
}

/// Whether URLs of this scheme can be crawled.
pub open spec fn handled_scheme(scheme: Seq<char>) -> bool {
    ||| scheme == "http"@
    ||| scheme == "https"@
    ||| scheme == "file"@
    ||| scheme == "api"@
}

/// Check that we can handle this scheme.
pub fn can_handle_scheme(scheme: &String) -> (handled: bool)
    ensures
        handled == handled_scheme(scheme@),
{
    same_text(scheme, "http") || same_text(scheme, "https") || same_text(scheme, "file")
        || same_text(scheme, "api")
}

/// The view of a parsed URL has its parts as they are.
pub proof fn law_url_view(url: UrlParts)
    ensures
        url@.scheme == url.scheme@ && url@.text == url.text@,
        url@.host is Some <==> url.host is Some,
        url.host matches Some(text) ==> url@.host == Some(text@),
{
}

} // verus!
