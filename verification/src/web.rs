//! URL parsing through the `url` crate, reduced to the parts the library
//! reads: scheme, host, path, query and the serialized URL.

use vstd::prelude::*;

verus! {

broadcast use vstd::string::group_string_axioms;

/// The parts of a parsed URL: `(scheme, host, path, query, serialization)`.
pub type UrlView = (Seq<char>, Option<Seq<char>>, Seq<char>, Option<Seq<char>>, Seq<char>);

/// The parts of a parsed URL.
#[derive(Debug, Clone)]
pub struct UrlParts {
    /// `Url::scheme`.
    pub scheme: String,
    /// `Url::host_str`.
    pub host: Option<String>,
    /// `Url::path`.
    pub path: String,
    /// `Url::query`.
    pub query: Option<String>,
    /// `Url::as_str`: the whole URL as the parser serialized it.
    pub href: String,
}

/// The string of `o` as a value.
pub open spec fn opt_view(o: Option<String>) -> Option<Seq<char>> {
    match o {
        Some(s) => Some(s@),
        None => None,
    }
}

impl View for UrlParts {
    type V = UrlView;

    open spec fn view(&self) -> UrlView {
        (self.scheme@, opt_view(self.host), self.path@, opt_view(self.query), self.href@)
    }
}

/// What `url::Url::parse` makes of `s`: the parts of the URL, or the
/// text of its parse error. The WHATWG URL rules that decide it are not
/// restated here.
pub uninterp spec fn url_parse(s: Seq<char>) -> Result<UrlView, Seq<char>>;

/// Calls `url::Url::parse` and reads back scheme, host, path, query and
/// the serialized URL (or the error's message); the result is a function of the input
/// alone, named `url_parse`.
#[verifier::external_body]
pub(crate) fn parse_url(s: &str) -> (r: Result<UrlParts, String>)
    ensures
        match r {
            Ok(p) => url_parse(s@) == Ok::<UrlView, Seq<char>>(p@),
            Err(e) => url_parse(s@) == Err::<UrlView, Seq<char>>(e@),
        },
{
    match url::Url::parse(s) {
        Ok(u) => Ok(
            UrlParts {
                scheme: u.scheme().to_string(),
                host: u.host_str().map(|h| h.to_string()),
                path: u.path().to_string(),
                query: u.query().map(|q| q.to_string()),
                href: u.as_str().to_string(),
            },
        ),
        Err(e) => Err(e.to_string()),
    }
}

} // verus!
