//! The orchestrator's address as a service configures it.
//!
//! A base URL is an `http` or `https` URL without a query whose path is
//! empty or ends with `/`, so that endpoints can be joined onto it.
use vstd::prelude::*;

use crate::text::{has_suffix, to_owned_text};
use crate::url_model::{
    is_web_scheme, url_join, url_parse, url_with_scheme, websocket_scheme, UrlParseError, UrlView,
    WebUrl,
};

verus! {

/// Why a URL is not a base URL.
#[derive(Clone, Debug, PartialEq, Eq)]
pub enum BaseUrlError {
    /// A base URL cannot have a query; the query is given
    QueryNotSupported(String),
    /// The path of a base URL must end with a trailing slash; the path is given
    InvalidPath(String),
}

/// Why a text is not an orchestrator base URL.
#[derive(Clone, Debug, PartialEq, Eq)]
pub enum UrlError {
    /// The text is no URL
    Parse(UrlParseError),
    /// The scheme is neither `http` nor `https`; the scheme is given
    InvalidScheme(String),
    /// The URL is not a base URL
    NotABaseUrl(BaseUrlError),
}

/// A path that a base URL can have: empty, or ending with `/`.
pub open spec fn base_path(path: Seq<char>) -> bool {
    path.len() == 0 || has_suffix(path, "/"@)
}

/// What the validation of a parsed URL says of it.
pub open spec fn base_url_check(u: UrlView, r: Result<(), UrlError>) -> bool {
    if !base_path(u.path) {
        r matches Err(UrlError::NotABaseUrl(BaseUrlError::InvalidPath(p))) && p@ == u.path
    } else if u.query is Some {
        r matches Err(UrlError::NotABaseUrl(BaseUrlError::QueryNotSupported(q))) && u.query == Some(q@)
    } else if !is_web_scheme(u.scheme) {
        r matches Err(UrlError::InvalidScheme(s)) && s@ == u.scheme
    } else {
        r is Ok
    }
}

/// The URL is a base URL.
pub open spec fn is_base_url(u: UrlView) -> bool {
    base_path(u.path) && u.query is None && is_web_scheme(u.scheme)
}

/// The base URL of the orchestrator.
pub struct OrchestratorBaseUrl {
    url: WebUrl,
}

impl View for OrchestratorBaseUrl {
    type V = UrlView;

    closed spec fn view(&self) -> UrlView {
        self.url@
    }
}

impl OrchestratorBaseUrl {
    #[verifier::type_invariant]
    closed spec fn inv(self) -> bool {
        is_base_url(self.url@)
    }

    /// The URL.
    pub fn inner(&self) -> (r: &WebUrl)
        ensures
            r@ == self@,
            is_base_url(r@),
    {
        proof {
            use_type_invariant(self);
        }
        &self.url
    }

    /// The URL, taken out.
    pub fn into_inner(self) -> (r: WebUrl)
        ensures
            r@ == self@,
            is_base_url(r@),
    {
        proof {
            use_type_invariant(&self);
        }
        self.url
    }

    /// Checks the path, the query and the scheme of `url`, in this order.
    fn validate(url: &WebUrl) -> (r: Result<(), UrlError>)
        ensures
            base_url_check(url@, r),
            r is Ok <==> is_base_url(url@),
    {
        let path = url.path();
        let n = path.unicode_len();
        if n > 0 && path.get_char(n - 1) != '/' {
            assert(!has_suffix(path@, "/"@)) by {
                reveal_strlit("/");
                assert(path@.subrange(n - 1, n as int)[0] == path@[n - 1]);
            }
            return Err(UrlError::NotABaseUrl(BaseUrlError::InvalidPath(to_owned_text(path))));
        }
        assert(base_path(path@)) by {
            reveal_strlit("/");
            if n > 0 {
                assert(path@.subrange(n - 1, n as int) =~= "/"@);
            }
        }
        if let Some(query) = url.query() {
            return Err(UrlError::NotABaseUrl(BaseUrlError::QueryNotSupported(to_owned_text(query))));
        }
        let scheme = url.scheme();
        if crate::text::text_eq(scheme, "http") || crate::text::text_eq(scheme, "https") {
            Ok(())
        } else {
            Err(UrlError::InvalidScheme(to_owned_text(scheme)))
        }
    }

    /// A parsed URL as a base URL, if it is one.
    pub fn try_from(url: WebUrl) -> (r: Result<OrchestratorBaseUrl, UrlError>)
        ensures
            base_url_check(url@, match r {
                Ok(_) => Ok(()),
                Err(e) => Err(e),
            }),
            r matches Ok(b) ==> b@ == url@,
    {
        match OrchestratorBaseUrl::validate(&url) {
            Ok(()) => Ok(OrchestratorBaseUrl { url }),
            Err(e) => Err(e),
        }
    }

    /// Parses a base URL.
    pub fn from_str(text: &str) -> (r: Result<OrchestratorBaseUrl, UrlError>)
        ensures
            match url_parse(text@) {
                Err(m) => r matches Err(UrlError::Parse(e)) && e@ == m,
                Ok(u) => {
                    &&& base_url_check(u, match r {
                        Ok(_) => Ok(()),
                        Err(e) => Err(e),
                    })
                    &&& r matches Ok(b) ==> b@ == u
                },
            },
    {
        match WebUrl::parse(text) {
            Ok(url) => OrchestratorBaseUrl::try_from(url),
            Err(e) => Err(UrlError::Parse(e)),
        }
    }

    /// The text of the URL, as `Display` writes it.
    pub fn to_text(&self) -> (s: String)
        ensures
            s@ == self@.serialization,
    {
        to_owned_text(self.url.as_str())
    }

    /// The URL of the orchestrator's register endpoint: `register` joined
    /// onto the base URL, with the websocket counterpart of its scheme.
    pub fn register_endpoint(&self) -> (r: Result<WebUrl, UrlError>)
        ensures
            match url_join(self@, "register"@) {
                Err(m) => r matches Err(UrlError::Parse(e)) && e@ == m,
                Ok(j) => endpoint_outcome(j, r),
            },
    {
        match self.url.join("register") {
            Ok(joined) => websocket_endpoint(joined),
            Err(e) => Err(UrlError::Parse(e)),
        }
    }
}

/// The register endpoint made from the joined URL `j`.
pub open spec fn endpoint_outcome(j: UrlView, r: Result<WebUrl, UrlError>) -> bool {
    match websocket_scheme(j.scheme) {
        Some(ws) => r matches Ok(u) && u@ == url_with_scheme(j, ws) && u@.scheme == ws && u@.path == j.path
            && u@.query == j.query,
        None => r matches Err(UrlError::InvalidScheme(s)) && s@ == j.scheme,
    }
}

/// The websocket URL for an endpoint URL: `http` becomes `ws`, `https`
/// becomes `wss`, and any other scheme is refused.
pub fn websocket_endpoint(url: WebUrl) -> (r: Result<WebUrl, UrlError>)
    ensures
        endpoint_outcome(url@, r),
{
    match url.into_websocket() {
        Ok(u) => Ok(u),
        Err(scheme) => Err(UrlError::InvalidScheme(scheme)),
    }
}

/// The configuration for the orchestrator client.
pub struct OrchestratorConfig {
    /// The base url of the orchestrator
    pub url: OrchestratorBaseUrl,
}

} // verus!
