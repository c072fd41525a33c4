//! URLs, parsed and resolved by the `url` crate.
//!
//! A [`WebUrl`] carries the parsed `url::Url` and the components this crate
//! reads from it: the serialization, the scheme, the path and the query. The
//! components are filled in where the `url` crate hands a value over, and
//! nowhere else.
use vstd::prelude::*;

use crate::text::{text_eq, to_owned_text};

verus! {

#[verifier::external_type_specification]
#[verifier::external_body]
pub struct ExParsedUrl(url::Url);

/// The components of a URL that this crate reads.
pub struct UrlView {
    /// The whole URL as text
    pub serialization: Seq<char>,
    /// The scheme, lower case, without the `:` delimiter
    pub scheme: Seq<char>,
    /// The path
    pub path: Seq<char>,
    /// The query, without the `?` delimiter
    pub query: Option<Seq<char>>,
}

/// The failure of the URL parser, with its message.
#[derive(Clone, Debug, PartialEq, Eq)]
pub struct UrlParseError {
    pub message: String,
}

impl View for UrlParseError {
    type V = Seq<char>;

    open spec fn view(&self) -> Seq<char> {
        self.message@
    }
}

/// What `url::Url::parse` returns for a text.
pub uninterp spec fn url_parse(input: Seq<char>) -> Result<UrlView, Seq<char>>;

/// What `url::Url::join` returns for a base URL and a text.
pub uninterp spec fn url_join(base: UrlView, input: Seq<char>) -> Result<UrlView, Seq<char>>;

/// The URL that `url::Url::set_query` leaves behind.
pub uninterp spec fn url_with_query(url: UrlView, query: Option<Seq<char>>) -> UrlView;

/// The URL that `url::Url::set_scheme` leaves behind when it succeeds.
pub uninterp spec fn url_with_scheme(url: UrlView, scheme: Seq<char>) -> UrlView;

/// Parsing the text of the URL gives the URL again.
pub open spec fn reparses(u: UrlView) -> bool {
    url_parse(u.serialization) == Ok::<UrlView, Seq<char>>(u)
}

/// An absolute URL. Its text parses back to it.
pub struct WebUrl {
    inner: url::Url,
    serialization: String,
    scheme: String,
    path: String,
    query: Option<String>,
}

impl View for WebUrl {
    type V = UrlView;

    closed spec fn view(&self) -> UrlView {
        UrlView {
            serialization: self.serialization@,
            scheme: self.scheme@,
            path: self.path@,
            query: match self.query {
                Some(q) => Some(q@),
                None => None,
            },
        }
    }
}

/// A URL whose scheme may be switched between `http`/`https` and
/// `ws`/`wss`.
pub open spec fn is_web_scheme(s: Seq<char>) -> bool {
    s == "http"@ || s == "https"@
}

/// A websocket scheme.
pub open spec fn is_websocket_scheme(s: Seq<char>) -> bool {
    s == "ws"@ || s == "wss"@
}

/// The websocket scheme that stands for a web scheme: `http` becomes `ws`
/// and `https` becomes `wss`; any other scheme has none.
pub open spec fn websocket_scheme(s: Seq<char>) -> Option<Seq<char>> {
    if s == "http"@ {
        Some("ws"@)
    } else if s == "https"@ {
        Some("wss"@)
    } else {
        None
    }
}

/// The `url` crate keeps the positions inside a URL's text as `u32`, so
/// it handles URLs of up to `u32::MAX` bytes. Setting `query` on `url`
/// stays within that: the text, of at most four bytes per character, then
/// `?` and the query, each of whose characters is at most four bytes and
/// each byte at most three once percent-encoded. Removing the query always
/// stays within it.
pub open spec fn query_fits(url: UrlView, query: Option<Seq<char>>) -> bool {
    match query {
        Some(q) => 4 * url.serialization.len() + 1 + 12 * q.len() <= u32::MAX,
        None => true,
    }
}

/// Switching the scheme of `url` to `scheme` keeps the positions inside
/// the URL's text within `u32`: the new scheme is no longer than the old
/// one, or the text and the new scheme together are small enough.
pub open spec fn scheme_fits(url: UrlView, scheme: Seq<char>) -> bool {
    scheme.len() <= url.scheme.len() || 4 * url.serialization.len() + 4 * scheme.len() <= u32::MAX
}

impl WebUrl {
    /// Every URL reparses.
    #[verifier::type_invariant]
    pub open spec fn well_formed(self) -> bool {
        reparses(self@)
    }

    /// Parses an absolute URL.
    pub fn parse(input: &str) -> (r: Result<WebUrl, UrlParseError>)
        ensures
            match r {
                Ok(u) => url_parse(input@) == Ok::<UrlView, Seq<char>>(u@),
                Err(e) => url_parse(input@) == Err::<UrlView, Seq<char>>(e@),
            },
    {
        parse_url(input)
    }

    /// Resolves `input` against this URL.
    pub fn join(&self, input: &str) -> (r: Result<WebUrl, UrlParseError>)
        ensures
            match r {
                Ok(u) => url_join(self@, input@) == Ok::<UrlView, Seq<char>>(u@),
                Err(e) => url_join(self@, input@) == Err::<UrlView, Seq<char>>(e@),
            },
    {
        join_url(self, input)
    }

    /// Switches the scheme; returns whether it was changed.
    pub fn set_scheme(&mut self, scheme: &str) -> (ok: bool)
        requires
            scheme_fits(old(self)@, scheme@),
        ensures
            ok ==> final(self)@ == url_with_scheme(old(self)@, scheme@),
            ok && (is_web_scheme(scheme@) || is_websocket_scheme(scheme@)) ==> final(self)@.scheme == scheme@,
            ok ==> final(self)@.path == old(self)@.path && final(self)@.query == old(self)@.query,
            !ok ==> final(self)@ == old(self)@,
            is_web_scheme(old(self)@.scheme) && is_websocket_scheme(scheme@) ==> ok,
    {
        set_url_scheme(self, scheme)
    }

    /// The same URL with the websocket counterpart of its scheme (see
    /// [`websocket_scheme`]); a URL with another scheme is refused with its
    /// scheme.
    pub fn into_websocket(self) -> (r: Result<WebUrl, String>)
        ensures
            match websocket_scheme(self@.scheme) {
                Some(ws) => r matches Ok(u) && u@ == url_with_scheme(self@, ws) && u@.scheme == ws
                    && u@.path == self@.path && u@.query == self@.query,
                None => r matches Err(s) && s@ == self@.scheme,
            },
    {
        let mut url = self;
        if text_eq(url.scheme(), "http") {
            proof {
                reveal_strlit("http");
                reveal_strlit("ws");
            }
            let ok = url.set_scheme("ws");
            assert(ok);
            Ok(url)
        } else if text_eq(url.scheme(), "https") {
            proof {
                reveal_strlit("https");
                reveal_strlit("wss");
            }
            let ok = url.set_scheme("wss");
            assert(ok);
            Ok(url)
        } else {
            Err(to_owned_text(url.scheme()))
        }
    }

    /// Whether `query` can be set on this URL (see [`query_fits`]).
    pub fn fits_query(&self, query: Option<&str>) -> (b: bool)
        ensures
            b == query_fits(self@, match query {
                Some(q) => Some(q@),
                None => None,
            }),
    {
        match query {
            None => true,
            Some(q) => {
                let n = self.serialization.as_str().unicode_len();
                let m = q.unicode_len();
                if n > 0xffff_ffff || m > 0xffff_ffff {
                    false
                } else {
                    let total: u64 = 4 * (n as u64) + 1 + 12 * (m as u64);
                    total <= 0xffff_ffff
                }
            },
        }
    }

    /// Replaces the query; `None` removes it.
    pub fn set_query(&mut self, query: Option<&str>)
        requires
            query_fits(old(self)@, match query {
                Some(q) => Some(q@),
                None => None,
            }),
        ensures
            final(self)@ == url_with_query(old(self)@, match query {
                Some(q) => Some(q@),
                None => None,
            }),
            final(self)@.query is Some <==> query is Some,
            final(self)@.scheme == old(self)@.scheme,
    {
        set_url_query(self, query)
    }

    /// The whole URL as text.
    pub fn as_str(&self) -> (s: &str)
        ensures
            s@ == self@.serialization,
    {
        self.serialization.as_str()
    }

    /// The scheme.
    pub fn scheme(&self) -> (s: &str)
        ensures
            s@ == self@.scheme,
    {
        self.scheme.as_str()
    }

    /// The path.
    pub fn path(&self) -> (s: &str)
        ensures
            s@ == self@.path,
    {
        self.path.as_str()
    }

    /// The query.
    pub fn query(&self) -> (q: Option<&str>)
        ensures
            match q {
                Some(s) => self@.query == Some(s@),
                None => self@.query is None,
            },
    {
        match &self.query {
            Some(s) => Some(s.as_str()),
            None => None,
        }
    }

    /// Whether two URLs are the same, i.e. have the same serialization.
    pub fn same(&self, other: &WebUrl) -> (r: bool)
        ensures
            r == (self@.serialization == other@.serialization),
    {
        self.serialization == other.serialization
    }

    /// A copy of this URL.
    pub fn duplicate(&self) -> (r: WebUrl)
        ensures
            r@ == self@,
    {
        proof {
            use_type_invariant(self);
        }
        let query = match &self.query {
            Some(q) => Some(q.clone()),
            None => None,
        };
        WebUrl {
            inner: clone_parsed(&self.inner),
            serialization: self.serialization.clone(),
            scheme: self.scheme.clone(),
            path: self.path.clone(),
            query,
        }
    }

    /// The parsed `url::Url` that this URL holds: the value the `url` crate
    /// handed over, from which the components of the view were read.
    pub closed spec fn parsed_url(&self) -> url::Url {
        self.inner
    }

    /// The parsed `url::Url`, for the callers that hand it to other crates.
    pub fn parsed(&self) -> (r: &url::Url)
        ensures
            *r == self.parsed_url(),
    {
        &self.inner
    }
}

/// `url::Url::parse`; its result is named `url_parse`. The `url` crate
/// holds every URL to the invariant that parsing its text gives the same
/// text and the same component boundaries (`Url::check_invariants`:
/// "Failed to parse myself?"), so the URL reparses.
#[verifier::external_body]
fn parse_url(input: &str) -> (r: Result<WebUrl, UrlParseError>)
    ensures
        match r {
            Ok(u) => url_parse(input@) == Ok::<UrlView, Seq<char>>(u@),
            Err(e) => url_parse(input@) == Err::<UrlView, Seq<char>>(e@),
        },
        r matches Ok(u) ==> reparses(u@),
{
    match url::Url::parse(input) {
        Ok(u) => Ok(WebUrl {
            serialization: u.as_str().to_string(),
            scheme: u.scheme().to_string(),
            path: u.path().to_string(),
            query: u.query().map(str::to_string),
            inner: u,
        }),
        Err(e) => Err(UrlParseError { message: e.to_string() }),
    }
}

/// `url::Url::join`; its result is named `url_join`. Like every URL of the
/// `url` crate, the result reparses (`Url::check_invariants`).
#[verifier::external_body]
fn join_url(base: &WebUrl, input: &str) -> (r: Result<WebUrl, UrlParseError>)
    ensures
        match r {
            Ok(u) => url_join(base@, input@) == Ok::<UrlView, Seq<char>>(u@),
            Err(e) => url_join(base@, input@) == Err::<UrlView, Seq<char>>(e@),
        },
        r matches Ok(u) ==> reparses(u@),
{
    match base.inner.join(input) {
        Ok(u) => Ok(WebUrl {
            serialization: u.as_str().to_string(),
            scheme: u.scheme().to_string(),
            path: u.path().to_string(),
            query: u.query().map(str::to_string),
            inner: u,
        }),
        Err(e) => Err(UrlParseError { message: e.to_string() }),
    }
}

/// `url::Url::set_scheme`. Its documentation states that the change from
/// `http` or `https` to `ws` or `wss` is allowed: all four are special
/// schemes, and a URL with a special scheme always has a host. The URL it
/// leaves behind is named `url_with_scheme`: its source writes the new
/// (lower-case) scheme in front of the rest of the URL and drops a port
/// that is the new scheme's default, so the path and the query stay as
/// they were. On failure the URL is unchanged. Either way it reparses
/// (`Url::check_invariants`). Its source keeps the new scheme's length and
/// the shifted positions as `u32` and unwraps that conversion, so the
/// change must keep them in range ([`scheme_fits`]).
#[verifier::external_body]
fn set_url_scheme(url: &mut WebUrl, scheme: &str) -> (ok: bool)
    requires
        scheme_fits(old(url)@, scheme@),
    ensures
        ok ==> final(url)@ == url_with_scheme(old(url)@, scheme@),
        ok && (is_web_scheme(scheme@) || is_websocket_scheme(scheme@)) ==> final(url)@.scheme == scheme@,
        ok ==> final(url)@.path == old(url)@.path && final(url)@.query == old(url)@.query,
        !ok ==> final(url)@ == old(url)@,
        is_web_scheme(old(url)@.scheme) && is_websocket_scheme(scheme@) ==> ok,
        reparses(final(url)@),
{
    let ok = url.inner.set_scheme(scheme).is_ok();
    url.serialization = url.inner.as_str().to_string();
    url.scheme = url.inner.scheme().to_string();
    url.path = url.inner.path().to_string();
    url.query = url.inner.query().map(str::to_string);
    ok
}

/// `url::Url::set_query`; the URL it leaves behind is named
/// `url_with_query`. Its source cuts off the old query, and for `Some`
/// writes `?` and the encoded new one, so the URL has a query exactly when
/// one is given; the scheme is not touched. The URL reparses
/// (`Url::check_invariants`). Its source unwraps the new positions as
/// `u32`, and a URL longer than `u32::MAX` bytes would not parse again, so
/// the new query must keep the URL in range ([`query_fits`]).
#[verifier::external_body]
fn set_url_query(url: &mut WebUrl, query: Option<&str>)
    requires
        query_fits(old(url)@, match query {
            Some(q) => Some(q@),
            None => None,
        }),
    ensures
        final(url)@ == url_with_query(old(url)@, match query {
            Some(q) => Some(q@),
            None => None,
        }),
        final(url)@.query is Some <==> query is Some,
        final(url)@.scheme == old(url)@.scheme,
        reparses(final(url)@),
{
    url.inner.set_query(query);
    url.serialization = url.inner.as_str().to_string();
    url.scheme = url.inner.scheme().to_string();
    url.path = url.inner.path().to_string();
    url.query = url.inner.query().map(str::to_string);
}

/// `Clone` of `url::Url`.
#[verifier::external_body]
fn clone_parsed(u: &url::Url) -> url::Url {
    u.clone()
}

} // verus!
