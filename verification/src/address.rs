//! Absolute URLs, as the `url` crate parses and normalizes them.
//!
//! The crawler never looks inside a URL itself: it asks the `url` crate to
//! parse or resolve a string and keeps the three parts it decides on, the
//! normalized text, the scheme and the host.

use vstd::prelude::*;

use crate::crawler::CrawlerError;

verus! {

/// Makes `url::ParseError`, the error of `url::Url::parse` and
/// `url::Url::join`, known to the verifier as a type of which nothing is
/// known.
#[verifier::external_type_specification]
#[verifier::external_body]
pub struct ExParseError(url::ParseError);

/// The parts of a parsed URL that the crawler reads.
pub ghost struct UrlView {
    /// The normalized serialization.
    pub text: Seq<char>,
    /// The scheme, without the colon.
    pub scheme: Seq<char>,
    /// The host, where the URL has one.
    pub host: Option<Seq<char>>,
}

/// What `url::Url::parse` makes of `input`: `None` where it refuses the
/// string, else the parts of the URL it returns.
pub uninterp spec fn url_parse(input: Seq<char>) -> Option<UrlView>;

/// What `url::Url::join` makes of `reference` on the URL that
/// `url::Url::parse` returns for `base`: `None` where either refuses, else the
/// parts of the resolved URL.
pub uninterp spec fn url_join(base: Seq<char>, reference: Seq<char>) -> Option<UrlView>;

/// A parsed absolute URL.
#[derive(Debug)]
pub struct Url {
    text: String,
    scheme: String,
    host: Option<String>,
}

impl View for Url {
    type V = UrlView;

    closed spec fn view(&self) -> UrlView {
        UrlView {
            text: self.text@,
            scheme: self.scheme@,
            host: match self.host {
                Some(h) => Some(h@),
                None => None,
            },
        }
    }
}

/// Calls `url::Url::parse` and copies the serialization, the scheme and the
/// host out of the URL it returns. Trusted: the outcome is `url_parse` of the
/// input, an error exactly where `url_parse` is `None`.
#[verifier::external_body]
fn parse_absolute(input: &str) -> (r: Result<Url, url::ParseError>)
    ensures
        match r {
            Ok(u) => url_parse(input@) == Some(u@),
            Err(_) => url_parse(input@) is None,
        },
{
    let parsed = url::Url::parse(input)?;
    Ok(
        Url {
            text: parsed.as_str().to_string(),
            scheme: parsed.scheme().to_string(),
            host: parsed.host_str().map(|h| h.to_string()),
        },
    )
}

/// Parses `base` with `url::Url::parse`, resolves `reference` against it with
/// `url::Url::join`, and copies the serialization, the scheme and the host out
/// of the result. Trusted: the outcome is `url_join` of the two strings, an
/// error exactly where `url_join` is `None`.
#[verifier::external_body]
fn join_reference(base: &str, reference: &str) -> (r: Result<Url, url::ParseError>)
    ensures
        match r {
            Ok(u) => url_join(base@, reference@) == Some(u@),
            Err(_) => url_join(base@, reference@) is None,
        },
{
    let joined = url::Url::parse(base)?.join(reference)?;
    Ok(
        Url {
            text: joined.as_str().to_string(),
            scheme: joined.scheme().to_string(),
            host: joined.host_str().map(|h| h.to_string()),
        },
    )
}

impl Url {
    /// Parses an absolute URL.
    pub fn parse(input: &str) -> (r: Result<Url, CrawlerError>)
        ensures
            match r {
                Ok(u) => url_parse(input@) == Some(u@),
                Err(e) => url_parse(input@) is None && e is UrlParseError,
            },
    {
        match parse_absolute(input) {
            Ok(u) => Ok(u),
            Err(e) => Err(CrawlerError::UrlParseError(e)),
        }
    }

    /// Resolves `reference`, which may be relative, against this URL.
    pub fn join(&self, reference: &str) -> (r: Result<Url, CrawlerError>)
        ensures
            match r {
                Ok(u) => url_join(self@.text, reference@) == Some(u@),
                Err(e) => url_join(self@.text, reference@) is None && e is UrlParseError,
            },
    {
        match join_reference(self.text.as_str(), reference) {
            Ok(u) => Ok(u),
            Err(e) => Err(CrawlerError::UrlParseError(e)),
        }
    }

    /// The normalized serialization of the URL.
    pub fn as_str(&self) -> (r: &str)
        ensures
            r@ == self@.text,
    {
        self.text.as_str()
    }

    /// The scheme, in lower case and without the colon.
    pub fn scheme(&self) -> (r: &str)
        ensures
            r@ == self@.scheme,
    {
        self.scheme.as_str()
    }

    /// Tells whether two URLs have the same normalized serialization.
    pub fn same_as(&self, other: &Url) -> (r: bool)
        ensures
            r == (self@.text == other@.text),
    {
        self.text == other.text
    }

    /// The host, where the URL has one.
    pub fn host_str(&self) -> (r: Option<&str>)
        ensures
            match r {
                Some(h) => self@.host == Some(h@),
                None => self@.host is None,
            },
    {
        match &self.host {
            Some(h) => Some(h.as_str()),
            None => None,
        }
    }
}

impl Clone for Url {
    fn clone(&self) -> (r: Self)
        ensures
            r@ == self@,
    {
        Url {
            text: self.text.clone(),
            scheme: self.scheme.clone(),
            host: match &self.host {
                Some(h) => Some(h.clone()),
                None => None,
            },
        }
    }
}

} // verus!
