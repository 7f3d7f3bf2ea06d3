//! The politeness rule of fetching: two requests to one host are never
//! issued closer together than the configured delay.
//!
//! A [`Fetcher`] keeps, for each host, the time of the last request to it.
//! Times are readings, in milliseconds, of a clock that the caller owns and
//! that does not run backwards. Before a request the caller asks how long to
//! wait, waits, and then records the time at which it issues the request.

use vstd::prelude::*;
use vstd::hash_map::StringHashMap;

use crate::address::Url;
use crate::crawler::{CrawlerConfig, CrawlerError, CrawlerResult};

verus! {

/// The time, in seconds, after which a request is given up.
pub const REQUEST_TIMEOUT_SECS: u64 = 10;

/// Names `url::ParseError::EmptyHost`, the error of a URL that lacks the host
/// it needs. Trusted, with nothing claimed of the value.
#[verifier::external_body]
fn empty_host() -> url::ParseError {
    url::ParseError::EmptyHost
}

/// How long a request at time `now` has to wait, when the last request to the
/// same host was at `last`: what is missing of `delay` since then. A clock
/// reading before `last` counts as no time gone by.
pub open spec fn politeness_wait(last: Option<u64>, now: u64, delay: u64) -> nat {
    match last {
        None => 0,
        Some(t) => {
            let elapsed = if now >= t {
                now - t
            } else {
                0
            };
            if elapsed < delay {
                (delay - elapsed) as nat
            } else {
                0
            }
        },
    }
}

/// The time of the last request to `host`, if there was one.
pub open spec fn last_request(times: Map<Seq<char>, u64>, host: Seq<char>) -> Option<u64> {
    if times.contains_key(host) {
        Some(times[host])
    } else {
        None
    }
}

/// A request that waits as told is issued at least `delay` after the last
/// request to its host.
pub proof fn lemma_requests_are_spaced(last: u64, now: u64, delay: u64)
    requires
        last <= now,
    ensures
        now + politeness_wait(Some(last), now, delay) >= last + delay,
{
}

/// A host that was never asked, or was asked at least `delay` ago, is asked
/// at once.
pub proof fn lemma_no_wait_when_due(last: Option<u64>, now: u64, delay: u64)
    requires
        last matches Some(t) ==> now >= t + delay,
    ensures
        politeness_wait(last, now, delay) == 0,
{
}

/// The request settings of a crawl and the time of the last request to each
/// host.
pub struct Fetcher {
    config: CrawlerConfig,
    last_access: StringHashMap<u64>,
}

impl Fetcher {
    /// The configuration that the fetcher was made with.
    pub closed spec fn settings(&self) -> CrawlerConfig {
        self.config
    }

    /// The time of the last request to each host that was asked.
    pub closed spec fn times(&self) -> Map<Seq<char>, u64> {
        self.last_access@
    }

    /// A fetcher that has asked no host yet.
    pub fn new(config: CrawlerConfig) -> (r: Self)
        ensures
            r.settings() == config,
            r.times() == Map::<Seq<char>, u64>::empty(),
    {
        Fetcher { config, last_access: StringHashMap::new() }
    }

    /// The user agent that requests announce.
    pub fn user_agent(&self) -> (r: &str)
        ensures
            r@ == self.settings().user_agent@,
    {
        self.config.user_agent.as_str()
    }

    /// How many milliseconds a request to `url` at time `now_ms` has to wait.
    /// A URL without a host cannot be fetched.
    pub fn delay_before(&self, url: &Url, now_ms: u64) -> (r: CrawlerResult<u64>)
        ensures
            match r {
                Ok(wait) => url@.host matches Some(host) && wait == politeness_wait(
                    last_request(self.times(), host),
                    now_ms,
                    self.settings().delay_ms,
                ),
                Err(e) => url@.host is None && e is UrlParseError,
            },
    {
        match url.host_str() {
            None => Err(CrawlerError::UrlParseError(empty_host())),
            Some(host) => {
                match self.last_access.get(host) {
                    None => Ok(0),
                    Some(last) => {
                        let elapsed: u64 = if now_ms >= *last {
                            now_ms - *last
                        } else {
                            0
                        };
                        if elapsed < self.config.delay_ms {
                            Ok(self.config.delay_ms - elapsed)
                        } else {
                            Ok(0)
                        }
                    },
                }
            },
        }
    }

    /// Notes that a request to `url` is issued at time `now_ms`.
    pub fn record_access(&mut self, url: &Url, now_ms: u64)
        ensures
            final(self).settings() == old(self).settings(),
            final(self).times() == match url@.host {
                Some(host) => old(self).times().insert(host, now_ms),
                None => old(self).times(),
            },
    {
        match url.host_str() {
            Some(host) => {
                self.last_access.insert(host.to_owned(), now_ms);
            },
            None => {},
        }
    }
}

} // verus!
