//! Rate limiting: the identity that a request is counted under, the limits
//! of the token bucket, and the answer to a request over its quota.

use vstd::prelude::*;
use governor::{DefaultKeyedRateLimiter, Quota};
use std::num::NonZeroU32;
use crate::metrics::Counter;
use crate::text::{
    first_field, first_field_of, is_space, lemma_trimmed_edges, trim_str, trimmed,
};

verus! {

/// One header line of a request.
#[derive(Debug, PartialEq, Eq)]
pub struct Header {
    pub name: String,
    /// The value as text; `None` where its bytes are not text.
    pub value: Option<String>,
}

/// What of an inbound request bears on its identity.
#[derive(Debug, PartialEq, Eq)]
pub struct Request {
    /// The header lines, in the order received.
    pub headers: Vec<Header>,
    /// The address of the peer on the transport, where it is known.
    pub remote_ip: Option<String>,
}

/// Model of a [`Header`].
pub struct HeaderView {
    pub name: Seq<char>,
    pub value: Option<Seq<char>>,
}

/// Model of a [`Request`].
pub struct RequestView {
    pub headers: Seq<HeaderView>,
    pub remote_ip: Option<Seq<char>>,
}

impl View for Header {
    type V = HeaderView;

    open spec fn view(&self) -> HeaderView {
        HeaderView {
            name: self.name@,
            value: match self.value {
                Some(v) => Some(v@),
                None => None,
            },
        }
    }
}

impl View for Request {
    type V = RequestView;

    open spec fn view(&self) -> RequestView {
        RequestView {
            headers: Seq::new(self.headers.len() as nat, |i: int| self.headers[i]@),
            remote_ip: match self.remote_ip {
                Some(ip) => Some(ip@),
                None => None,
            },
        }
    }
}

impl RequestView {
    /// A request is well formed when the peer's address, where it is known,
    /// is not empty and has no white space at either end.
    pub open spec fn wf(self) -> bool {
        self.remote_ip matches Some(ip) ==> ip.len() > 0 && !is_space(ip[0]) && !is_space(
            ip.last(),
        )
    }
}

impl Request {
    /// A request is well formed when its model is.
    pub open spec fn wf(&self) -> bool {
        self@.wf()
    }
}

/// The value of the first header line at or after `from` that is called
/// `name` exactly; `None` where there is no such line or its value is not
/// text.
pub open spec fn header_text_from(headers: Seq<HeaderView>, name: Seq<char>, from: int) -> Option<
    Seq<char>,
>
    decreases headers.len() - from,
{
    if from < 0 || from >= headers.len() {
        None
    } else if headers[from].name == name {
        headers[from].value
    } else {
        header_text_from(headers, name, from + 1)
    }
}

/// The value of the first header line called `name`.
pub open spec fn header_text(headers: Seq<HeaderView>, name: Seq<char>) -> Option<Seq<char>> {
    header_text_from(headers, name, 0)
}

/// A header value as a key: trimmed, and none where nothing is left.
pub open spec fn usable(text: Seq<char>) -> Option<Seq<char>> {
    if trimmed(text).len() > 0 {
        Some(trimmed(text))
    } else {
        None
    }
}

/// The header names that can carry the client's address, most trusted first.
pub open spec fn header_order() -> Seq<Seq<char>> {
    seq![
        "X-Forwarded-For"@,
        "X-Real-IP"@,
        "X-Client-IP"@,
        "CF-Connecting-IP"@,
        "True-Client-IP"@,
        "X-Originating-IP"@,
        "X-Remote-IP"@,
        "X-Remote-Addr"@,
    ]
}

/// The key that the header at place `at` of [`header_order`] gives. The
/// first of them holds a chain of addresses, of which only the first entry
/// counts.
pub open spec fn candidate(headers: Seq<HeaderView>, at: int) -> Option<Seq<char>> {
    match header_text(headers, header_order()[at]) {
        Some(text) => usable(
            if at == 0 {
                first_field(text, ',')
            } else {
                text
            },
        ),
        None => None,
    }
}

/// The key of the first header at or after place `from` that gives one.
pub open spec fn header_key_from(headers: Seq<HeaderView>, from: int) -> Option<Seq<char>>
    decreases header_order().len() - from,
{
    if from < 0 || from >= header_order().len() {
        None
    } else if candidate(headers, from) is Some {
        candidate(headers, from)
    } else {
        header_key_from(headers, from + 1)
    }
}

/// The identity of a request: the key from its headers, else the peer's
/// address, else the word `unknown`.
pub open spec fn rate_limit_key(req: RequestView) -> Seq<char> {
    match header_key_from(req.headers, 0) {
        Some(key) => key,
        None => match req.remote_ip {
            Some(ip) => ip,
            None => "unknown"@,
        },
    }
}

/// Why no key could be derived. No request gives it: the fallback key makes
/// the derivation total.
#[derive(Clone, Copy, Debug, PartialEq, Eq, Structural)]
pub enum KeyError {
    UnableToExtractKey,
}

/// The header names that can carry the client's address, most trusted first.
pub fn header_names() -> (names: Vec<&'static str>)
    ensures
        names@.len() == header_order().len(),
        forall|i: int| 0 <= i < names@.len() ==> (#[trigger] names@[i])@ == header_order()[i],
{
    let mut names: Vec<&'static str> = Vec::with_capacity(8);
    names.push("X-Forwarded-For");
    names.push("X-Real-IP");
    names.push("X-Client-IP");
    names.push("CF-Connecting-IP");
    names.push("True-Client-IP");
    names.push("X-Originating-IP");
    names.push("X-Remote-IP");
    names.push("X-Remote-Addr");
    names
}

/// Looks up the first header line called `name`.
pub fn find_header<'a>(req: &'a Request, name: &str) -> (r: Option<&'a str>)
    ensures
        match r {
            Some(text) => header_text(req@.headers, name@) == Some(text@),
            None => header_text(req@.headers, name@) is None,
        },
{
    let wanted = String::from_str(name);
    let mut i: usize = 0;
    while i < req.headers.len()
        invariant
            i <= req.headers.len(),
            wanted@ == name@,
            header_text(req@.headers, name@) == header_text_from(req@.headers, name@, i as int),
        decreases req.headers.len() - i,
    {
        let line = &req.headers[i];
        assert(req@.headers[i as int] == line@);
        if line.name == wanted {
            return match &line.value {
                Some(text) => Some(text.as_str()),
                None => None,
            };
        }
        i += 1;
    }
    None
}

/// Trims `text` and keeps it where something is left.
pub fn usable_key(text: &str) -> (r: Option<&str>)
    ensures
        match r {
            Some(key) => usable(text@) == Some(key@),
            None => usable(text@) is None,
        },
{
    let t = trim_str(text);
    if t.unicode_len() > 0 {
        Some(t)
    } else {
        None
    }
}

/// Derives the rate-limiting key of a request from its headers, falling back
/// to the peer's address and then to a fixed key.
#[derive(Clone, Copy, Debug, PartialEq, Eq, Structural)]
pub struct RobustIpKeyExtractor;

impl RobustIpKeyExtractor {
    /// The identity under which `req` is counted. Headers are tried in the
    /// order of [`header_order`]; one that is absent, not text, or blank is
    /// passed over.
    pub fn extract(&self, req: &Request) -> (r: Result<String, KeyError>)
        ensures
            r is Ok,
            r.unwrap()@ == rate_limit_key(req@),
    {
        let names = header_names();
        let mut i: usize = 0;
        while i < names.len()
            invariant
                i <= names@.len(),
                names@.len() == header_order().len(),
                forall|k: int| 0 <= k < names@.len() ==> (#[trigger] names@[k])@ == header_order()[k],
                header_key_from(req@.headers, 0) == header_key_from(req@.headers, i as int),
            decreases names.len() - i,
        {
            if let Some(text) = find_header(req, names[i]) {
                let entry = if i == 0 {
                    first_field_of(text, ',')
                } else {
                    text
                };
                if let Some(key) = usable_key(entry) {
                    return Ok(String::from_str(key));
                }
            }
            i += 1;
        }
        match &req.remote_ip {
            Some(ip) => Ok(ip.clone()),
            None => Ok(String::from_str("unknown")),
        }
    }
}

/// The limits of the token bucket that each identity gets.
#[derive(Clone, Copy, Debug, PartialEq, Eq, Structural)]
pub struct RateLimitConfig {
    /// Requests per second at which the bucket refills.
    pub per_second: u32,
    /// The most requests that the bucket holds.
    pub burst_size: u32,
}

impl RateLimitConfig {
    /// The limits for `rps` requests per second with bursts of `burst`.
    /// There are none where either number is zero: such a bucket would
    /// admit nothing.
    pub fn new(rps: u32, burst: u32) -> (r: Option<RateLimitConfig>)
        ensures
            r is Some <==> rps > 0 && burst > 0,
            r matches Some(config) ==> config.per_second == rps && config.burst_size == burst,
    {
        if rps > 0 && burst > 0 {
            Some(RateLimitConfig { per_second: rps, burst_size: burst })
        } else {
            None
        }
    }
}

/// The answer to a request over its quota.
#[derive(Debug, PartialEq, Eq)]
pub struct Rejection {
    /// The HTTP status of the answer.
    pub status: u16,
    /// The body of the answer.
    pub body: String,
    /// The counters to increment by one.
    pub counters: Vec<Counter>,
}

impl Rejection {
    /// The one rejection there is: status 429 with a fixed message, counted
    /// as an error and as a rate-limit error.
    pub open spec fn is_rate_limit(&self) -> bool {
        &&& self.status == 429
        &&& self.body@ == "Rate limit exceeded"@
        &&& self.counters@ == seq![Counter::TotalErrors, Counter::TotalRateLimitErrors]
    }
}

/// What a request over its quota gets: status 429 with a fixed message,
/// counted as an error and as a rate-limit error. Nothing else is raised:
/// being over quota is the client's affair.
pub fn rate_limit_rejection() -> (r: Rejection)
    ensures
        r.is_rate_limit(),
{
    let mut counters: Vec<Counter> = Vec::with_capacity(2);
    counters.push(Counter::TotalErrors);
    counters.push(Counter::TotalRateLimitErrors);
    assert(counters@ =~= seq![Counter::TotalErrors, Counter::TotalRateLimitErrors]);
    Rejection { status: 429, body: String::from_str("Rate limit exceeded"), counters }
}

/// The limiter's decision on one request.
#[derive(Debug, PartialEq, Eq)]
pub enum Admission {
    Admitted,
    Rejected(Rejection),
}

/// The decision that goes with the bucket's answer: a token taken admits,
/// none left rejects.
pub fn admission(token_taken: bool) -> (r: Admission)
    ensures
        token_taken ==> r is Admitted,
        !token_taken ==> (r matches Admission::Rejected(rejection) && rejection.is_rate_limit()),
{
    if token_taken {
        Admission::Admitted
    } else {
        Admission::Rejected(rate_limit_rejection())
    }
}

/// The token buckets, one for each key, made on first sight of the key and
/// guarded shard by shard: a `governor::DefaultKeyedRateLimiter` keyed by
/// strings. Opaque to the verifier, which is told only the limits that the
/// buckets were made with.
#[verifier::external_body]
pub struct Buckets {
    inner: DefaultKeyedRateLimiter<String>,
}

/// The limits that buckets were made with: the tokens per second at which
/// each refills, and the most that each holds.
pub uninterp spec fn bucket_limits(buckets: Buckets) -> (u32, u32);

/// `governor::RateLimiter::keyed` with the quota of `Quota::per_second` and
/// `Quota::allow_burst`. Trusted: the result is fresh buckets made with
/// these limits, refilling at `per_second` tokens a second and holding
/// `burst_size` at most.
#[verifier::external_body]
fn new_buckets(per_second: u32, burst_size: u32) -> (buckets: Buckets)
    requires
        per_second > 0,
        burst_size > 0,
    ensures
        bucket_limits(buckets) == (per_second, burst_size),
{
    let rate = NonZeroU32::new(per_second).unwrap();
    let burst = NonZeroU32::new(burst_size).unwrap();
    Buckets { inner: DefaultKeyedRateLimiter::keyed(Quota::per_second(rate).allow_burst(burst)) }
}

/// `governor::RateLimiter::check_key`: takes a token from the bucket of
/// `key` where one is there now, and tells whether it did. The answer goes
/// by the clock, so nothing is promised of it.
#[verifier::external_body]
fn take_token(buckets: &Buckets, key: &String) -> (taken: bool) {
    buckets.inner.check_key(key).is_ok()
}

/// The rate limiter: a token bucket for each identity.
pub struct RateLimiter {
    config: RateLimitConfig,
    buckets: Buckets,
}

impl RateLimiter {
    /// The limits that the limiter was made with.
    pub closed spec fn spec_config(&self) -> RateLimitConfig {
        self.config
    }

    /// The limits that the limiter's buckets were made with: tokens per
    /// second, and the most that a bucket holds.
    pub closed spec fn spec_bucket_limits(&self) -> (u32, u32) {
        bucket_limits(self.buckets)
    }

    /// A limiter that lets each identity make `rps` requests per second with
    /// bursts of `burst`. There is none where either number is zero.
    pub fn new(rps: u32, burst: u32) -> (r: Option<RateLimiter>)
        ensures
            r is Some <==> rps > 0 && burst > 0,
            r matches Some(limiter) ==> limiter.spec_config() == (RateLimitConfig {
                per_second: rps,
                burst_size: burst,
            }) && limiter.spec_bucket_limits() == (rps, burst),
    {
        match RateLimitConfig::new(rps, burst) {
            Some(config) => Some(
                (RateLimiter { config, buckets: new_buckets(config.per_second, config.burst_size) }),
            ),
            None => None,
        }
    }

    /// The limits that the limiter was made with.
    pub fn config(&self) -> (r: RateLimitConfig)
        ensures
            r == self.spec_config(),
    {
        self.config
    }

    /// Decides on one request of the identity `key`: admitted where its
    /// bucket has a token, which is then taken, and rejected otherwise.
    /// Whether a token is there depends on the clock; a rejection is always
    /// the same answer.
    pub fn check(&self, key: &String) -> (r: Admission)
        ensures
            r matches Admission::Rejected(rejection) ==> rejection.is_rate_limit(),
    {
        admission(take_token(&self.buckets, key))
    }
}

/// Precedence: the first header in the order of trust that gives a key
/// decides, whatever the headers after it and the peer's address hold.
pub proof fn lemma_first_usable_header_decides(req: RequestView, at: int)
    requires
        0 <= at < header_order().len(),
        candidate(req.headers, at) is Some,
        forall|k: int| 0 <= k < at ==> candidate(req.headers, k) is None,
    ensures
        rate_limit_key(req) == candidate(req.headers, at).unwrap(),
{
    lemma_header_key_skips(req.headers, 0, at);
}

proof fn lemma_header_key_skips(headers: Seq<HeaderView>, from: int, at: int)
    requires
        0 <= from <= at <= header_order().len(),
        forall|k: int| from <= k < at ==> candidate(headers, k) is None,
    ensures
        header_key_from(headers, from) == header_key_from(headers, at),
    decreases at - from,
{
    if from < at {
        lemma_header_key_skips(headers, from + 1, at);
    }
}

/// Fallback: where no header gives a key, the peer's address is the key,
/// and the fixed key `unknown` where that is not known either.
pub proof fn lemma_fallback_without_headers(req: RequestView)
    requires
        forall|k: int| 0 <= k < header_order().len() ==> candidate(req.headers, k) is None,
    ensures
        rate_limit_key(req) == match req.remote_ip {
            Some(ip) => ip,
            None => "unknown"@,
        },
{
    lemma_header_key_skips(req.headers, 0, header_order().len() as int);
}

/// A header that is absent, not text, or blank gives no key, so that the
/// next one in the order of trust is asked.
pub proof fn lemma_blank_header_is_skipped(headers: Seq<HeaderView>, at: int)
    requires
        0 <= at < header_order().len(),
    ensures
        header_text(headers, header_order()[at]) is None ==> candidate(headers, at) is None,
        header_text(headers, header_order()[at]) matches Some(text) && trimmed(text).len() == 0
            && at > 0 ==> candidate(headers, at) is None,
        header_text(headers, header_order()[0]) matches Some(text) && trimmed(
            first_field(text, ','),
        ).len() == 0 ==> candidate(headers, 0) is None,
{
}

/// A key that comes from a header is never blank: it is not empty and has
/// no white space at either end.
pub proof fn lemma_header_key_is_trimmed(headers: Seq<HeaderView>, from: int)
    ensures
        header_key_from(headers, from) matches Some(key) ==> key.len() > 0 && !is_space(key[0])
            && !is_space(key.last()),
    decreases header_order().len() - from,
{
    if 0 <= from < header_order().len() {
        if candidate(headers, from) is Some {
            let text = header_text(headers, header_order()[from]).unwrap();
            lemma_trimmed_edges(text);
            lemma_trimmed_edges(first_field(text, ','));
        } else {
            lemma_header_key_is_trimmed(headers, from + 1);
        }
    }
}

/// Every well-formed request has a usable key: it is not empty and has no
/// white space at either end, whether it comes from a header, from the
/// peer's address or from the fixed key.
pub proof fn lemma_key_is_usable(req: RequestView)
    requires
        req.wf(),
    ensures
        rate_limit_key(req).len() > 0,
        !is_space(rate_limit_key(req)[0]),
        !is_space(rate_limit_key(req).last()),
{
    lemma_header_key_is_trimmed(req.headers, 0);
    reveal_strlit("unknown");
}

} // verus!
