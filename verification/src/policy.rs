//! The cache policy.

use http::HeaderMap;
use vstd::prelude::*;
use vstd::string::*;
use vstd::utf8::*;

use crate::dates;
use crate::directives;
use crate::directives::CacheControl;
use crate::fields;
use crate::fields::FieldValue;
use crate::forwarding;
use crate::laws::making;
use crate::message;
use crate::message::{RequestLike, RequestParts, ResponseLike, ResponseParts};
use crate::model;
use crate::model::{Dates, PolicyModel};
use crate::options::CachePolicyOptions;
use crate::text;
use crate::time;
use crate::time::{Duration, SystemTime};
use crate::updating;

verus! {

/// Identifies when responses can be reused from a cache, taking into account
/// HTTP RFC 7234 rules for user agents and shared caches. It's aware of many
/// tricky details such as the Vary header, proxy revalidation, and
/// authenticated responses.
///
/// Its view is a [`PolicyModel`].
#[derive(Debug)]
pub struct CachePolicy {
    req: HeaderMap,
    res: HeaderMap,
    uri: String,
    status: u16,
    method: String,
    opts: CachePolicyOptions,
    res_cc: CacheControl,
    req_cc: CacheControl,
}

impl View for CachePolicy {
    type V = PolicyModel;

    closed spec fn view(&self) -> PolicyModel {
        PolicyModel {
            req: fields::fields_of(self.req),
            res: fields::fields_of(self.res),
            uri: self.uri@,
            status: self.status,
            method: self.method@,
            opts: self.opts,
            res_cc: self.res_cc@,
            req_cc: self.req_cc@,
        }
    }
}

fn is_cacheable_by_default(status: u16) -> (r: bool)
    ensures
        r == model::is_cacheable_by_default(status),
{
    status == 200 || status == 203 || status == 204 || status == 206 || status == 300 || status == 301
        || status == 404 || status == 405 || status == 410 || status == 414 || status == 501
}

fn is_understood(status: u16) -> (r: bool)
    ensures
        r == model::is_understood(status),
{
    status == 200 || status == 203 || status == 204 || status == 300 || status == 301 || status == 302
        || status == 303 || status == 307 || status == 308 || status == 404 || status == 405 || status
        == 410 || status == 414 || status == 501
}

fn has_pragma_no_cache(headers: &HeaderMap) -> (r: bool)
    ensures
        r == model::has_pragma_no_cache(fields::fields_of(*headers)),
{
    proof {
        fields::lemma_known_names();
        directives::lemma_flag_names();
    }
    match fields::get_str(headers, "pragma") {
        Some(p) => text::contains(p.as_str(), "no-cache"),
        None => false,
    }
}

fn cache_control_of(headers: &HeaderMap) -> (r: CacheControl)
    ensures
        r@ == directives::parsed(fields::values(fields::fields_of(*headers), "cache-control"@)),
        directives::well_formed(r@),
{
    proof {
        fields::lemma_known_names();
    }
    directives::parse_cache_control(&fields::map_get_all(headers, "cache-control"))
}

fn forbids_cache(headers: &HeaderMap) -> (r: bool)
    ensures
        r == model::forbids_cache(fields::fields_of(*headers)),
{
    cache_control_of(headers).contains_key("no-cache") || has_pragma_no_cache(headers)
}

fn is_cargo_cult(headers: &HeaderMap, opts: CachePolicyOptions) -> (r: bool)
    ensures
        r == model::is_cargo_cult(fields::fields_of(*headers), opts),
{
    let cc = cache_control_of(headers);
    opts.ignore_cargo_cult && cc.contains_key("pre-check") && cc.contains_key("post-check")
}

impl CachePolicy {
    #[verifier::type_invariant]
    spec fn is_well_formed(self) -> bool {
        directives::well_formed(self.res_cc@) && directives::well_formed(self.req_cc@)
    }

    /// Cacheability of an HTTP response depends on how it was requested, so
    /// both request and response are required to create the policy.
    pub fn new<Req: RequestLike, Res: ResponseLike>(
        req: &Req,
        res: &Res,
        opts: CachePolicyOptions,
    ) -> (r: CachePolicy)
        requires
            model::is_cargo_cult(res.model().fields, opts) ==> fields::has_room(
                res.model().fields,
                1,
            ),
        ensures
            r@ == model::policy_for(req.model(), res.model(), opts),
    {
        CachePolicy::checked_new(req, res, opts).unwrap()
    }

    /// The policy for a response to a request; `None` where the header map is full.
    pub fn checked_new<Req: RequestLike, Res: ResponseLike>(
        req: &Req,
        res: &Res,
        opts: CachePolicyOptions,
    ) -> (r: Option<CachePolicy>)
        ensures
            r is None ==> model::is_cargo_cult(res.model().fields, opts) && !fields::has_room(
                res.model().fields,
                1,
            ),
            r matches Some(policy) ==> policy@ == model::policy_for(req.model(), res.model(), opts),
    {
        let uri = req.uri();
        let status = res.status();
        let method = req.method().to_owned();
        let res_headers = fields::map_clone(res.headers());
        let req_headers = fields::map_clone(req.headers());
        CachePolicy::from_details(uri, method, status, req_headers, res_headers, opts)
    }

    fn from_details(
        uri: String,
        method: String,
        status: u16,
        req: HeaderMap,
        mut res: HeaderMap,
        opts: CachePolicyOptions,
    ) -> (r: Option<CachePolicy>)
        ensures
            r is None ==> model::is_cargo_cult(fields::fields_of(res), opts) && !fields::has_room(
                fields::fields_of(res),
                1,
            ),
            r matches Some(policy) ==> policy@ == model::policy_for(
                message::RequestModel { method: method@, uri: uri@, fields: fields::fields_of(req) },
                message::ResponseModel { status, fields: fields::fields_of(res) },
                opts,
            ),
    {
        let ghost given = fields::fields_of(res);
        let mut res_cc = cache_control_of(&res);
        let req_cc = cache_control_of(&req);
        let ghost parsed = res_cc@;
        proof {
            fields::lemma_known_names();
            directives::lemma_flag_names();
        }
        // Assume that if someone uses legacy, non-standard unnecessary options they don't understand
        // caching, so there's no point strictly adhering to the blindly copy&pasted directives.
        if is_cargo_cult(&res, opts) {
            proof {
                making::lemma_without_cargo_cult(parsed);
            }
            res_cc.remove("pre-check");
            res_cc.remove("post-check");
            res_cc.remove("no-cache");
            res_cc.remove("no-store");
            res_cc.remove("must-revalidate");
            let written = directives::format_cache_control(&res_cc);
            proof {
                making::law_formatted_is_visible(res_cc@);
            }
            if !fields::map_insert(
                &mut res,
                "cache-control",
                FieldValue::from_text(written.as_str()),
            ) {
                return None;
            }
            fields::map_remove(&mut res, "expires");
            fields::map_remove(&mut res, "pragma");
        }
        proof {
            assert(res_cc@ == model::response_directives(given, opts));
            assert(fields::fields_of(res) == model::response_fields(given, opts));
            directives::lemma_put_well_formed(res_cc@, "no-cache"@);
        }
        // When the Cache-Control header field is not present in a request, caches MUST consider the
        // no-cache request pragma-directive as having the same effect as if "Cache-Control: no-cache"
        // were present (see Section 5.2.1).
        if !fields::map_contains(&res, "cache-control") && has_pragma_no_cache(&res) {
            res_cc.set_flag("no-cache");
        }
        Some(CachePolicy { status, method, res, req, res_cc, req_cc, opts, uri })
    }

    /// The request that the policy holds, without its body.
    pub fn request(&self) -> (r: RequestParts)
        ensures
            r.model() == self@.request(),
    {
        RequestParts {
            method: self.method.clone(),
            uri: self.uri.clone(),
            headers: fields::map_clone(&self.req),
        }
    }

    /// The response that the policy holds, without its body.
    pub fn response(&self) -> (r: ResponseParts)
        ensures
            r.model() == self@.response(),
    {
        ResponseParts { status: self.status, headers: fields::map_clone(&self.res) }
    }

    /// The options that the policy was made with.
    pub fn options(&self) -> (r: CachePolicyOptions)
        ensures
            r == self@.opts,
    {
        self.opts
    }

    /// The cache directives that apply to the response.
    pub fn response_directives(&self) -> (r: Vec<(String, Option<String>)>)
        ensures
            directives::entry_views(r@) == self@.res_cc,
    {
        self.res_cc.list()
    }

    /// The cache directives of the request.
    pub fn request_directives(&self) -> (r: Vec<(String, Option<String>)>)
        ensures
            directives::entry_views(r@) == self@.req_cc,
    {
        self.req_cc.list()
    }

    /// Returns `true` if the response can be stored in a cache. If it's
    /// `false` then you MUST NOT store either the request or the response.
    pub fn is_storable(&self) -> (r: bool)
        ensures
            r == self@.storable(),
    {
        proof {
            fields::lemma_known_names();
        }
        // The "no-store" request directive indicates that a cache MUST NOT store any part of either
        // this request or any response to it.
        !self.req_cc.contains_key("no-store")
        // A cache MUST NOT store a response to any request, unless:
        // The request method is understood by the cache and defined as being cacheable, and

            && (text::text_equal(self.method.as_str(), "GET") || text::text_equal(
            self.method.as_str(),
            "HEAD",
        ) || (text::text_equal(self.method.as_str(), "POST") && self.has_explicit_expiration()))
        // the response status code is understood by the cache, and

            && is_understood(self.status)
        // the "no-store" cache directive does not appear in request or response header fields, and

            && !self.res_cc.contains_key("no-store")
        // the "private" response directive does not appear in the response, if the cache is shared,
        // and

            && (!self.opts.shared || !self.res_cc.contains_key("private"))
        // the Authorization header field does not appear in the request, if the cache is shared,

            && (!self.opts.shared || !fields::map_contains(&self.req, "authorization")
            || self.allows_storing_authenticated())
        // the response either:
        // contains an Expires header field, or
        // contains a max-age response directive, or
        // contains a s-maxage response directive and the cache is shared, or
        // contains a public response directive, or
        // has a status code that is defined as cacheable by default

            && (fields::map_contains(&self.res, "expires") || self.res_cc.contains_key("max-age") || (
        self.opts.shared && self.res_cc.contains_key("s-maxage")) || self.res_cc.contains_key("public")
            || is_cacheable_by_default(self.status))
    }

    fn has_explicit_expiration(&self) -> (r: bool)
        ensures
            r == self@.has_explicit_expiration(),
    {
        proof {
            fields::lemma_known_names();
        }
        // 4.2.1 Calculating Freshness Lifetime
        (self.opts.shared && self.res_cc.contains_key("s-maxage")) || self.res_cc.contains_key("max-age")
            || fields::map_contains(&self.res, "expires")
    }

    fn allows_storing_authenticated(&self) -> (r: bool)
        ensures
            r == self@.allows_storing_authenticated(),
    {
        // following Cache-Control response directives (Section 5.2.2) have such an effect:
        // must-revalidate, public, and s-maxage.
        self.res_cc.contains_key("must-revalidate") || self.res_cc.contains_key("public")
            || self.res_cc.contains_key("s-maxage")
    }
}

// ---------------------------------------------------------------------------
// Age and freshness
// ---------------------------------------------------------------------------

/// The date that a field writes, in seconds since the Unix epoch.
fn date_in(headers: &HeaderMap, name: &str) -> (r: Option<i64>)
    requires
        is_ascii_chars(name@),
    ensures
        r == model::field_date(fields::fields_of(*headers), fields::looked_up(name@)),
{
    match fields::get_str(headers, name) {
        Some(t) => dates::parse_rfc2822(t.as_str()),
        None => None,
    }
}

/// The instant of a number of seconds since the Unix epoch, or the epoch where that is later.
fn instant_after_epoch(secs: i64) -> (r: SystemTime)
    ensures
        r@ == time::seconds(time::max(secs as int, 0)),
{
    if secs < 0 {
        SystemTime::from_unix(0, 0)
    } else {
        SystemTime::from_unix(secs, 0)
    }
}

impl CachePolicy {
    /// The dates that the response writes.
    fn dates(&self) -> (r: Dates)
        ensures
            r == self@.dates(),
    {
        proof {
            fields::lemma_known_names();
        }
        Dates {
            date: date_in(&self.res, "date"),
            expires: date_in(&self.res, "expires"),
            last_modified: date_in(&self.res, "last-modified"),
        }
    }

    /// When the server sent the response, if `date` is what its `Date` header says, in seconds
    /// since the Unix epoch. A date before the epoch, or one that is 8 hours or more away from
    /// when the response was received, counts for nothing.
    pub fn server_date_given(&self, date: Option<i64>) -> (r: SystemTime)
        ensures
            r@ == self@.server_date_given(date),
    {
        if let Some(secs) = date {
            if secs >= 0 {
                let date = SystemTime::from_unix(secs, 0);
                let max_clock_drift = Duration::from_secs(8 * 3600);
                let clock_drift = if self.opts.response_time.is_after(date) {
                    self.opts.response_time.since(date)
                } else {
                    date.since(self.opts.response_time)
                };
                if max_clock_drift.exceeds(clock_drift.unwrap()) {
                    return date;
                }
            }
        }
        self.opts.response_time
    }

    /// Value of the Date response header, or the time of the response if Date is not trusted or
    /// was deemed invalid, if `date` is what that header says.
    fn date_given(&self, date: Option<i64>) -> (r: SystemTime)
        ensures
            r@ == self@.date_given(date),
    {
        if self.opts.trust_server_date {
            self.server_date_given(date)
        } else {
            self.opts.response_time
        }
    }

    fn age_header(&self) -> (r: Duration)
        ensures
            r@ == time::seconds(self@.age_header()),
    {
        proof {
            fields::lemma_known_names();
        }
        match fields::get_str(&self.res, "age") {
            Some(t) => match text::parse_number(t.as_str()) {
                Some(n) => Duration::from_secs(n),
                None => Duration::from_secs(0),
            },
            None => Duration::from_secs(0),
        }
    }

    /// The age at `now`, if `date` is what the `Date` header says; `None` where it is more than a
    /// [`Duration`] can hold.
    pub fn checked_age_given(&self, now: SystemTime, date: Option<i64>) -> (r: Option<Duration>)
        ensures
            match r {
                Some(age) => age@ == self@.age_given(now@, date) && age@ <= time::max_duration(),
                None => self@.age_given(now@, date) > time::max_duration(),
            },
    {
        let mut age = self.age_header();
        if let Some(since_date) = self.opts.response_time.since(self.date_given(date)) {
            age = age.longer(since_date);
        }
        if let Some(resident_time) = now.since(self.opts.response_time) {
            age.checked_plus(resident_time)
        } else {
            Some(age)
        }
    }

    /// Value of the Age header, in seconds, updated for the current time.
    pub fn age(&self, now: SystemTime) -> (r: Duration)
        requires
            self@.age(now@) <= time::max_duration(),
        ensures
            r@ == self@.age(now@),
    {
        self.checked_age_given(now, self.dates().date).unwrap()
    }

    /// The age at `now`; `None` where it is more than a [`Duration`] can hold.
    pub fn checked_age(&self, now: SystemTime) -> (r: Option<Duration>)
        ensures
            match r {
                Some(age) => age@ == self@.age(now@) && age@ <= time::max_duration(),
                None => self@.age(now@) > time::max_duration(),
            },
    {
        if self.checked_age_given(now, self.dates().date).is_some() {
            Some(self.age(now))
        } else {
            None
        }
    }

    /// Value of applicable max-age (or heuristic equivalent), if `d` is what the dates of the
    /// response say.
    pub fn max_age_given(&self, d: Dates) -> (r: Duration)
        ensures
            r@ == self@.max_age_given(d),
    {
        proof {
            use_type_invariant(self);
            fields::lemma_known_names();
            directives::lemma_argument_visible(self.res_cc@, "s-maxage"@);
            directives::lemma_argument_visible(self.res_cc@, "max-age"@);
            time::lemma_duration_nonnegative(self.opts.immutable_min_time_to_live);
        }
        if !self.is_storable() || self.res_cc.contains_key("no-cache") {
            return Duration::from_secs(0);
        }
        // Shared responses with cookies are cacheable according to the RFC, but it'd be unwise to do
        // so by default, so explicit opt-in via public header is required
        if self.opts.shared && (fields::map_contains(&self.res, "set-cookie")
            && !self.res_cc.contains_key("public") && !self.res_cc.contains_key("immutable")) {
            return Duration::from_secs(0);
        }
        if let Some(vary) = fields::get_str(&self.res, "vary") {
            if text::text_equal(text::trim(vary.as_str()), "*") {
                return Duration::from_secs(0);
            }
        }
        if self.opts.shared {
            if self.res_cc.contains_key("proxy-revalidate") {
                return Duration::from_secs(0);
            }
            // if a response includes the s-maxage directive, a shared cache recipient MUST ignore the
            // Expires field.
            if let Some(s_max) = self.res_cc.argument("s-maxage") {
                return seconds_or_none(s_max.as_str());
            }
        }
        // If a response includes a Cache-Control field with the max-age directive, a recipient MUST
        // ignore the Expires field.
        if let Some(max_age) = self.res_cc.argument("max-age") {
            return seconds_or_none(max_age.as_str());
        }
        let default_min_ttl = if self.res_cc.contains_key("immutable") {
            self.opts.immutable_min_time_to_live
        } else {
            Duration::from_secs(0)
        };
        let server_date = self.server_date_given(d.date);
        if fields::get_str(&self.res, "expires").is_some() {
            return match d.expires {
                // A cache recipient MUST interpret invalid date formats, especially the value "0", as
                // representing a time in the past (i.e., "already expired").
                None => Duration::from_secs(0),
                Some(expires) => match instant_after_epoch(expires).since(server_date) {
                    Some(left) => default_min_ttl.longer(left),
                    None => default_min_ttl,
                },
            };
        }
        if let Some(last_modified) = d.last_modified {
            if let Some(diff) = server_date.since(instant_after_epoch(last_modified)) {
                let secs_left: u64 = self.opts.cache_heuristic.scale(diff.as_secs());
                return default_min_ttl.longer(Duration::from_secs(secs_left));
            }
        }
        default_min_ttl
    }

    /// Value of applicable max-age (or heuristic equivalent) in seconds. This counts since response's
    /// `Date`.
    ///
    /// For an up-to-date value, see `time_to_live()`.
    pub fn max_age(&self) -> (r: Duration)
        ensures
            r@ == self@.max_age(),
    {
        self.max_age_given(self.dates())
    }

    /// Returns approximate time until the response becomes stale (i.e. not fresh).
    ///
    /// After that time (when `time_to_live() <= 0`) the response might not be
    /// usable without revalidation. However, there are exceptions, e.g. a
    /// client can explicitly allow stale responses, so always check with
    /// `satisfies_without_revalidation()`.
    pub fn time_to_live(&self, now: SystemTime) -> (r: Duration)
        requires
            self@.age(now@) <= time::max_duration(),
        ensures
            r@ == self@.time_to_live(now@),
    {
        self.max_age().minus(self.age(now))
    }

    /// The time until the response becomes stale; `None` where its age is more than a [`Duration`]
    /// can hold.
    pub fn checked_time_to_live(&self, now: SystemTime) -> (r: Option<Duration>)
        ensures
            match r {
                Some(left) => left@ == self@.time_to_live(now@) && self@.age(now@)
                    <= time::max_duration(),
                None => self@.age(now@) > time::max_duration(),
            },
    {
        if self.checked_age(now).is_some() {
            Some(self.time_to_live(now))
        } else {
            None
        }
    }

    /// Stale responses shouldn't be used without contacting the server (revalidation)
    pub fn is_stale(&self, now: SystemTime) -> (r: bool)
        requires
            self@.age(now@) <= time::max_duration(),
        ensures
            r == self@.stale(now@),
    {
        !self.max_age().exceeds(self.age(now))
    }

    /// Whether the response is stale; `None` where its age is more than a [`Duration`] can hold.
    pub fn checked_is_stale(&self, now: SystemTime) -> (r: Option<bool>)
        ensures
            match r {
                Some(stale) => stale == self@.stale(now@) && self@.age(now@) <= time::max_duration(),
                None => self@.age(now@) > time::max_duration(),
            },
    {
        if self.checked_age(now).is_some() {
            Some(self.is_stale(now))
        } else {
            None
        }
    }
}

/// The seconds that a directive counts, none where it does not write a number.
fn seconds_or_none(t: &str) -> (r: Duration)
    requires
        text::is_visible_text(t@),
    ensures
        r@ == time::seconds(model::number_or_zero(t@)),
{
    match text::parse_number(t) {
        Some(n) => Duration::from_secs(n),
        None => Duration::from_secs(0),
    }
}

// ---------------------------------------------------------------------------
// Reuse
// ---------------------------------------------------------------------------

impl CachePolicy {
    fn vary_matches<Req: RequestLike>(&self, req: &Req) -> (r: bool)
        ensures
            r == self@.vary_matches(req.model().fields),
    {
        proof {
            fields::lemma_known_names();
        }
        let names = fields::get_all_comma(&fields::map_get_all(&self.res, "vary"));
        let ghost parts = fields::comma_parts(fields::values(self@.res, "vary"@));
        let mut i: usize = 0;
        while i < names.len()
            invariant
                0 <= i <= names.len(),
                text::string_views(names@) == parts,
                forall|j: int| 0 <= j < names@.len() ==> text::is_visible_text((#[trigger] names@[j])@),
                forall|j: int|
                    0 <= j < i ==> (#[trigger] parts[j]) != "*"@ && fields::first_bytes(
                        req.model().fields,
                        fields::looked_up(parts[j]),
                    ) == fields::first_bytes(self@.req, fields::looked_up(parts[j])),
                parts == fields::comma_parts(fields::values(self@.res, "vary"@)),
            decreases names.len() - i,
        {
            proof {
                assert(parts[i as int] == names@[i as int]@);
                text::lemma_visible_is_ascii(names@[i as int]@);
            }
            // A Vary header field-value of "*" always fails to match
            if text::text_equal(names[i].as_str(), "*") {
                return false;
            }
            if !fields::same_first(req.headers(), &self.req, names[i].as_str()) {
                return false;
            }
            i = i + 1;
        }
        true
    }

    fn request_matches<Req: RequestLike>(&self, req: &Req, allow_head_method: bool) -> (r: bool)
        ensures
            r == self@.request_matches(req.model(), req.has_uri(self@.uri), allow_head_method),
    {
        proof {
            fields::lemma_known_names();
        }
        // The presented effective request URI and that of the stored response match, and
        req.is_same_uri(self.uri.as_str()) && fields::same_first(&self.req, req.headers(), "host")
        // the request method associated with the stored response allows it to be used for the
        // presented request, and

            && (text::text_equal(self.method.as_str(), req.method()) || (allow_head_method
            && text::text_equal("HEAD", req.method())))
        // selecting header fields nominated by the stored response (if any) match those presented

            && self.vary_matches(req)
    }

    /// Whether the response can be reused for the request at an age of `age`, if it is fresh up to
    /// an age of `max_age`.
    pub fn satisfies_given<Req: RequestLike>(
        &self,
        req: &Req,
        age: Duration,
        max_age: Duration,
    ) -> (r: bool)
        ensures
            r == self@.satisfies_given(req.model(), req.has_uri(self@.uri), age@, max_age@),
    {
        let req_headers = req.headers();
        // When presented with a request, a cache MUST NOT reuse a stored response, unless:
        // the presented request does not contain the no-cache pragma (Section 5.4), nor the no-cache
        // cache directive, unless the stored response is successfully validated (Section 4.3), and
        if forbids_cache(req_headers) {
            return false;
        }
        let req_cc = cache_control_of(req_headers);
        if let Some(limit) = req_cc.numeric("max-age") {
            if age.exceeds(Duration::from_secs(limit)) {
                return false;
            }
        }
        if let Some(min_fresh) = req_cc.numeric("min-fresh") {
            if Duration::from_secs(min_fresh).exceeds(max_age.minus(age)) {
                return false;
            }
        }
        // the stored response is either:
        // fresh, or allowed to be served stale
        if !max_age.exceeds(age) {
            // If no value is assigned to max-stale, then the client is willing to accept a stale
            // response of any age.
            let allows_stale = !self.res_cc.contains_key("must-revalidate") && req_cc.contains_key(
                "max-stale",
            ) && match req_cc.numeric("max-stale") {
                Some(limit) => Duration::from_secs(limit).exceeds(age.minus(max_age)),
                None => true,
            };
            if !allows_stale {
                return false;
            }
        }
        self.request_matches(req, false)
    }

    /// Returns whether the cached response is still fresh in the context of
    /// the new request.
    ///
    /// If it returns `true`, then the given request matches the original
    /// response this cache policy has been created with, and the response can
    /// be reused without contacting the server.
    ///
    /// If it returns `false`, then the response may not be matching at all
    /// (e.g. it's for a different URL or method), or may require to be
    /// refreshed first.
    pub fn satisfies_without_revalidation<Req: RequestLike>(&self, req: &Req, now: SystemTime) -> (r:
        bool)
        requires
            model::forbids_cache(req.model().fields) || self@.age(now@) <= time::max_duration(),
        ensures
            r == self@.satisfies(req.model(), req.has_uri(self@.uri), now@),
    {
        if forbids_cache(req.headers()) {
            return false;
        }
        self.satisfies_given(req, self.age(now), self.max_age())
    }

    /// Whether the response can be reused for the request; `None` where that turns on an age that
    /// is more than a [`Duration`] can hold.
    pub fn checked_satisfies_without_revalidation<Req: RequestLike>(
        &self,
        req: &Req,
        now: SystemTime,
    ) -> (r: Option<bool>)
        ensures
            match r {
                Some(reusable) => reusable == self@.satisfies(
                    req.model(),
                    req.has_uri(self@.uri),
                    now@,
                ) && (model::forbids_cache(req.model().fields) || self@.age(now@)
                    <= time::max_duration()),
                None => !model::forbids_cache(req.model().fields) && self@.age(now@)
                    > time::max_duration(),
            },
    {
        if forbids_cache(req.headers()) || self.checked_age(now).is_some() {
            Some(self.satisfies_without_revalidation(req, now))
        } else {
            None
        }
    }

    /// The response to hand out of the cache at an age of `age`, if it is fresh up to an age of
    /// `max_age`. Its `Date` header is set to `date`. `None` where the header map is full.
    pub fn checked_cached_response_given(&self, age: Duration, max_age: Duration, date: &str) -> (r:
        Option<ResponseParts>)
        requires
            text::is_visible_text(date@),
        ensures
            fields::has_room(self@.res, 3) ==> r is Some,
            r matches Some(parts) ==> parts.model() == self@.cached_response_given(
                age@,
                max_age@,
                date@,
            ),
    {
        proof {
            fields::lemma_known_names();
            forwarding::lemma_passed_on_names(self@.res);
            reveal_strlit("113 - \"rfc7234 5.5.4\"");
        }
        let mut headers = match forwarding::copy_without_hop_by_hop_headers(&self.res) {
            Some(headers) => headers,
            None => {
                return None;
            },
        };
        let day = Duration::from_secs(3600 * 24);
        proof {
            if fields::has_room(self@.res, 3) {
                fields::lemma_room_of_part(fields::fields_of(headers), self@.res, 3);
            }
        }
        // A cache SHOULD generate 113 warning if it heuristically chose a freshness
        // lifetime greater than 24 hours and the response's age is greater than 24 hours.
        if age.exceeds(day) && !self.has_explicit_expiration() && max_age.exceeds(day) {
            if !fields::map_append(
                &mut headers,
                "warning",
                FieldValue::from_text("113 - \"rfc7234 5.5.4\""),
            ) {
                return None;
            }
        }
        let seconds: u64 = if age.as_secs() <= 0xFFFF_FFFF {
            age.as_secs()
        } else {
            0xFFFF_FFFF
        };
        let age_text = text::decimal_text(seconds);
        proof {
            text::lemma_decimal(seconds as nat);
        }
        if fields::map_insert(&mut headers, "age", FieldValue::from_text(age_text.as_str()))
            && fields::map_insert(&mut headers, "date", FieldValue::from_text(date)) {
            Some(ResponseParts { status: self.status, headers })
        } else {
            None
        }
    }

    /// Updates and filters the response headers for a cached response before
    /// returning it to a client. This function is necessary, because proxies
    /// MUST always remove hop-by-hop headers (such as TE and Connection) and
    /// update response's Age to avoid doubling cache time.
    ///
    /// It returns response "parts" without a body.
    pub fn cached_response(&self, now: SystemTime) -> (r: ResponseParts)
        requires
            self@.age(now@) <= time::max_duration(),
            dates::is_writable(now@ / time::seconds(1)),
            fields::has_room(self@.res, 3),
        ensures
            r.model() == self@.cached_response(now@),
            model::field_date(r.model().fields, "date"@) == Some((now@ / time::seconds(1)) as i64),
    {
        let (timestamp, _) = now.to_unix();
        let date = dates::format_rfc2822(timestamp);
        proof {
            fields::lemma_text_value(date@);
        }
        self.checked_cached_response_given(self.age(now), self.max_age(), date.as_str()).unwrap()
    }

    /// The response to hand out of the cache; `None` where its age is more than a [`Duration`] can
    /// hold, where `now` has no four-digit year from 1970 on, or where the header map is full.
    pub fn checked_cached_response(&self, now: SystemTime) -> (r: Option<ResponseParts>)
        ensures
            self@.age(now@) <= time::max_duration() && dates::is_writable(now@ / time::seconds(1))
                && fields::has_room(self@.res, 3) ==> r is Some,
            r is Some ==> self@.age(now@) <= time::max_duration() && dates::is_writable(
                now@ / time::seconds(1),
            ),
            r matches Some(parts) ==> parts.model() == self@.cached_response(now@)
                && model::field_date(parts.model().fields, "date"@) == Some(
                (now@ / time::seconds(1)) as i64,
            ),
    {
        let (timestamp, _) = now.to_unix();
        if timestamp < 0 || timestamp >= 253_402_300_800 || self.checked_age(now).is_none() {
            return None;
        }
        if fields::map_has_room(&self.res, 3) {
            return Some(self.cached_response(now));
        }
        let date = dates::format_rfc2822(timestamp);
        proof {
            fields::lemma_text_value(date@);
        }
        self.checked_cached_response_given(self.age(now), self.max_age(), date.as_str())
    }
}

// ---------------------------------------------------------------------------
// Revalidation
// ---------------------------------------------------------------------------

/// Those of the entity tags that are not weak, as one text.
fn strong_etags(headers: &HeaderMap) -> (r: String)
    ensures
        r@ == text::joined(
            model::strong(
                fields::comma_parts(
                    fields::values(fields::fields_of(*headers), "if-none-match"@),
                ),
            ),
        ),
        text::is_visible_text(r@),
{
    proof {
        fields::lemma_known_names();
        reveal_strlit("W/");
    }
    let parts = fields::get_all_comma(&fields::map_get_all(headers, "if-none-match"));
    let ghost all = text::string_views(parts@);
    let mut kept: Vec<String> = Vec::new();
    let mut i: usize = 0;
    proof {
        assert(all.take(0) =~= Seq::<Seq<char>>::empty());
        assert(text::string_views(kept@) =~= Seq::<Seq<char>>::empty());
    }
    while i < parts.len()
        invariant
            0 <= i <= parts.len(),
            all == text::string_views(parts@),
            text::is_visible_text("W/"@),
            forall|j: int| 0 <= j < parts@.len() ==> text::is_visible_text((#[trigger] parts@[j])@),
            forall|j: int| 0 <= j < kept@.len() ==> text::is_visible_text((#[trigger] kept@[j])@),
            text::string_views(kept@) == model::strong(all.take(i as int)),
        decreases parts.len() - i,
    {
        let ghost before = text::string_views(kept@);
        proof {
            assert(all.take(i + 1).drop_last() =~= all.take(i as int));
            assert(all.take(i + 1).last() == parts@[i as int]@);
        }
        if !text::starts_with(parts[i].as_str(), "W/") {
            kept.push(parts[i].clone());
            proof {
                assert(text::string_views(kept@) =~= before.push(parts@[i as int]@));
            }
        }
        i = i + 1;
    }
    let r = text::join(&kept);
    proof {
        assert(all.take(i as int) =~= all);
        text::lemma_joined_visible(text::string_views(kept@));
    }
    r
}

impl CachePolicy {
    /// Headers for sending to the origin server to revalidate stale response.
    /// Allows server to return 304 to allow reuse of the previous response.
    ///
    /// Hop by hop headers are always stripped.
    /// Revalidation headers may be added or removed, depending on request.
    ///
    /// It returns request "parts" without a body.
    pub fn revalidation_request<Req: RequestLike>(&self, incoming_req: &Req) -> (r: RequestParts)
        requires
            fields::has_room(incoming_req.model().fields, 2),
        ensures
            r.model() == self@.revalidation_request(
                incoming_req.model(),
                incoming_req.has_uri(self@.uri),
            ),
    {
        self.checked_revalidation_request(incoming_req).unwrap()
    }

    /// Headers for revalidation; `None` where the header map is full.
    pub fn checked_revalidation_request<Req: RequestLike>(&self, incoming_req: &Req) -> (r: Option<
        RequestParts,
    >)
        ensures
            fields::has_room(incoming_req.model().fields, 2) ==> r is Some,
            r matches Some(parts) ==> parts.model() == self@.revalidation_request(
                incoming_req.model(),
                incoming_req.has_uri(self@.uri),
            ),
    {
        let ghost f = incoming_req.model().fields;
        proof {
            fields::lemma_known_names();
            forwarding::lemma_passed_on_names(f);
        }
        let mut headers = match forwarding::copy_without_hop_by_hop_headers(incoming_req.headers()) {
            Some(headers) => headers,
            None => {
                return None;
            },
        };
        // Range requests are not understood
        fields::map_remove(&mut headers, "if-range");
        if !self.request_matches(incoming_req, true) || !self.is_storable() {
            // revalidation allowed via HEAD
            // not for the same resource, or wasn't allowed to be cached anyway
            fields::map_remove(&mut headers, "if-none-match");
            fields::map_remove(&mut headers, "if-modified-since");
            return Some(self.request_from_headers(headers));
        }
        proof {
            if fields::has_room(f, 2) {
                fields::lemma_room_of_part(fields::fields_of(headers), f, 2);
            }
        }
        // MUST send that entity-tag in any cache validation request (using If-Match or If-None-Match) if
        // an entity-tag has been provided by the origin server.
        if let Some(etag) = fields::get_str(&self.res, "etag") {
            let mut tags = fields::get_all_comma(&fields::map_get_all(&headers, "if-none-match"));
            let ghost before = text::string_views(tags@);
            tags.push(etag);
            let if_none = text::join(&tags);
            proof {
                assert(text::string_views(tags@) =~= before.push(etag@));
                text::lemma_joined_visible(text::string_views(tags@));
            }
            if !fields::map_insert(
                &mut headers,
                "if-none-match",
                FieldValue::from_text(if_none.as_str()),
            ) {
                return None;
            }
        }
        // Clients MAY issue simple (non-subrange) GET requests with either weak validators or strong
        // validators. Clients MUST NOT use weak validators in other forms of request.
        let forbids_weak_validators = !text::text_equal(self.method.as_str(), "GET")
            || fields::map_contains(&headers, "accept-ranges") || fields::map_contains(
            &headers,
            "if-match",
        ) || fields::map_contains(&headers, "if-unmodified-since");
        // SHOULD send the Last-Modified value in non-subrange cache validation requests (using
        // If-Modified-Since) if only a Last-Modified value has been provided by the origin server.
        // Note: partial responses (206) are not understood
        if forbids_weak_validators {
            let etags = strong_etags(&headers);
            fields::map_remove(&mut headers, "if-modified-since");
            if text::ascii_len(etags.as_str()) == 0 {
                fields::map_remove(&mut headers, "if-none-match");
            } else if !fields::map_insert(
                &mut headers,
                "if-none-match",
                FieldValue::from_text(etags.as_str()),
            ) {
                return None;
            }
        } else if !fields::map_contains(&headers, "if-modified-since") {
            if let Some(last_modified) = fields::get_str(&self.res, "last-modified") {
                if !fields::map_insert(
                    &mut headers,
                    "if-modified-since",
                    FieldValue::from_text(last_modified.as_str()),
                ) {
                    return None;
                }
            }
        }
        Some(self.request_from_headers(headers))
    }

    fn request_from_headers(&self, headers: HeaderMap) -> (r: RequestParts)
        ensures
            r.model() == (message::RequestModel {
                method: self@.method,
                uri: self@.uri,
                fields: fields::fields_of(headers),
            }),
    {
        RequestParts { method: self.method.clone(), uri: self.uri.clone(), headers }
    }
}

/// New policy and flags
#[derive(Debug)]
pub struct RevalidatedPolicy {
    /// New policy with new headers
    pub policy: CachePolicy,
    /// Boolean indicating whether the response body has changed.
    ///
    /// If `false`, then a valid 304 Not Modified response has been received, and you can reuse the
    /// old cached response body. If `true`, you should use new response's body (if present), or make
    /// another request to the origin server without any conditional headers (i.e. don't use
    /// `revalidation_request()` this time) to get the new resource.
    pub modified: bool,
    /// Whether the new response is about the stored one, which it then updates.
    pub matches: bool,
}

/// The text of a field without the blanks around it.
fn get_trimmed(headers: &HeaderMap, name: &str) -> (r: Option<String>)
    requires
        is_ascii_chars(name@),
    ensures
        fields::option_text(r) == model::trimmed_text(
            fields::fields_of(*headers),
            fields::looked_up(name@),
        ),
        r matches Some(s) ==> text::is_visible_text(s@),
{
    match fields::get_str(headers, name) {
        Some(s) => Some(text::trim(s.as_str()).to_owned()),
        None => None,
    }
}

impl CachePolicy {
    /// Whether the answer says that the stored response is still good.
    fn is_confirmed_by<Res: ResponseLike>(&self, response: &Res) -> (r: bool)
        ensures
            r == self@.is_confirmed_by(response.model()),
    {
        proof {
            fields::lemma_known_names();
            reveal_strlit("W/");
        }
        let response_headers = response.headers();
        let old_etag = get_trimmed(&self.res, "etag");
        let new_etag = get_trimmed(response_headers, "etag");
        let old_last_modified = get_trimmed(&self.res, "last-modified");
        let new_last_modified = get_trimmed(response_headers, "last-modified");
        if response.status() != 304 {
            return false;
        }
        match (old_etag, new_etag) {
            (old, Some(new)) if !text::starts_with(new.as_str(), "W/") => {
                // "All of the stored responses with the same strong validator are selected.
                // If none of the stored responses contain the same strong validator,
                // then the cache MUST NOT use the new response to update any stored responses."
                match old {
                    Some(old) => text::text_equal(
                        text::strip_weak_marks(old.as_str()),
                        new.as_str(),
                    ),
                    None => false,
                }
            },
            (Some(old), Some(new)) => {
                // "If the new response contains a weak validator and that validator corresponds
                // to one of the cache's stored responses,
                // then the most recent of those matching stored responses is selected for update."
                text::text_equal(
                    text::strip_weak_marks(old.as_str()),
                    text::strip_weak_marks(new.as_str()),
                )
            },
            (old, new) => match (old_last_modified, new_last_modified) {
                (Some(old_date), Some(new_date)) => text::text_equal(
                    old_date.as_str(),
                    new_date.as_str(),
                ),
                (None, None) => {
                    // If the new response does not contain any form of validator (such as in the case
                    // where a client generates an If-Modified-Since request from a source other than
                    // the Last-Modified response header field), and there is only one stored response,
                    // and that stored response also lacks a validator, then that stored response is
                    // selected for update.
                    old.is_none() && new.is_none()
                },
                _ => false,
            },
        }
    }

    /// Creates `CachePolicy` with information combined from the previous response,
    /// and the new revalidation response.
    ///
    /// Returns `{policy, modified}` where modified is a boolean indicating
    /// whether the response body has been modified, and old cached body can't be used.
    pub fn revalidated_policy<Req: RequestLike, Res: ResponseLike>(
        &self,
        request: &Req,
        response: &Res,
        response_time: SystemTime,
    ) -> (r: RevalidatedPolicy)
        requires
            self@.has_room_for(response.model()),
        ensures
            r.policy@ == model::policy_for(
                request.model(),
                self@.revalidated_response(response.model()),
                (CachePolicyOptions { response_time, ..self@.opts }),
            ),
            r.modified == (response.model().status != 304),
            r.matches == self@.is_confirmed_by(response.model()),
    {
        self.checked_revalidated_policy(request, response, response_time).unwrap()
    }

    /// The policy after revalidation; `None` where a header map is full.
    pub fn checked_revalidated_policy<Req: RequestLike, Res: ResponseLike>(
        &self,
        request: &Req,
        response: &Res,
        response_time: SystemTime,
    ) -> (r: Option<RevalidatedPolicy>)
        ensures
            self@.has_room_for(response.model()) ==> r is Some,
            r matches Some(revalidated) ==> {
                &&& revalidated.policy@ == model::policy_for(
                    request.model(),
                    self@.revalidated_response(response.model()),
                    CachePolicyOptions { response_time, ..self@.opts },
                )
                &&& revalidated.modified == (response.model().status != 304)
                &&& revalidated.matches == self@.is_confirmed_by(response.model())
            },
    {
        let matches = self.is_confirmed_by(response);
        let modified = response.status() != 304;
        let new_response = if matches {
            match updating::updated_headers(&self.res, response.headers()) {
                Some(headers) => ResponseParts { status: self.status, headers },
                None => {
                    return None;
                },
            }
        } else {
            ResponseParts {
                status: response.status(),
                headers: fields::map_clone(response.headers()),
            }
        };
        let mut new_options = self.opts;
        new_options.response_time = response_time;
        proof {
            assert(matches ==> model::updated(self@.res, response.model().fields).dom()
                =~= self@.res.dom());
        }
        match CachePolicy::checked_new(request, &new_response, new_options) {
            Some(policy) => Some(
                RevalidatedPolicy {
                    policy,
                    // Client receiving 304 without body, even if it's invalid/mismatched has no option
                    // but to reuse a cached body. We don't have a good way to tell clients to do
                    // error recovery in such case.
                    modified,
                    matches,
                },
            ),
            None => None,
        }
    }
}

} // verus!
