//! What is stored, how long it is fresh, and for which requests it is reused.

use vstd::prelude::*;

use crate::directives;
use crate::fields;
use crate::message::{RequestModel, ResponseModel};
use crate::model;
use crate::model::{Dates, PolicyModel};
use crate::options::CachePolicyOptions;
use crate::time;

verus! {

// ---------------------------------------------------------------------------
// Storing
// ---------------------------------------------------------------------------

/// A response that must not be kept is not storable: where `no-store` stands in the request or in
/// the response; in a shared cache, where the response is `private`, or answers an authenticated
/// request without allowing that; where the method or the status is not understood; and where a
/// `POST` is answered without saying how long the answer is fresh.
pub proof fn law_what_is_not_stored(p: PolicyModel)
    requires
        ({
            ||| directives::holds(p.req_cc, "no-store"@)
            ||| p.says("no-store"@)
            ||| p.opts.shared && p.says("private"@)
            ||| p.opts.shared && p.req.dom().contains("authorization"@)
                && !p.allows_storing_authenticated()
            ||| p.method != "GET"@ && p.method != "HEAD"@ && p.method != "POST"@
            ||| p.method == "POST"@ && !p.has_explicit_expiration()
            ||| !model::is_understood(p.status)
        }),
    ensures
        !p.storable(),
{
    reveal_strlit("GET");
    reveal_strlit("HEAD");
    reveal_strlit("POST");
    assert("GET"@.len() != "POST"@.len());
    assert("HEAD"@[0] != "POST"@[0]);
}

/// A policy with one directive taken out of its response.
pub open spec fn without_directive(p: PolicyModel, name: Seq<char>) -> PolicyModel {
    PolicyModel { res_cc: directives::without(p.res_cc, name), ..p }
}

/// A directive that speaks to shared caches alone.
pub open spec fn is_for_shared_caches(name: Seq<char>) -> bool {
    ||| name == "private"@
    ||| name == "s-maxage"@
    ||| name == "proxy-revalidate"@
}

/// The names of the directives that are told apart are different.
proof fn lemma_directive_names(name: Seq<char>)
    requires
        is_for_shared_caches(name),
    ensures
        name != "max-age"@,
        name != "no-store"@,
        name != "no-cache"@,
        name != "public"@,
        name != "immutable"@,
{
    reveal_strlit("private");
    reveal_strlit("s-maxage");
    reveal_strlit("proxy-revalidate");
    reveal_strlit("max-age");
    reveal_strlit("no-store");
    reveal_strlit("no-cache");
    reveal_strlit("public");
    reveal_strlit("immutable");
    assert("private"@.len() == 7 && "s-maxage"@.len() == 8 && "proxy-revalidate"@.len() == 16);
    assert("max-age"@.len() == 7 && "no-store"@.len() == 8 && "no-cache"@.len() == 8);
    assert("public"@.len() == 6 && "immutable"@.len() == 9);
    assert("private"@[0] != "max-age"@[0]);
    assert("s-maxage"@[0] != "no-store"@[0]);
    assert("s-maxage"@[0] != "no-cache"@[0]);
}

/// In a cache that is not shared, `private`, `s-maxage` and `proxy-revalidate` change nothing: the
/// response is storable, and fresh for as long, as without them.
pub proof fn law_single_user_cache_ignores(p: PolicyModel, name: Seq<char>, d: Dates)
    requires
        !p.opts.shared,
        is_for_shared_caches(name),
        directives::distinct(p.res_cc),
    ensures
        without_directive(p, name).storable() == p.storable(),
        without_directive(p, name).max_age_given(d) == p.max_age_given(d),
{
    lemma_directive_names(name);
    directives::lemma_without_has(p.res_cc, name, "max-age"@);
    directives::lemma_without_has(p.res_cc, name, "no-store"@);
    directives::lemma_without_has(p.res_cc, name, "no-cache"@);
    directives::lemma_without_has(p.res_cc, name, "public"@);
    directives::lemma_without_has(p.res_cc, name, "immutable"@);
    assert(p.storable() == without_directive(p, name).storable());
    assert(p.is_never_fresh() == without_directive(p, name).is_never_fresh());
}

// ---------------------------------------------------------------------------
// Freshness
// ---------------------------------------------------------------------------

/// No age, no lifetime and no time left is negative.
pub proof fn law_spans_are_not_negative(p: PolicyModel, now: int)
    ensures
        0 <= p.age(now),
        0 <= p.max_age(),
        0 <= p.time_to_live(now),
{
    time::lemma_duration_nonnegative(p.opts.immutable_min_time_to_live);
}

/// A response that is never fresh, such as one that is not storable, is fresh for no time and is
/// stale at every instant.
pub proof fn law_never_fresh_is_stale(p: PolicyModel, now: int)
    requires
        p.is_never_fresh(),
    ensures
        p.max_age() == 0,
        p.time_to_live(now) == 0,
        p.stale(now),
{
    law_spans_are_not_negative(p, now);
}

/// A response is stale exactly where no time is left to it.
pub proof fn law_stale_has_no_time_left(p: PolicyModel, now: int)
    ensures
        p.stale(now) <==> p.time_to_live(now) == 0,
{
}

/// A response does not get younger, the time left to it does not grow, and it does not become fresh
/// again.
pub proof fn law_time_passes(p: PolicyModel, now: int, later: int)
    requires
        now <= later,
    ensures
        p.age(now) <= p.age(later),
        p.time_to_live(later) <= p.time_to_live(now),
        p.stale(now) ==> p.stale(later),
{
}

/// From when the response was received on, its age grows with the time that passes.
pub proof fn law_age_counts_time(p: PolicyModel, now: int, passed: int)
    requires
        p.opts.response_time@ <= now,
        0 <= passed,
    ensures
        p.age(now + passed) == p.age(now) + passed,
{
}

/// From when the response was received on, the time left to it is the time until it becomes stale.
pub proof fn law_time_to_live_ends_freshness(p: PolicyModel, now: int, passed: int)
    requires
        p.opts.response_time@ <= now,
        0 <= passed,
    ensures
        p.stale(now + passed) <==> p.time_to_live(now) <= passed,
{
    law_age_counts_time(p, now, passed);
}

/// Where the date of the server is not trusted, the age does not depend on it.
pub proof fn law_untrusted_date_is_ignored(
    p: PolicyModel,
    now: int,
    date: Option<i64>,
    other: Option<i64>,
)
    requires
        !p.opts.trust_server_date,
    ensures
        p.age_given(now, date) == p.age_given(now, other),
{
}

/// The date of the server is off from when the response was received by less than eight hours.
pub proof fn law_server_date_is_near(p: PolicyModel, date: Option<i64>)
    ensures
        -model::max_clock_drift() < p.opts.response_time@ - p.server_date_given(date)
            < model::max_clock_drift(),
{
}

/// `s-maxage` decides in a shared cache, then `max-age`, whatever the dates and other directives
/// say of how long the response is fresh.
pub proof fn law_explicit_lifetime_decides(p: PolicyModel, d: Dates)
    requires
        !p.is_never_fresh(),
    ensures
        ({
            let shared = if p.opts.shared {
                directives::argument(p.res_cc, "s-maxage"@)
            } else {
                None
            };
            &&& shared matches Some(v) ==> p.max_age_given(d) == time::seconds(
                model::number_or_zero(v),
            )
            &&& shared is None ==> (directives::argument(p.res_cc, "max-age"@) matches Some(v)
                ==> p.max_age_given(d) == time::seconds(model::number_or_zero(v)))
        }),
{
}

/// An immutable response whose lifetime no directive gives is fresh for at least as long as the
/// options say, unless `expires` is there without writing a date.
pub proof fn law_immutable_is_fresh_for_long(p: PolicyModel, d: Dates)
    requires
        !p.is_never_fresh(),
        p.says("immutable"@),
        !(p.opts.shared && directives::argument(p.res_cc, "s-maxage"@) is Some),
        directives::argument(p.res_cc, "max-age"@) is None,
        fields::field_text(p.res, "expires"@) is Some ==> d.expires is Some,
    ensures
        p.opts.immutable_min_time_to_live@ <= p.max_age_given(d),
{
}

// ---------------------------------------------------------------------------
// Reuse
// ---------------------------------------------------------------------------

/// A response that can be reused matches the request, and is fresh unless the request accepts a
/// stale one and the response does not forbid that.
pub proof fn law_reused_response_matches(p: PolicyModel, req: RequestModel, same_uri: bool, now: int)
    requires
        p.satisfies(req, same_uri, now),
    ensures
        same_uri,
        p.method == req.method,
        fields::first_bytes(p.req, "host"@) == fields::first_bytes(req.fields, "host"@),
        p.vary_matches(req.fields),
        !model::forbids_cache(req.fields),
        !p.stale(now) || (!p.says("must-revalidate"@) && directives::holds(
            directives::parsed(fields::values(req.fields, "cache-control"@)),
            "max-stale"@,
        )),
{
}

/// A request that asks for an answer that is not from the cache gets none from it.
pub proof fn law_no_cache_request_is_not_satisfied(
    p: PolicyModel,
    req: RequestModel,
    same_uri: bool,
    now: int,
)
    requires
        model::forbids_cache(req.fields),
    ensures
        !p.satisfies(req, same_uri, now),
{
}

/// A stale response that has to be revalidated is reused for no request.
pub proof fn law_must_revalidate(p: PolicyModel, req: RequestModel, same_uri: bool, now: int)
    requires
        p.stale(now),
        p.says("must-revalidate"@),
    ensures
        !p.satisfies(req, same_uri, now),
{
}

/// A response that varies with `*` is reused for no request.
pub proof fn law_vary_star(p: PolicyModel, req: RequestModel, same_uri: bool, now: int, i: int)
    requires
        0 <= i < fields::comma_parts(fields::values(p.res, "vary"@)).len(),
        fields::comma_parts(fields::values(p.res, "vary"@))[i] == "*"@,
    ensures
        !p.satisfies(req, same_uri, now),
{
}

/// A response matches the request that it was made for, unless it varies with `*`.
pub proof fn law_own_request_matches(
    req: RequestModel,
    res: ResponseModel,
    opts: CachePolicyOptions,
    allow_head_method: bool,
)
    requires
        forall|i: int|
            0 <= i < fields::comma_parts(fields::values(res.fields, "vary"@)).len()
                ==> #[trigger] fields::comma_parts(fields::values(res.fields, "vary"@))[i] != "*"@,
    ensures
        model::policy_for(req, res, opts).request_matches(req, true, allow_head_method),
{
    let p = model::policy_for(req, res, opts);
    reveal_strlit("vary");
    reveal_strlit("cache-control");
    reveal_strlit("expires");
    reveal_strlit("pragma");
    assert("vary"@.len() != "cache-control"@.len());
    assert("vary"@.len() != "expires"@.len());
    assert("vary"@.len() != "pragma"@.len());
    assert(fields::values(p.res, "vary"@) == fields::values(res.fields, "vary"@));
}

/// A fresh response is reused for a matching request that sets no conditions of its own.
pub proof fn law_fresh_response_is_reused(
    p: PolicyModel,
    req: RequestModel,
    same_uri: bool,
    now: int,
)
    requires
        !p.stale(now),
        p.request_matches(req, same_uri, false),
        !model::forbids_cache(req.fields),
        ({
            let cc = directives::parsed(fields::values(req.fields, "cache-control"@));
            directives::numeric(cc, "max-age"@) is None && directives::numeric(cc, "min-fresh"@) is None
        }),
    ensures
        p.satisfies(req, same_uri, now),
{
}

/// A request with `max-stale` that gives no number accepts a matching stale response of any age,
/// unless that has to be revalidated.
pub proof fn law_max_stale_accepts_any_age(
    p: PolicyModel,
    req: RequestModel,
    same_uri: bool,
    now: int,
)
    requires
        !p.says("must-revalidate"@),
        p.request_matches(req, same_uri, false),
        !model::forbids_cache(req.fields),
        ({
            let cc = directives::parsed(fields::values(req.fields, "cache-control"@));
            &&& directives::holds(cc, "max-stale"@)
            &&& directives::numeric(cc, "max-stale"@) is None
            &&& directives::numeric(cc, "max-age"@) is None
            &&& directives::numeric(cc, "min-fresh"@) is None
        }),
    ensures
        p.satisfies(req, same_uri, now),
{
}

/// A response that can be reused later can be reused now.
pub proof fn law_reuse_ends(p: PolicyModel, req: RequestModel, same_uri: bool, now: int, later: int)
    requires
        now <= later,
        p.satisfies(req, same_uri, later),
    ensures
        p.satisfies(req, same_uri, now),
{
    law_time_passes(p, now, later);
}

} // verus!
