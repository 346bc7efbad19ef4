//! For which requests a stored response is reused, and for which it is not.

use vstd::prelude::*;

use crate::directives;
use crate::fields;
use crate::message::RequestModel;
use crate::model::PolicyModel;
use crate::text;

verus! {

/// A response belongs to a request for the same URI and host, by the same method, whose fields that
/// the response varies with are the same. Where that is allowed, a `HEAD` request will do as well. A
/// response that varies with `*` belongs to none.
pub proof fn law_which_requests_match(
    p: PolicyModel,
    req: RequestModel,
    same_uri: bool,
    allow_head_method: bool,
)
    ensures
        ({
            let names = fields::comma_parts(fields::values(p.res, "vary"@));
            &&& p.request_matches(req, same_uri, allow_head_method) <==> {
                &&& same_uri
                &&& fields::first_bytes(p.req, "host"@) == fields::first_bytes(req.fields, "host"@)
                &&& req.method == p.method || (allow_head_method && req.method == "HEAD"@)
                &&& forall|i: int|
                    0 <= i < names.len() ==> (#[trigger] names[i]) != seq!['*'] && fields::first_bytes(
                        p.req,
                        fields::looked_up(names[i]),
                    ) == fields::first_bytes(req.fields, fields::looked_up(names[i]))
            }
        }),
{
    reveal_strlit("*");
    assert("*"@ =~= seq!['*']);
}

/// Reuse at an instant is reuse at the age that the response has then.
pub proof fn law_age_and_lifetime_decide_reuse(
    p: PolicyModel,
    req: RequestModel,
    same_uri: bool,
    now: int,
)
    ensures
        p.satisfies(req, same_uri, now) == p.satisfies_given(
            req,
            same_uri,
            p.age(now),
            p.max_age(),
        ),
{
}

/// A request that gives `max-age` a number, zero or any other, does not get a response that is older.
pub proof fn law_request_limits_the_age(
    p: PolicyModel,
    req: RequestModel,
    same_uri: bool,
    now: int,
    n: u64,
)
    requires
        directives::numeric(
            directives::parsed(fields::values(req.fields, "cache-control"@)),
            "max-age"@,
        ) == Some(n),
        p.age(now) > n * 1_000_000_000,
    ensures
        !p.satisfies(req, same_uri, now),
{
}

/// A response is not reused for a request that asks for the server, by the directive `no-cache` or
/// by a `pragma` with that text; that limits the age to less; that asks for more time to be left;
/// that does not accept it stale, or not as stale as it is; or that it does not belong to. A stale
/// response that must be revalidated is not reused at all.
pub proof fn law_what_is_not_reused(
    p: PolicyModel,
    req: RequestModel,
    same_uri: bool,
    age: int,
    max_age: int,
)
    requires
        ({
            let cc = directives::parsed(fields::values(req.fields, "cache-control"@));
            ||| directives::holds(cc, "no-cache"@)
            ||| fields::field_text(req.fields, "pragma"@) matches Some(t) && text::contains_text(
                t,
                "no-cache"@,
            )
            ||| directives::numeric(cc, "max-age"@) matches Some(n) && age > n * 1_000_000_000
            ||| directives::numeric(cc, "min-fresh"@) matches Some(n) && n > 0 && max_age - age < n
                * 1_000_000_000
            ||| age >= max_age && !directives::holds(cc, "max-stale"@)
            ||| age >= max_age && directives::holds(p.res_cc, "must-revalidate"@)
            ||| age >= max_age && (directives::numeric(cc, "max-stale"@) matches Some(n) && age
                - max_age >= n * 1_000_000_000)
            ||| !p.request_matches(req, same_uri, false)
        }),
    ensures
        !p.satisfies_given(req, same_uri, age, max_age),
{
}

/// A response is reused for a request that it belongs to, that does not ask for the server, and whose
/// limits it keeps, while it is fresh or where the request accepts it as stale as it is.
pub proof fn law_what_is_reused(
    p: PolicyModel,
    req: RequestModel,
    same_uri: bool,
    age: int,
    max_age: int,
)
    requires
        ({
            let cc = directives::parsed(fields::values(req.fields, "cache-control"@));
            &&& p.request_matches(req, same_uri, false)
            &&& !directives::holds(cc, "no-cache"@)
            &&& fields::field_text(req.fields, "pragma"@) matches Some(t) ==> !text::contains_text(
                t,
                "no-cache"@,
            )
            &&& directives::numeric(cc, "max-age"@) matches Some(n) ==> age <= n * 1_000_000_000
            &&& directives::numeric(cc, "min-fresh"@) matches Some(n) ==> n == 0 || max_age - age >= n
                * 1_000_000_000
            &&& age < max_age || {
                &&& directives::holds(cc, "max-stale"@)
                &&& !directives::holds(p.res_cc, "must-revalidate"@)
                &&& directives::numeric(cc, "max-stale"@) matches Some(n) ==> age - max_age < n
                    * 1_000_000_000
            }
        }),
    ensures
        p.satisfies_given(req, same_uri, age, max_age),
{
}

} // verus!
