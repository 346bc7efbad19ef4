//! What a policy takes over from its messages, and which responses it stores.

use vstd::prelude::*;

use crate::directives;
use crate::fields;
use crate::laws::making;
use crate::laws::reading;
use crate::message;
use crate::message::{
    RequestLike, RequestModel, RequestParts, ResponseLike, ResponseModel, ResponseParts,
};
use crate::model;
use crate::model::PolicyModel;
use crate::options::CachePolicyOptions;
use crate::text;
use crate::time::SystemTime;

verus! {

/// Parts of messages are read as they stand. A request is for its own URI, and for those that write
/// the same one.
pub proof fn law_parts_are_read_as_they_stand(req: RequestParts, res: ResponseParts, uri: Seq<char>)
    ensures
        req.model().method == req.method@,
        req.model().uri == req.uri@,
        req.model().fields == fields::fields_of(req.headers),
        req.has_uri(uri) <==> uri == req.uri@ || message::uris_equal(req.uri@, uri),
        res.model().status == res.status,
        res.model().fields == fields::fields_of(res.headers),
{
}

/// A policy holds the request as it is, the status of the response, the options, and the directives
/// of the request.
pub proof fn law_policy_keeps_its_request(
    req: RequestModel,
    res: ResponseModel,
    opts: CachePolicyOptions,
)
    ensures
        ({
            let p = model::policy_for(req, res, opts);
            &&& p.method == req.method && p.uri == req.uri && p.req == req.fields
            &&& p.request().method == req.method && p.request().uri == req.uri
            &&& p.request().fields == req.fields
            &&& p.status == res.status && p.response().status == res.status
            &&& p.response().fields == p.res
            &&& p.opts == opts
            &&& p.req_cc == directives::parsed(fields::values(req.fields, "cache-control"@))
        }),
{
}

/// Unless the cache ignores blindly copied directives and the response has both `pre-check` and
/// `post-check`, a policy holds the fields of the response as they are, and its directives. Where
/// there is no `cache-control`, a `pragma` with `no-cache` in it counts as just that directive.
pub proof fn law_policy_keeps_its_response(
    req: RequestModel,
    res: ResponseModel,
    opts: CachePolicyOptions,
)
    requires
        ({
            let given = directives::parsed(fields::values(res.fields, "cache-control"@));
            ||| !opts.ignore_cargo_cult
            ||| !directives::holds(given, "pre-check"@)
            ||| !directives::holds(given, "post-check"@)
        }),
    ensures
        ({
            let p = model::policy_for(req, res, opts);
            let pragma = fields::field_text(res.fields, "pragma"@);
            let asks = pragma is Some && text::contains_text(pragma->0, "no-cache"@);
            &&& p.res == res.fields
            &&& res.fields.dom().contains("cache-control"@) || !asks ==> p.res_cc
                == directives::parsed(fields::values(res.fields, "cache-control"@))
            &&& !res.fields.dom().contains("cache-control"@) && asks ==> p.res_cc == seq![
                ("no-cache"@, None::<Seq<char>>),
            ]
        }),
{
    if !res.fields.dom().contains("cache-control"@) {
        reading::lemma_no_values();
        let none: directives::Directives = Seq::empty();
        assert(!directives::holds(none, "no-cache"@));
        assert(directives::put(none, "no-cache"@, None) =~= seq![("no-cache"@, None::<Seq<char>>)]);
    }
}

/// A cache that ignores blindly copied directives takes exactly five directives, and `expires` and
/// `pragma`, out of a response that has `pre-check` and `post-check`. Its `cache-control` writes the
/// directives that are left, and all its other fields stay.
pub proof fn law_blindly_copied_directives_are_dropped(
    req: RequestModel,
    res: ResponseModel,
    opts: CachePolicyOptions,
    name: Seq<char>,
)
    requires
        opts.ignore_cargo_cult,
        directives::holds(
            directives::parsed(fields::values(res.fields, "cache-control"@)),
            "pre-check"@,
        ),
        directives::holds(
            directives::parsed(fields::values(res.fields, "cache-control"@)),
            "post-check"@,
        ),
    ensures
        ({
            let p = model::policy_for(req, res, opts);
            let given = directives::parsed(fields::values(res.fields, "cache-control"@));
            let dropped = name == "pre-check"@ || name == "post-check"@ || name == "no-cache"@ || name
                == "no-store"@ || name == "must-revalidate"@;
            &&& dropped ==> !directives::holds(p.res_cc, name)
            &&& !dropped ==> directives::holds(p.res_cc, name) == directives::holds(given, name)
            &&& !dropped ==> directives::argument(p.res_cc, name) == directives::argument(given, name)
            &&& directives::parsed(fields::values(p.res, "cache-control"@)) == p.res_cc
            &&& name == "expires"@ || name == "pragma"@ ==> !p.res.dom().contains(name)
            &&& name != "expires"@ && name != "pragma"@ && name != "cache-control"@ ==> fields::values(
                p.res,
                name,
            ) == fields::values(res.fields, name)
        }),
{
    making::law_cargo_cult_is_ignored(req, res, opts, name);
}

/// What is stored was asked for by a method that is understood, has a status that is understood, is
/// forbidden by no directive, and gives a reason to be stored.
pub proof fn law_stored_responses(p: PolicyModel)
    requires
        p.storable(),
    ensures
        !directives::holds(p.req_cc, "no-store"@),
        !directives::holds(p.res_cc, "no-store"@),
        p.method == "GET"@ || p.method == "HEAD"@ || p.method == "POST"@,
        p.method == "POST"@ ==> directives::holds(p.res_cc, "max-age"@) || p.res.dom().contains(
            "expires"@,
        ) || (p.opts.shared && directives::holds(p.res_cc, "s-maxage"@)),
        p.status == 200 || p.status == 203 || p.status == 204 || p.status == 300 || p.status == 301
            || p.status == 302 || p.status == 303 || p.status == 307 || p.status == 308 || p.status
            == 404 || p.status == 405 || p.status == 410 || p.status == 414 || p.status == 501,
        p.status == 302 || p.status == 303 || p.status == 307 || p.status == 308 ==> directives::holds(
            p.res_cc,
            "max-age"@,
        ) || directives::holds(p.res_cc, "public"@) || p.res.dom().contains("expires"@) || (
        p.opts.shared && directives::holds(p.res_cc, "s-maxage"@)),
        p.opts.shared ==> !directives::holds(p.res_cc, "private"@),
        p.opts.shared && p.req.dom().contains("authorization"@) ==> directives::holds(
            p.res_cc,
            "must-revalidate"@,
        ) || directives::holds(p.res_cc, "public"@) || directives::holds(p.res_cc, "s-maxage"@),
{
    reveal_strlit("GET");
    reveal_strlit("HEAD");
    reveal_strlit("POST");
    assert("GET"@.len() == 3 && "HEAD"@.len() == 4 && "POST"@.len() == 4);
    assert("HEAD"@[0] != "POST"@[0]);
}

/// A shared cache does not store the answer to an authenticated request, unless one of
/// `must-revalidate`, `public` and `s-maxage` allows it.
pub proof fn law_authenticated_answers_have_to_allow_it(p: PolicyModel)
    requires
        p.opts.shared,
        p.req.dom().contains("authorization"@),
        !directives::holds(p.res_cc, "must-revalidate"@),
        !directives::holds(p.res_cc, "public"@),
        !directives::holds(p.res_cc, "s-maxage"@),
    ensures
        !p.storable(),
        p.max_age() == 0,
{
}

/// A response that nothing forbids to store is stored, if its status is cacheable by default or if
/// the response asks for it.
pub proof fn law_what_is_stored(p: PolicyModel)
    requires
        !directives::holds(p.req_cc, "no-store"@),
        !directives::holds(p.res_cc, "no-store"@),
        p.method == "GET"@ || p.method == "HEAD"@ || (p.method == "POST"@ && (directives::holds(
            p.res_cc,
            "max-age"@,
        ) || p.res.dom().contains("expires"@) || (p.opts.shared && directives::holds(
            p.res_cc,
            "s-maxage"@,
        )))),
        ({
            let by_default = p.status == 200 || p.status == 203 || p.status == 204 || p.status == 300
                || p.status == 301 || p.status == 404 || p.status == 405 || p.status == 410 || p.status
                == 414 || p.status == 501;
            let on_request = p.status == 302 || p.status == 303 || p.status == 307 || p.status == 308;
            by_default || (on_request && (directives::holds(p.res_cc, "max-age"@)
                || directives::holds(p.res_cc, "public"@) || p.res.dom().contains("expires"@) || (
            p.opts.shared && directives::holds(p.res_cc, "s-maxage"@))))
        }),
        p.opts.shared ==> !directives::holds(p.res_cc, "private"@),
        p.opts.shared && p.req.dom().contains("authorization"@) ==> directives::holds(
            p.res_cc,
            "must-revalidate"@,
        ) || directives::holds(p.res_cc, "public"@) || directives::holds(p.res_cc, "s-maxage"@),
    ensures
        p.storable(),
{
}

/// The default options are those of a shared cache that trusts the server and follows directives, in
/// which responses last for a tenth of the time that they were not modified, and immutable ones for a
/// day at least.
pub proof fn law_default_options(opts: CachePolicyOptions, response_time: SystemTime)
    requires
        opts.is_default_at(response_time),
    ensures
        opts.shared,
        opts.trust_server_date,
        !opts.ignore_cargo_cult,
        opts.immutable_min_time_to_live@ == 86_400_000_000_000,
        opts.cache_heuristic.bits == 0x3DCC_CCCD,
        opts.response_time == response_time,
{
}

/// There is room for the response to store after an answer if there is for the stored fields, where
/// it is confirmed, and otherwise unless the answer's directives are to be rewritten.
pub proof fn law_room_for_answers(p: PolicyModel, answer: ResponseModel)
    ensures
        p.is_confirmed_by(answer) && fields::has_room(p.res, 1) ==> p.has_room_for(answer),
        !p.is_confirmed_by(answer) && fields::has_room(answer.fields, 1) ==> p.has_room_for(answer),
        !p.is_confirmed_by(answer) && !p.opts.ignore_cargo_cult ==> p.has_room_for(answer),
{
}

} // verus!
