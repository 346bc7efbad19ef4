//! What is handed out of the cache, and how a stored response is validated.

use vstd::prelude::*;

use crate::dates;
use crate::directives;
use crate::fields;
use crate::fields::Fields;
use crate::laws::sending;
use crate::message::{RequestModel, ResponseModel};
use crate::model;
use crate::model::PolicyModel;
use crate::text;

verus! {

/// Fields are passed on with their last value, except nine that are for one hop and those that
/// `connection` names.
pub proof fn law_what_is_passed_on(f: Fields, name: Seq<char>)
    requires
        name != "warning"@,
    ensures
        ({
            let named = fields::comma_parts(fields::values(f, "connection"@));
            let for_one_hop = name == "date"@ || name == "connection"@ || name == "keep-alive"@ || name
                == "proxy-authenticate"@ || name == "proxy-authorization"@ || name == "te"@ || name
                == "trailer"@ || name == "transfer-encoding"@ || name == "upgrade"@;
            let is_named = exists|i: int|
                0 <= i < named.len() && fields::looked_up(#[trigger] named[i]) == name;
            &&& for_one_hop || is_named || !f.dom().contains(name) ==> !model::passed_on(
                f,
            ).dom().contains(name)
            &&& !for_one_hop && !is_named && f.dom().contains(name) ==> model::passed_on(
                f,
            ).dom().contains(name) && model::passed_on(f)[name] == seq![f[name].last()]
        }),
{
}

proof fn lemma_lasting_is_filter(parts: Seq<Seq<char>>)
    ensures
        model::lasting(parts) == parts.filter(
            |part: Seq<char>|
                !(part.len() >= 3 && part[0] == '1' && '0' <= part[1] <= '9' && '0' <= part[2] <= '9'
                    && !(part.len() > 3 && '0' <= part[3] <= '9')),
        ),
    decreases parts.len(),
{
    reveal(Seq::filter);
    if parts.len() > 0 {
        lemma_lasting_is_filter(parts.drop_last());
    }
}

/// Of the warnings, those are passed on whose code is not from 100 to 199: all of them, in their
/// order, as one value.
pub proof fn law_which_warnings_are_passed_on(f: Fields)
    ensures
        ({
            let given = fields::comma_parts(fields::values(f, "warning"@));
            let kept = text::joined(
                given.filter(
                    |part: Seq<char>|
                        !(part.len() >= 3 && part[0] == '1' && '0' <= part[1] <= '9' && '0' <= part[2]
                            <= '9' && !(part.len() > 3 && '0' <= part[3] <= '9')),
                ),
            );
            fields::values(model::passed_on(f), "warning"@) == if kept.len() == 0 {
                Seq::empty()
            } else {
                seq![fields::text_value(kept)]
            }
        }),
{
    lemma_lasting_is_filter(fields::comma_parts(fields::values(f, "warning"@)));
}

/// A response is handed out with its status, with its age in whole seconds, at most 2^32 - 1, as its
/// one `age`, and with the given text as its one `date`. It has one warning more than are passed on
/// where both its age and a lifetime that it did not state are longer than a day.
pub proof fn law_what_is_handed_out(
    p: PolicyModel,
    age: int,
    max_age: int,
    date: Seq<char>,
    name: Seq<char>,
)
    ensures
        ({
            let r = p.cached_response_given(age, max_age, date);
            let passed = model::passed_on(p.res);
            let secs = age / 1_000_000_000;
            let shown = if secs <= 4_294_967_295 {
                secs
            } else {
                4_294_967_295
            };
            let stated = directives::holds(p.res_cc, "max-age"@) || p.res.dom().contains("expires"@) || (
            p.opts.shared && directives::holds(p.res_cc, "s-maxage"@));
            let guessed = !stated && age > 86_400_000_000_000 && max_age > 86_400_000_000_000;
            &&& r.status == p.status
            &&& fields::values(r.fields, "age"@) == seq![
                fields::text_value(text::decimal(shown as nat)),
            ]
            &&& fields::values(r.fields, "date"@) == seq![fields::text_value(date)]
            &&& fields::values(r.fields, "warning"@) == if guessed {
                fields::values(passed, "warning"@).push(
                    fields::text_value("113 - \"rfc7234 5.5.4\""@),
                )
            } else {
                fields::values(passed, "warning"@)
            }
            &&& name != "age"@ && name != "date"@ && name != "warning"@ ==> fields::values(
                r.fields,
                name,
            ) == fields::values(passed, name)
        }),
{
    sending::lemma_response_names();
}

/// At an instant, a response is handed out at the age it has, with that instant as its date.
pub proof fn law_instant_that_is_handed_out(p: PolicyModel, now: int)
    ensures
        p.cached_response(now) == p.cached_response_given(
            p.age(now),
            p.max_age(),
            dates::rfc2822_text((now / 1_000_000_000) as i64),
        ),
{
}

proof fn lemma_weak(tag: Seq<char>)
    ensures
        model::is_strong_etag(tag) == !(tag.len() >= 2 && tag[0] == 'W' && tag[1] == '/'),
{
    reveal_strlit("W/");
    if tag.len() >= 2 {
        assert(tag.take(2) =~= seq![tag[0], tag[1]]);
        if tag[0] == 'W' && tag[1] == '/' {
            assert(tag.take(2) =~= "W/"@);
        } else {
            assert(tag.take(2)[0] == tag[0] && tag.take(2)[1] == tag[1]);
        }
    }
}

proof fn lemma_strong_is_filter(parts: Seq<Seq<char>>)
    ensures
        model::strong(parts) == parts.filter(
            |tag: Seq<char>| !(tag.len() >= 2 && tag[0] == 'W' && tag[1] == '/'),
        ),
    decreases parts.len(),
{
    reveal(Seq::filter);
    if parts.len() > 0 {
        lemma_weak(parts.last());
        lemma_strong_is_filter(parts.drop_last());
    }
}

/// A plain `GET` request is sent to the server with the entity tag of the stored response, weak or
/// strong, behind its own, and with the date on which that was last modified, unless it has one.
/// Plain is a request that has none of `accept-ranges`, `if-match` and `if-unmodified-since`.
pub proof fn law_plain_requests_are_conditional(p: PolicyModel, req: RequestModel, same_uri: bool)
    requires
        p.storable(),
        p.request_matches(req, same_uri, true),
        p.method == "GET"@,
        !model::passed_on(req.fields).dom().contains("accept-ranges"@),
        !model::passed_on(req.fields).dom().contains("if-match"@),
        !model::passed_on(req.fields).dom().contains("if-unmodified-since"@),
    ensures
        ({
            let passed = model::passed_on(req.fields);
            let f = p.revalidation_request(req, same_uri).fields;
            let own = fields::comma_parts(fields::values(passed, "if-none-match"@));
            &&& fields::field_text(p.res, "etag"@) matches Some(etag) ==> fields::values(
                f,
                "if-none-match"@,
            ) == seq![fields::text_value(text::joined(own.push(etag)))]
            &&& fields::field_text(p.res, "etag"@) is None ==> fields::values(f, "if-none-match"@)
                == fields::values(passed, "if-none-match"@)
            &&& passed.dom().contains("if-modified-since"@) || fields::field_text(
                p.res,
                "last-modified"@,
            ) is None ==> fields::values(f, "if-modified-since"@) == fields::values(
                passed,
                "if-modified-since"@,
            )
            &&& !passed.dom().contains("if-modified-since"@) ==> (fields::field_text(
                p.res,
                "last-modified"@,
            ) matches Some(t) ==> fields::values(f, "if-modified-since"@) == seq![
                fields::text_value(t),
            ])
        }),
{
    lemma_condition_names();
}

/// The names of the fields that make a request conditional are different.
proof fn lemma_condition_names()
    ensures
        "if-none-match"@ != "if-modified-since"@,
        "if-none-match"@ != "if-range"@,
        "if-none-match"@ != "accept-ranges"@,
        "if-none-match"@ != "if-match"@,
        "if-none-match"@ != "if-unmodified-since"@,
        "if-modified-since"@ != "if-range"@,
        "accept-ranges"@ != "if-range"@,
        "if-match"@ != "if-range"@,
        "if-unmodified-since"@ != "if-range"@,
{
    reveal_strlit("if-none-match");
    reveal_strlit("if-modified-since");
    reveal_strlit("if-range");
    reveal_strlit("accept-ranges");
    reveal_strlit("if-match");
    reveal_strlit("if-unmodified-since");
    assert("if-none-match"@.len() == 13 && "if-modified-since"@.len() == 17 && "if-range"@.len() == 8
        && "accept-ranges"@.len() == 13 && "if-match"@.len() == 8 && "if-unmodified-since"@.len() == 19);
    assert("if-none-match"@[0] != "accept-ranges"@[0]);
    assert("if-match"@[3] != "if-range"@[3]);
}

/// Any other request is sent to the server without a date, and with just those of its entity tags and
/// the stored one that are not weak, in their order.
pub proof fn law_other_requests_have_strong_conditions(
    p: PolicyModel,
    req: RequestModel,
    same_uri: bool,
)
    requires
        p.storable(),
        p.request_matches(req, same_uri, true),
        p.method != "GET"@ || model::passed_on(req.fields).dom().contains("accept-ranges"@)
            || model::passed_on(req.fields).dom().contains("if-match"@) || model::passed_on(
            req.fields,
        ).dom().contains("if-unmodified-since"@),
    ensures
        ({
            let passed = model::passed_on(req.fields);
            let f = p.revalidation_request(req, same_uri).fields;
            let own = fields::comma_parts(fields::values(passed, "if-none-match"@));
            let tags = match fields::field_text(p.res, "etag"@) {
                Some(etag) => fields::comma_parts(
                    seq![fields::text_value(text::joined(own.push(etag)))],
                ),
                None => own,
            };
            let kept = text::joined(
                tags.filter(|tag: Seq<char>| !(tag.len() >= 2 && tag[0] == 'W' && tag[1] == '/')),
            );
            &&& !f.dom().contains("if-modified-since"@)
            &&& fields::values(f, "if-none-match"@) == if kept.len() == 0 {
                Seq::empty()
            } else {
                seq![fields::text_value(kept)]
            }
        }),
{
    lemma_condition_names();
    let passed = model::passed_on(req.fields);
    let own = fields::comma_parts(fields::values(passed, "if-none-match"@));
    let cut = passed.remove("if-range"@);
    assert(fields::values(cut, "if-none-match"@) == fields::values(passed, "if-none-match"@));
    let tagged = p.with_etag(cut);
    lemma_strong_is_filter(fields::comma_parts(fields::values(tagged, "if-none-match"@)));
}

/// A request that the stored response does not belong to, or one for a response that is not storable,
/// is sent to the server without conditions.
pub proof fn law_no_conditions_without_a_match(p: PolicyModel, req: RequestModel, same_uri: bool)
    requires
        !p.request_matches(req, same_uri, true) || !p.storable(),
    ensures
        ({
            let f = p.revalidation_request(req, same_uri).fields;
            !f.dom().contains("if-none-match"@) && !f.dom().contains("if-modified-since"@)
        }),
{
}

/// Whatever its conditions, a request is sent to the server for the stored method and URI, without
/// `if-range`, and with all other fields that are passed on.
pub proof fn law_what_is_sent_to_the_server(
    p: PolicyModel,
    req: RequestModel,
    same_uri: bool,
    name: Seq<char>,
)
    ensures
        ({
            let r = p.revalidation_request(req, same_uri);
            &&& r.method == p.method
            &&& r.uri == p.uri
            &&& !r.fields.dom().contains("if-range"@)
            &&& name != "if-none-match"@ && name != "if-modified-since"@ && name != "if-range"@
                ==> fields::values(r.fields, name) == fields::values(
                model::passed_on(req.fields),
                name,
            )
        }),
{
    lemma_condition_names();
}

/// An answer confirms the stored response if it has status 304 and the same validator. A strong entity
/// tag has to be the stored one without its weak marks; a weak one has to be the stored one, weak
/// marks aside. Where they do not both have a tag and the answer's is not strong, the dates of
/// modification have to be the same; where none is stored, neither may have a validator.
pub proof fn law_what_confirms(p: PolicyModel, answer: ResponseModel)
    ensures
        ({
            let old_tag = match fields::field_text(p.res, "etag"@) {
                Some(t) => Some(text::trimmed(t)),
                None => None,
            };
            let new_tag = match fields::field_text(answer.fields, "etag"@) {
                Some(t) => Some(text::trimmed(t)),
                None => None,
            };
            let old_date = match fields::field_text(p.res, "last-modified"@) {
                Some(t) => Some(text::trimmed(t)),
                None => None,
            };
            let new_date = match fields::field_text(answer.fields, "last-modified"@) {
                Some(t) => Some(text::trimmed(t)),
                None => None,
            };
            let marked = new_tag matches Some(tag) && tag.len() >= 2 && tag[0] == 'W' && tag[1] == '/';
            let strong = new_tag is Some && !marked;
            let weak = marked && old_tag is Some;
            &&& answer.status != 304 ==> !p.is_confirmed_by(answer)
            &&& answer.status == 304 && strong ==> (p.is_confirmed_by(answer) <==> old_tag is Some
                && text::without_weak_marks(old_tag->0) == new_tag->0)
            &&& answer.status == 304 && weak ==> (p.is_confirmed_by(answer)
                <==> text::without_weak_marks(old_tag->0) == text::without_weak_marks(new_tag->0))
            &&& answer.status == 304 && !strong && !weak && old_date is Some ==> (p.is_confirmed_by(
                answer,
            ) <==> new_date == old_date)
            &&& answer.status == 304 && !strong && !weak && old_date is None ==> (p.is_confirmed_by(
                answer,
            ) <==> old_tag is None && new_tag is None && new_date is None)
        }),
{
    if let Some(t) = fields::field_text(answer.fields, "etag"@) {
        lemma_weak(text::trimmed(t));
    }
}

/// A stored response that is confirmed keeps its status and its field names. Each field that the
/// answer has too takes the answer's first value, except `content-length`, `content-encoding`,
/// `transfer-encoding` and `content-range`. These, and fields that the answer does not have, keep
/// their last value.
pub proof fn law_confirmed_fields(p: PolicyModel, answer: ResponseModel, name: Seq<char>)
    requires
        p.is_confirmed_by(answer),
    ensures
        ({
            let r = p.revalidated_response(answer);
            let of_the_body = name == "content-length"@ || name == "content-encoding"@ || name
                == "transfer-encoding"@ || name == "content-range"@;
            &&& r.status == p.status
            &&& r.fields.dom().contains(name) <==> p.res.dom().contains(name)
            &&& p.res.dom().contains(name) && answer.fields.dom().contains(name) && !of_the_body
                ==> r.fields[name] == seq![answer.fields[name][0]]
            &&& p.res.dom().contains(name) && (of_the_body || !answer.fields.dom().contains(name))
                ==> r.fields[name] == seq![p.res[name].last()]
        }),
{
}

/// An answer that does not confirm the stored response is stored in its place, as it is.
pub proof fn law_unconfirmed_answers_are_stored(p: PolicyModel, answer: ResponseModel)
    requires
        !p.is_confirmed_by(answer),
    ensures
        p.revalidated_response(answer).status == answer.status,
        p.revalidated_response(answer).fields == answer.fields,
{
}

} // verus!
