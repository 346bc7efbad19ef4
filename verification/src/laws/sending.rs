//! What a cache sends: to clients, and to servers for revalidation.

use vstd::prelude::*;

use crate::fields;
use crate::fields::Fields;
use crate::laws::keeping;
use crate::message::{RequestModel, ResponseModel};
use crate::model;
use crate::model::PolicyModel;
use crate::options::CachePolicyOptions;
use crate::text;
use crate::time;

verus! {

// ---------------------------------------------------------------------------
// Lists in fields
// ---------------------------------------------------------------------------

/// A part of a list that commas part: visible, without commas, and without blanks at its ends.
pub open spec fn is_part(s: Seq<char>) -> bool {
    &&& text::is_visible_text(s)
    &&& forall|i: int| 0 <= i < s.len() ==> #[trigger] s[i] != ','
    &&& s.len() > 0 ==> !text::blanks().contains(s[0]) && !text::blanks().contains(s.last())
}

/// Each piece without the blanks around it.
spec fn all_trimmed(pieces: Seq<Seq<char>>) -> Seq<Seq<char>> {
    Seq::new(pieces.len(), |i: int| text::trimmed(pieces[i]))
}

/// What is read between the commas of fields is a part.
proof fn lemma_comma_parts_are_parts(vals: Seq<(Seq<u8>, bool)>)
    ensures
        forall|i: int|
            0 <= i < fields::comma_parts(vals).len() ==> is_part(
                #[trigger] fields::comma_parts(vals)[i],
            ),
{
    fields::lemma_pieces_visible(vals);
    assert forall|i: int| 0 <= i < fields::comma_parts(vals).len() implies is_part(
        #[trigger] fields::comma_parts(vals)[i],
    ) by {
        let piece = fields::pieces(vals)[i];
        let part = text::trimmed(piece);
        let b = text::lemma_strip_is_subrange(piece, text::blanks());
        text::lemma_strip_visible(piece, text::blanks());
        assert forall|j: int| 0 <= j < part.len() implies #[trigger] part[j] != ',' by {
            assert(part[j] == piece[b.0 + j]);
            assert(fields::pieces(vals)[i][b.0 + j] != ',');
        }
    }
}

/// Parts that are joined into a text that is not empty split into the same parts again, without
/// empty ones at the beginning.
proof fn lemma_joined_splits(parts: Seq<Seq<char>>) -> (k: int)
    requires
        forall|i: int| 0 <= i < parts.len() ==> is_part(#[trigger] parts[i]),
        text::joined(parts).len() > 0,
    ensures
        0 <= k < parts.len(),
        all_trimmed(text::split(text::joined(parts), ',')) == parts.skip(k),
    decreases parts.len(),
{
    let head = parts.drop_last();
    let last = parts.last();
    let before = text::joined(head);
    assert(is_part(parts[parts.len() - 1]));
    assert forall|i: int| 0 <= i < head.len() implies is_part(#[trigger] head[i]) by {
        assert(is_part(parts[i]));
    }
    text::lemma_strip_nothing(last, text::blanks());
    if before.len() == 0 {
        text::lemma_split_whole(last, ',');
        assert(all_trimmed(text::split(text::joined(parts), ',')) =~= parts.skip(parts.len() - 1));
        parts.len() - 1
    } else {
        let k = lemma_joined_splits(head);
        reveal_strlit(", ");
        let piece = seq![' '] + last;
        assert(text::joined(parts) =~= before.push(',') + piece);
        text::lemma_split_concat(before, ',', piece);
        text::lemma_split_whole(piece, ',');
        assert(text::trimmed(piece) == last) by {
            text::lemma_strip_start(piece, text::blanks(), 1);
            assert(piece.skip(1) =~= last);
        }
        let pieces = text::split(text::joined(parts), ',');
        assert(all_trimmed(pieces) =~= all_trimmed(text::split(before, ',')).push(last));
        assert(parts.skip(k) =~= head.skip(k).push(last));
        k
    }
}

/// A field that joins parts reads back as the same parts, without empty ones at the beginning.
proof fn lemma_joined_reads_back(parts: Seq<Seq<char>>) -> (k: int)
    requires
        forall|i: int| 0 <= i < parts.len() ==> is_part(#[trigger] parts[i]),
        text::joined(parts).len() > 0,
    ensures
        0 <= k < parts.len(),
        fields::comma_parts(seq![fields::text_value(text::joined(parts))]) == parts.skip(k),
{
    let t = text::joined(parts);
    let k = lemma_joined_splits(parts);
    text::lemma_joined_visible(parts);
    fields::lemma_text_value(t);
    let vals = seq![fields::text_value(t)];
    assert(vals.drop_last() =~= Seq::<(Seq<u8>, bool)>::empty());
    assert(fields::pieces(vals.drop_last()) =~= Seq::<Seq<char>>::empty());
    assert(fields::pieces(vals) =~= text::split(t, ','));
    assert(fields::comma_parts(vals) =~= all_trimmed(text::split(t, ',')));
    k
}

/// The lasting ones among warnings last and are among them.
proof fn lemma_lasting(parts: Seq<Seq<char>>)
    ensures
        forall|i: int|
            0 <= i < model::lasting(parts).len() ==> model::is_lasting_warning(
                #[trigger] model::lasting(parts)[i],
            ) && parts.contains(model::lasting(parts)[i]),
    decreases parts.len(),
{
    if parts.len() > 0 {
        let head = parts.drop_last();
        lemma_lasting(head);
        assert forall|i: int| 0 <= i < model::lasting(parts).len() implies model::is_lasting_warning(
            #[trigger] model::lasting(parts)[i],
        ) && parts.contains(model::lasting(parts)[i]) by {
            if i < model::lasting(head).len() {
                assert(model::lasting(parts)[i] == model::lasting(head)[i]);
                let j = choose|j: int| 0 <= j < head.len() && head[j] == model::lasting(head)[i];
                assert(parts[j] == model::lasting(parts)[i]);
            } else {
                assert(parts[parts.len() - 1] == model::lasting(parts)[i]);
            }
        }
    }
}

/// The strong ones among entity tags are strong and are among them.
proof fn lemma_strong(parts: Seq<Seq<char>>)
    ensures
        forall|i: int|
            0 <= i < model::strong(parts).len() ==> model::is_strong_etag(
                #[trigger] model::strong(parts)[i],
            ) && parts.contains(model::strong(parts)[i]),
    decreases parts.len(),
{
    if parts.len() > 0 {
        let head = parts.drop_last();
        lemma_strong(head);
        assert forall|i: int| 0 <= i < model::strong(parts).len() implies model::is_strong_etag(
            #[trigger] model::strong(parts)[i],
        ) && parts.contains(model::strong(parts)[i]) by {
            if i < model::strong(head).len() {
                assert(model::strong(parts)[i] == model::strong(head)[i]);
                let j = choose|j: int| 0 <= j < head.len() && head[j] == model::strong(head)[i];
                assert(parts[j] == model::strong(parts)[i]);
            } else {
                assert(parts[parts.len() - 1] == model::strong(parts)[i]);
            }
        }
    }
}

// ---------------------------------------------------------------------------
// Fields that are passed on
// ---------------------------------------------------------------------------

/// `warning` is not a hop-by-hop field, nor are those that speak of validation.
proof fn lemma_not_hop_by_hop()
    ensures
        !model::is_hop_by_hop("warning"@),
        !model::is_hop_by_hop("age"@),
        !model::is_hop_by_hop("if-none-match"@),
        !model::is_hop_by_hop("if-modified-since"@),
{
    reveal_strlit("date");
    reveal_strlit("connection");
    reveal_strlit("keep-alive");
    reveal_strlit("proxy-authenticate");
    reveal_strlit("proxy-authorization");
    reveal_strlit("te");
    reveal_strlit("trailer");
    reveal_strlit("transfer-encoding");
    reveal_strlit("upgrade");
    reveal_strlit("warning");
    reveal_strlit("age");
    reveal_strlit("if-none-match");
    reveal_strlit("if-modified-since");
    assert("date"@.len() == 4 && "connection"@.len() == 10 && "keep-alive"@.len() == 10
        && "proxy-authenticate"@.len() == 18 && "proxy-authorization"@.len() == 19 && "te"@.len() == 2
        && "trailer"@.len() == 7 && "transfer-encoding"@.len() == 17 && "upgrade"@.len() == 7);
    assert("warning"@.len() == 7 && "age"@.len() == 3 && "if-none-match"@.len() == 13
        && "if-modified-since"@.len() == 17);
    assert("warning"@[0] != "trailer"@[0] && "warning"@[0] != "upgrade"@[0]);
    assert("if-modified-since"@[0] != "transfer-encoding"@[0]);
}

/// No hop-by-hop field is passed on, and, warnings aside, none that `connection` names. What is
/// passed on was there, with its last value.
pub proof fn law_hop_by_hop_is_stripped(f: Fields, name: Seq<char>)
    ensures
        model::is_hop_by_hop(name) ==> !model::passed_on(f).dom().contains(name),
        model::is_named_by_connection(f, name) && name != "warning"@ ==> !model::passed_on(
            f,
        ).dom().contains(name),
        model::passed_on(f).dom().contains(name) && name != "warning"@ ==> f.dom().contains(name)
            && model::passed_on(f)[name] == seq![f[name].last()],
        f.dom().contains(name) && !model::is_hop_by_hop(name) && !model::is_named_by_connection(
            f,
            name,
        ) && name != "warning"@ ==> model::passed_on(f).dom().contains(name),
{
    lemma_not_hop_by_hop();
}

/// Only warnings that do not come out of date are passed on.
pub proof fn law_only_lasting_warnings_are_passed_on(f: Fields)
    ensures
        forall|i: int|
            0 <= i < fields::comma_parts(fields::values(model::passed_on(f), "warning"@)).len()
                ==> model::is_lasting_warning(
                #[trigger] fields::comma_parts(fields::values(model::passed_on(f), "warning"@))[i],
            ),
{
    let parts = fields::comma_parts(fields::values(f, "warning"@));
    let kept = model::lasting(parts);
    lemma_comma_parts_are_parts(fields::values(f, "warning"@));
    lemma_lasting(parts);
    assert forall|i: int| 0 <= i < kept.len() implies is_part(#[trigger] kept[i]) by {
        let j = choose|j: int| 0 <= j < parts.len() && parts[j] == kept[i];
        assert(is_part(parts[j]));
    }
    let out = fields::values(model::passed_on(f), "warning"@);
    if text::joined(kept).len() > 0 {
        let k = lemma_joined_reads_back(kept);
        assert(out == seq![fields::text_value(text::joined(kept))]);
        assert forall|i: int| 0 <= i < kept.skip(k).len() implies model::is_lasting_warning(
            #[trigger] kept.skip(k)[i],
        ) by {
            assert(kept.skip(k)[i] == kept[i + k]);
        }
    } else {
        assert(out.len() == 0);
        assert(fields::pieces(out).len() == 0);
    }
}

// ---------------------------------------------------------------------------
// The cached response
// ---------------------------------------------------------------------------

/// `age`, `date` and `warning` are different names, and different from those of the fields that are
/// changed where directives were copied blindly.
pub proof fn lemma_response_names()
    ensures
        "age"@ != "date"@,
        "age"@ != "warning"@,
        "date"@ != "warning"@,
        "age"@ != "cache-control"@,
        "age"@ != "expires"@,
        "age"@ != "pragma"@,
{
    reveal_strlit("age");
    reveal_strlit("date");
    reveal_strlit("warning");
    reveal_strlit("cache-control");
    reveal_strlit("expires");
    reveal_strlit("pragma");
    assert("age"@.len() == 3 && "date"@.len() == 4 && "warning"@.len() == 7 && "cache-control"@.len()
        == 13 && "expires"@.len() == 7 && "pragma"@.len() == 6);
}

/// A cached response has the status of the stored one, exactly one age and one date, and no
/// hop-by-hop field besides that date. All its other fields, warnings aside, are those that are
/// passed on.
pub proof fn law_cached_response_is_updated(
    p: PolicyModel,
    age: int,
    max_age: int,
    date: Seq<char>,
    name: Seq<char>,
)
    ensures
        ({
            let r = p.cached_response_given(age, max_age, date);
            &&& r.status == p.status
            &&& fields::values(r.fields, "age"@).len() == 1
            &&& fields::values(r.fields, "date"@) == seq![fields::text_value(date)]
            &&& model::is_hop_by_hop(name) && name != "date"@ ==> !r.fields.dom().contains(name)
            &&& name != "age"@ && name != "date"@ && name != "warning"@ ==> fields::values(
                r.fields,
                name,
            ) == fields::values(model::passed_on(p.res), name)
        }),
{
    lemma_not_hop_by_hop();
    lemma_response_names();
    law_hop_by_hop_is_stripped(p.res, name);
}

/// A response that comes out of a cache starts in the next one with the age it was handed out with:
/// the age it had, in whole seconds, as far as 32 bits go. So caching again does not make it younger.
pub proof fn law_age_is_carried_over(
    p: PolicyModel,
    now: int,
    req: RequestModel,
    opts: CachePolicyOptions,
    later: int,
)
    ensures
        ({
            let q = model::policy_for(req, p.cached_response(now), opts);
            &&& q.age_header() == model::served_age(p.age(now))
            &&& q.age(later) >= time::seconds(model::served_age(p.age(now)))
            &&& p.age(now) <= time::seconds(u32::MAX as int) ==> q.age(later) > p.age(now)
                - time::seconds(1)
        }),
{
    let r = p.cached_response(now);
    let q = model::policy_for(req, r, opts);
    keeping::law_spans_are_not_negative(p, now);
    lemma_response_names();
    let n = model::served_age(p.age(now));
    let t = text::decimal(n as nat);
    text::lemma_decimal(n as nat);
    text::law_number_reads_decimal(n as u64);
    fields::lemma_text_value(t);
    assert(r.fields.dom().contains("age"@));
    assert(r.fields["age"@] == seq![fields::text_value(t)]);
    assert(q.res.dom().contains("age"@));
    assert(q.res["age"@] == seq![fields::text_value(t)]);
    assert(fields::field_text(q.res, "age"@) == Some(t));
    assert(q.age_header() == n);
    time::lemma_whole_seconds(p.age(now));
    assert(q.age(later) >= time::seconds(q.age_header()));
}

// ---------------------------------------------------------------------------
// Revalidation
// ---------------------------------------------------------------------------

/// The names of the fields that speak of validation are different.
proof fn lemma_validation_names()
    ensures
        "if-none-match"@ != "if-modified-since"@,
        "if-none-match"@ != "if-range"@,
        "if-modified-since"@ != "if-range"@,
        "if-none-match"@ != "warning"@,
        "if-modified-since"@ != "warning"@,
{
    reveal_strlit("if-none-match");
    reveal_strlit("if-modified-since");
    reveal_strlit("if-range");
    reveal_strlit("warning");
    assert("if-none-match"@.len() == 13 && "if-modified-since"@.len() == 17 && "if-range"@.len() == 8
        && "warning"@.len() == 7);
}

/// A revalidation request is for the method and the URI of the stored response. Hop-by-hop fields
/// are always stripped, and so is `if-range`.
pub proof fn law_revalidation_request_is_stripped(
    p: PolicyModel,
    req: RequestModel,
    same_uri: bool,
    name: Seq<char>,
)
    ensures
        ({
            let r = p.revalidation_request(req, same_uri);
            &&& r.method == p.method
            &&& r.uri == p.uri
            &&& model::is_hop_by_hop(name) ==> !r.fields.dom().contains(name)
            &&& !r.fields.dom().contains("if-range"@)
        }),
{
    lemma_not_hop_by_hop();
    lemma_validation_names();
    law_hop_by_hop_is_stripped(req.fields, name);
}

/// Besides `if-none-match` and `if-modified-since`, a revalidation request has the fields that are
/// passed on, without `if-range`.
pub proof fn law_revalidation_request_keeps_the_rest(
    p: PolicyModel,
    req: RequestModel,
    same_uri: bool,
    name: Seq<char>,
)
    requires
        name != "if-none-match"@,
        name != "if-modified-since"@,
        name != "if-range"@,
    ensures
        fields::values(p.revalidation_request(req, same_uri).fields, name) == fields::values(
            model::passed_on(req.fields),
            name,
        ),
{
}

/// A request that the stored response does not answer, or a response that could not be stored, is
/// not validated: the request is sent without conditions.
pub proof fn law_unmatched_request_is_unconditional(
    p: PolicyModel,
    req: RequestModel,
    same_uri: bool,
)
    requires
        !p.request_matches(req, same_uri, true) || !p.storable(),
    ensures
        ({
            let f = p.revalidation_request(req, same_uri).fields;
            !f.dom().contains("if-none-match"@) && !f.dom().contains("if-modified-since"@)
        }),
{
}

/// The fields of a request that is to be validated, with the entity tag of the response added.
pub open spec fn tagged(p: PolicyModel, req: RequestModel) -> Fields {
    p.with_etag(model::passed_on(req.fields).remove("if-range"@))
}

/// A request that may use weak validators is sent with the entity tag of the response, behind any
/// of its own, and with the date of its last modification, unless it has one of its own.
pub proof fn law_validators_are_sent(p: PolicyModel, req: RequestModel, same_uri: bool)
    requires
        p.request_matches(req, same_uri, true),
        p.storable(),
        !p.forbids_weak_validators(tagged(p, req)),
    ensures
        ({
            let f = p.revalidation_request(req, same_uri).fields;
            let own = fields::comma_parts(
                fields::values(model::passed_on(req.fields), "if-none-match"@),
            );
            &&& fields::field_text(p.res, "etag"@) matches Some(etag) ==> fields::field_text(
                f,
                "if-none-match"@,
            ) == Some(text::joined(own.push(etag)))
            &&& fields::field_text(p.res, "last-modified"@) matches Some(t) ==> fields::field_text(
                f,
                "if-modified-since"@,
            ) == if model::passed_on(req.fields).dom().contains("if-modified-since"@) {
                fields::field_text(model::passed_on(req.fields), "if-modified-since"@)
            } else {
                Some(t)
            }
        }),
{
    lemma_validation_names();
    let passed = model::passed_on(req.fields);
    let cut = passed.remove("if-range"@);
    assert(fields::values(cut, "if-none-match"@) == fields::values(passed, "if-none-match"@));
    let own = fields::comma_parts(fields::values(passed, "if-none-match"@));
    if let Some(etag) = fields::field_text(p.res, "etag"@) {
        lemma_comma_parts_are_parts(fields::values(passed, "if-none-match"@));
        fields::lemma_text_visible((fields::first(p.res, "etag"@)->0).0);
        assert forall|i: int| 0 <= i < own.push(etag).len() implies text::is_visible_text(
            #[trigger] own.push(etag)[i],
        ) by {
            if i < own.len() {
                assert(is_part(own[i]));
            }
        }
        text::lemma_joined_visible(own.push(etag));
        fields::lemma_text_value(text::joined(own.push(etag)));
    }
    if let Some(t) = fields::field_text(p.res, "last-modified"@) {
        fields::lemma_text_visible((fields::first(p.res, "last-modified"@)->0).0);
        fields::lemma_text_value(t);
    }
}

/// A request that must not use weak validators is sent without any: without a date, and with strong
/// entity tags alone.
pub proof fn law_weak_validators_are_not_sent(p: PolicyModel, req: RequestModel, same_uri: bool)
    requires
        p.request_matches(req, same_uri, true),
        p.storable(),
        p.forbids_weak_validators(tagged(p, req)),
    ensures
        ({
            let f = p.revalidation_request(req, same_uri).fields;
            let tags = fields::comma_parts(fields::values(f, "if-none-match"@));
            &&& !f.dom().contains("if-modified-since"@)
            &&& forall|i: int| 0 <= i < tags.len() ==> model::is_strong_etag(#[trigger] tags[i])
        }),
{
    lemma_validation_names();
    let f = p.revalidation_request(req, same_uri).fields;
    let parts = fields::comma_parts(fields::values(tagged(p, req), "if-none-match"@));
    let kept = model::strong(parts);
    lemma_comma_parts_are_parts(fields::values(tagged(p, req), "if-none-match"@));
    lemma_strong(parts);
    assert forall|i: int| 0 <= i < kept.len() implies is_part(#[trigger] kept[i]) by {
        let j = choose|j: int| 0 <= j < parts.len() && parts[j] == kept[i];
        assert(is_part(parts[j]));
    }
    let out = fields::values(f, "if-none-match"@);
    if text::joined(kept).len() > 0 {
        let k = lemma_joined_reads_back(kept);
        assert(out == seq![fields::text_value(text::joined(kept))]);
        assert forall|i: int| 0 <= i < kept.skip(k).len() implies model::is_strong_etag(
            #[trigger] kept.skip(k)[i],
        ) by {
            assert(kept.skip(k)[i] == kept[i + k]);
        }
    } else {
        assert(out.len() == 0);
        assert(fields::pieces(out).len() == 0);
    }
}

/// Only an answer with status 304 confirms the stored response. One with the entity tag of the
/// stored response does; one with another strong entity tag does not.
pub proof fn law_entity_tags_decide(p: PolicyModel, answer: ResponseModel)
    ensures
        answer.status != 304 ==> !p.is_confirmed_by(answer),
        answer.status == 304 && model::trimmed_text(answer.fields, "etag"@) is Some
            && model::trimmed_text(answer.fields, "etag"@) == model::trimmed_text(p.res, "etag"@)
            ==> p.is_confirmed_by(answer),
        ({
            let old = model::trimmed_text(p.res, "etag"@);
            let new = model::trimmed_text(answer.fields, "etag"@);
            &&& new matches Some(n) ==> model::is_strong_etag(n) && (old matches Some(o)
                ==> text::without_weak_marks(o) != n) ==> !p.is_confirmed_by(answer)
        }),
{
    reveal_strlit("W/");
    if let Some(e) = model::trimmed_text(p.res, "etag"@) {
        if model::is_strong_etag(e) {
            if e.len() >= 2 && e[0] == 'W' && e[1] == '/' {
                assert(e.take(2) =~= "W/"@);
            }
            assert(text::without_weak_marks(e) == e);
        }
    }
}

/// Whether the fields hold an entity tag or a date of modification.
pub open spec fn has_validator(f: Fields) -> bool {
    fields::field_text(f, "etag"@) is Some || fields::field_text(f, "last-modified"@) is Some
}

/// Where no entity tags decide, because the answer has no strong one and not both sides have one, an
/// answer with status 304 confirms the stored response exactly if both have the same date of
/// modification, or if neither has any validator.
pub proof fn law_dates_decide_without_tags(p: PolicyModel, answer: ResponseModel)
    requires
        answer.status == 304,
        model::trimmed_text(answer.fields, "etag"@) matches Some(tag) ==> !model::is_strong_etag(tag)
            && model::trimmed_text(p.res, "etag"@) is None,
    ensures
        ({
            let old_date = model::trimmed_text(p.res, "last-modified"@);
            let new_date = model::trimmed_text(answer.fields, "last-modified"@);
            p.is_confirmed_by(answer) <==> (old_date is Some && old_date == new_date) || (
            !has_validator(p.res) && !has_validator(answer.fields))
        }),
{
}

/// A stored response that has a validator is not confirmed by an answer that has none.
pub proof fn law_validator_needs_an_answer(p: PolicyModel, answer: ResponseModel)
    requires
        has_validator(p.res),
        !has_validator(answer.fields),
    ensures
        !p.is_confirmed_by(answer),
{
}

/// A stored response that is confirmed keeps its status and the names of its fields. Fields that
/// describe the body, and those that the answer does not have, keep their last value; the others
/// have the first value of the answer.
pub proof fn law_confirmed_response_is_updated(
    p: PolicyModel,
    answer: ResponseModel,
    name: Seq<char>,
)
    requires
        p.is_confirmed_by(answer),
    ensures
        ({
            let r = p.revalidated_response(answer);
            &&& answer.status == 304
            &&& r.status == p.status
            &&& r.fields.dom() =~= p.res.dom()
            &&& p.res.dom().contains(name) && (model::describes_body(name)
                || !answer.fields.dom().contains(name)) ==> r.fields[name] == seq![p.res[name].last()]
            &&& p.res.dom().contains(name) && !model::describes_body(name)
                && answer.fields.dom().contains(name) ==> r.fields[name] == seq![
                answer.fields[name][0],
            ]
        }),
{
}

/// An answer that does not confirm the stored response takes its place.
pub proof fn law_other_answer_replaces(p: PolicyModel, answer: ResponseModel)
    requires
        !p.is_confirmed_by(answer),
    ensures
        p.revalidated_response(answer) == answer,
{
}

} // verus!
