//! What a cache policy is, and what it decides.

use vstd::prelude::*;

use crate::dates;
use crate::directives;
use crate::directives::Directives;
use crate::fields;
use crate::fields::Fields;
use crate::message::{RequestModel, ResponseModel};
use crate::options::CachePolicyOptions;
use crate::text;
use crate::time;

verus! {

/// Status codes that are cacheable by default (RFC 7231, 6.1).
pub open spec fn is_cacheable_by_default(status: u16) -> bool {
    ||| status == 200
    ||| status == 203
    ||| status == 204
    ||| status == 206
    ||| status == 300
    ||| status == 301
    ||| status == 404
    ||| status == 405
    ||| status == 410
    ||| status == 414
    ||| status == 501
}

/// Status codes that the cache understands. Partial responses (206) are not among them.
pub open spec fn is_understood(status: u16) -> bool {
    ||| status == 200
    ||| status == 203
    ||| status == 204
    ||| status == 300
    ||| status == 301
    ||| status == 302
    ||| status == 303
    ||| status == 307
    ||| status == 308
    ||| status == 404
    ||| status == 405
    ||| status == 410
    ||| status == 414
    ||| status == 501
}

/// Fields that are never passed on. `date` is among them because it is set anew.
pub open spec fn is_hop_by_hop(name: Seq<char>) -> bool {
    ||| name == "date"@
    ||| name == "connection"@
    ||| name == "keep-alive"@
    ||| name == "proxy-authenticate"@
    ||| name == "proxy-authorization"@
    ||| name == "te"@
    ||| name == "trailer"@
    ||| name == "transfer-encoding"@
    ||| name == "upgrade"@
}

/// Fields that describe the body. Since the old body is reused, they are not updated.
pub open spec fn describes_body(name: Seq<char>) -> bool {
    ||| name == "content-length"@
    ||| name == "content-encoding"@
    ||| name == "transfer-encoding"@
    ||| name == "content-range"@
}

/// Whether the fields ask for an answer that is not from the cache: by the directive `no-cache`
/// or by its older form in `pragma`.
pub open spec fn forbids_cache(f: Fields) -> bool {
    directives::holds(directives::parsed(fields::values(f, "cache-control"@)), "no-cache"@)
        || has_pragma_no_cache(f)
}

/// Whether the text of the `pragma` field holds `no-cache`.
pub open spec fn has_pragma_no_cache(f: Fields) -> bool {
    fields::field_text(f, "pragma"@) matches Some(p) && text::contains_text(p, "no-cache"@)
}

/// The text of a field without the blanks around it.
pub open spec fn trimmed_text(f: Fields, name: Seq<char>) -> Option<Seq<char>> {
    match fields::field_text(f, name) {
        Some(t) => Some(text::trimmed(t)),
        None => None,
    }
}

/// Whether the `connection` field names this field.
pub open spec fn is_named_by_connection(f: Fields, name: Seq<char>) -> bool {
    let parts = fields::comma_parts(fields::values(f, "connection"@));
    exists|i: int| 0 <= i < parts.len() && fields::looked_up(#[trigger] parts[i]) == name
}

/// A warning that does not come out of date: its code is not one from 100 to 199.
pub open spec fn is_lasting_warning(part: Seq<char>) -> bool {
    !(part.len() >= 3 && part[0] == '1' && text::is_digit(part[1]) && text::is_digit(part[2]) && (
    part.len() == 3 || !text::is_digit(part[3])))
}

/// Those of the warnings that do not come out of date, in order.
pub open spec fn lasting(parts: Seq<Seq<char>>) -> Seq<Seq<char>>
    decreases parts.len(),
{
    if parts.len() == 0 {
        parts
    } else if is_lasting_warning(parts.last()) {
        lasting(parts.drop_last()).push(parts.last())
    } else {
        lasting(parts.drop_last())
    }
}

/// The warnings that are passed on, as one text.
pub open spec fn lasting_warnings(f: Fields) -> Seq<char> {
    text::joined(lasting(fields::comma_parts(fields::values(f, "warning"@))))
}

/// The fields that are passed on: those that are not hop-by-hop and that `connection` does not
/// name, each with its last value, and the lasting warnings.
pub open spec fn passed_on(f: Fields) -> Fields {
    let kept = Map::new(
        |name: Seq<char>|
            f.dom().contains(name) && !is_hop_by_hop(name) && !is_named_by_connection(f, name),
        |name: Seq<char>| seq![f[name].last()],
    );
    if lasting_warnings(f).len() == 0 {
        kept.remove("warning"@)
    } else {
        kept.insert("warning"@, seq![fields::text_value(lasting_warnings(f))])
    }
}

/// An entity tag that is not weak.
pub open spec fn is_strong_etag(part: Seq<char>) -> bool {
    !text::begins_with(part, "W/"@)
}

/// Those of the entity tags that are not weak, in order.
pub open spec fn strong(parts: Seq<Seq<char>>) -> Seq<Seq<char>>
    decreases parts.len(),
{
    if parts.len() == 0 {
        parts
    } else if is_strong_etag(parts.last()) {
        strong(parts.drop_last()).push(parts.last())
    } else {
        strong(parts.drop_last())
    }
}

/// The fields of a stored response brought up to date by those of an answer that it is not
/// modified: each field of the stored response, with the first value of the answer where it has
/// one and the field does not describe the body, or else with its last stored value.
pub open spec fn updated(stored: Fields, answer: Fields) -> Fields {
    Map::new(
        |name: Seq<char>| stored.dom().contains(name),
        |name: Seq<char>|
            if answer.dom().contains(name) && !describes_body(name) {
                seq![answer[name][0]]
            } else {
                seq![stored[name].last()]
            },
    )
}

/// The dates that the fields of a response write, in seconds since the Unix epoch.
#[derive(Clone, Copy, Debug, PartialEq, Eq, Structural)]
pub struct Dates {
    /// The date in `date`.
    pub date: Option<i64>,
    /// The date in `expires`.
    pub expires: Option<i64>,
    /// The date in `last-modified`.
    pub last_modified: Option<i64>,
}

/// The date that a field writes.
pub open spec fn field_date(f: Fields, name: Seq<char>) -> Option<i64> {
    match fields::field_text(f, name) {
        Some(t) => dates::rfc2822_seconds(t),
        None => None,
    }
}

/// The dates that fields write.
pub open spec fn dates_of(f: Fields) -> Dates {
    Dates {
        date: field_date(f, "date"@),
        expires: field_date(f, "expires"@),
        last_modified: field_date(f, "last-modified"@),
    }
}

/// The number that a text writes, or zero.
pub open spec fn number_or_zero(t: Seq<char>) -> int {
    match text::number(t) {
        Some(n) => n as int,
        None => 0,
    }
}

/// The age that a response is handed out with, in whole seconds, as far as 32 bits go.
pub open spec fn served_age(age: int) -> int {
    time::min(age / time::seconds(1), u32::MAX as int)
}

/// Half the span within which the clocks of client and server are taken to agree, in nanoseconds.
pub open spec fn max_clock_drift() -> int {
    time::seconds(8 * 3600int)
}

/// One day in nanoseconds.
pub open spec fn day() -> int {
    time::seconds(86_400)
}

/// A cache policy: the request and the response it is about, and the options of the cache.
pub struct PolicyModel {
    /// The fields of the request.
    pub req: Fields,
    /// The fields of the response.
    pub res: Fields,
    /// The URI of the request.
    pub uri: Seq<char>,
    /// The status code of the response.
    pub status: u16,
    /// The method of the request.
    pub method: Seq<char>,
    /// The options of the cache.
    pub opts: CachePolicyOptions,
    /// The cache directives that apply to the response.
    pub res_cc: Directives,
    /// The cache directives of the request.
    pub req_cc: Directives,
}

/// Whether the response has both directives that show its others to be copied blindly, in a cache
/// that ignores such directives.
pub open spec fn is_cargo_cult(res: Fields, opts: CachePolicyOptions) -> bool {
    let cc = directives::parsed(fields::values(res, "cache-control"@));
    opts.ignore_cargo_cult && directives::holds(cc, "pre-check"@) && directives::holds(
        cc,
        "post-check"@,
    )
}

/// Directives without those that are ignored in a response that copied them blindly.
pub open spec fn without_cargo_cult(cc: Directives) -> Directives {
    directives::without(
        directives::without(
            directives::without(
                directives::without(directives::without(cc, "pre-check"@), "post-check"@),
                "no-cache"@,
            ),
            "no-store"@,
        ),
        "must-revalidate"@,
    )
}

/// The directives that the response has, in a cache with these options.
pub open spec fn response_directives(res: Fields, opts: CachePolicyOptions) -> Directives {
    let cc = directives::parsed(fields::values(res, "cache-control"@));
    if is_cargo_cult(res, opts) {
        without_cargo_cult(cc)
    } else {
        cc
    }
}

/// The fields that the response has, in a cache with these options.
pub open spec fn response_fields(res: Fields, opts: CachePolicyOptions) -> Fields {
    if is_cargo_cult(res, opts) {
        res.insert(
            "cache-control"@,
            seq![fields::text_value(directives::formatted(response_directives(res, opts)))],
        ).remove("expires"@).remove("pragma"@)
    } else {
        res
    }
}

/// The policy for a response to a request.
///
/// Where the response has no `cache-control` but a `pragma` that holds `no-cache`, that counts as
/// the directive `no-cache`.
pub open spec fn policy_for(
    req: RequestModel,
    res: ResponseModel,
    opts: CachePolicyOptions,
) -> PolicyModel {
    let stored = response_fields(res.fields, opts);
    let cc = response_directives(res.fields, opts);
    PolicyModel {
        req: req.fields,
        res: stored,
        uri: req.uri,
        status: res.status,
        method: req.method,
        opts,
        res_cc: if !stored.dom().contains("cache-control"@) && has_pragma_no_cache(stored) {
            directives::put(cc, "no-cache"@, None)
        } else {
            cc
        },
        req_cc: directives::parsed(fields::values(req.fields, "cache-control"@)),
    }
}

impl PolicyModel {
    /// The request that the policy is about.
    pub open spec fn request(self) -> RequestModel {
        RequestModel { method: self.method, uri: self.uri, fields: self.req }
    }

    /// The response that the policy is about.
    pub open spec fn response(self) -> ResponseModel {
        ResponseModel { status: self.status, fields: self.res }
    }

    /// Whether the response has this directive.
    pub open spec fn says(self, directive: Seq<char>) -> bool {
        directives::holds(self.res_cc, directive)
    }

    /// Whether the response says itself how long it is fresh.
    pub open spec fn has_explicit_expiration(self) -> bool {
        ||| self.opts.shared && self.says("s-maxage"@)
        ||| self.says("max-age"@)
        ||| self.res.dom().contains("expires"@)
    }

    /// Whether the response may be stored although its request was authenticated.
    pub open spec fn allows_storing_authenticated(self) -> bool {
        ||| self.says("must-revalidate"@)
        ||| self.says("public"@)
        ||| self.says("s-maxage"@)
    }

    /// Whether the method of the request is one whose responses can be stored.
    pub open spec fn has_storable_method(self) -> bool {
        ||| self.method == "GET"@
        ||| self.method == "HEAD"@
        ||| self.method == "POST"@ && self.has_explicit_expiration()
    }

    /// Whether the response gives a reason to store it.
    pub open spec fn has_reason_to_store(self) -> bool {
        ||| self.res.dom().contains("expires"@)
        ||| self.says("max-age"@)
        ||| self.opts.shared && self.says("s-maxage"@)
        ||| self.says("public"@)
        ||| is_cacheable_by_default(self.status)
    }

    /// Whether the response can be stored in a cache.
    pub open spec fn storable(self) -> bool {
        &&& !directives::holds(self.req_cc, "no-store"@)
        &&& self.has_storable_method()
        &&& is_understood(self.status)
        &&& !self.says("no-store"@)
        &&& !(self.opts.shared && self.says("private"@))
        &&& !(self.opts.shared && self.req.dom().contains("authorization"@)
            && !self.allows_storing_authenticated())
        &&& self.has_reason_to_store()
    }

    /// When the server sent the response, if `date` is what its `date` field says: that date,
    /// unless it is before the Unix epoch or too far from when the response was received.
    pub open spec fn server_date_given(self, date: Option<i64>) -> int {
        let received = self.opts.response_time@;
        match date {
            Some(secs) => if secs >= 0 && -max_clock_drift() < received - time::seconds(secs as int)
                < max_clock_drift() {
                time::seconds(secs as int)
            } else {
                received
            },
            None => received,
        }
    }

    /// The instant from which the age counts, if `date` is what the `date` field says.
    pub open spec fn date_given(self, date: Option<i64>) -> int {
        if self.opts.trust_server_date {
            self.server_date_given(date)
        } else {
            self.opts.response_time@
        }
    }

    /// The number of seconds in the `age` field, or zero.
    pub open spec fn age_header(self) -> int {
        match fields::field_text(self.res, "age"@) {
            Some(t) => number_or_zero(t),
            None => 0,
        }
    }

    /// The age of the response at `now`, if `date` is what its `date` field says: its age when it
    /// was received, and the time since.
    pub open spec fn age_given(self, now: int, date: Option<i64>) -> int {
        time::max(
            time::seconds(self.age_header()),
            self.opts.response_time@ - self.date_given(date),
        ) + time::max(now - self.opts.response_time@, 0)
    }

    /// Whether the response is never fresh, whatever its fields say of how long it is.
    pub open spec fn is_never_fresh(self) -> bool {
        ||| !self.storable()
        ||| self.says("no-cache"@)
        ||| self.opts.shared && self.res.dom().contains("set-cookie"@) && !self.says("public"@)
            && !self.says("immutable"@)
        ||| trimmed_text(self.res, "vary"@) == Some("*"@)
        ||| self.opts.shared && self.says("proxy-revalidate"@)
    }

    /// The least time for which the response is fresh where only its dates speak of it.
    pub open spec fn min_time_to_live(self) -> int {
        if self.says("immutable"@) {
            self.opts.immutable_min_time_to_live@
        } else {
            0
        }
    }

    /// How long the response is fresh going by its dates.
    pub open spec fn lifetime_by_dates(self, d: Dates) -> int {
        let server_date = self.server_date_given(d.date);
        if fields::field_text(self.res, "expires"@) is Some {
            match d.expires {
                Some(t) => time::max(
                    self.min_time_to_live(),
                    time::seconds(time::max(t as int, 0)) - server_date,
                ),
                None => 0,
            }
        } else {
            match d.last_modified {
                Some(t) => if time::seconds(time::max(t as int, 0)) <= server_date {
                    time::max(
                        self.min_time_to_live(),
                        time::seconds(
                            self.opts.cache_heuristic.scaled(
                                ((server_date - time::seconds(time::max(t as int, 0)))
                                    / time::seconds(1)) as nat,
                            ) as int,
                        ),
                    )
                } else {
                    self.min_time_to_live()
                },
                None => self.min_time_to_live(),
            }
        }
    }

    /// How long the response is fresh, counted from when it was sent, if `d` is what its dates
    /// say.
    pub open spec fn max_age_given(self, d: Dates) -> int {
        if self.is_never_fresh() {
            0
        } else if self.opts.shared && directives::argument(self.res_cc, "s-maxage"@) is Some {
            time::seconds(number_or_zero(directives::argument(self.res_cc, "s-maxage"@)->0))
        } else if directives::argument(self.res_cc, "max-age"@) is Some {
            time::seconds(number_or_zero(directives::argument(self.res_cc, "max-age"@)->0))
        } else {
            self.lifetime_by_dates(d)
        }
    }

    /// The dates that the response writes.
    pub open spec fn dates(self) -> Dates {
        dates_of(self.res)
    }

    /// The age of the response at `now`.
    pub open spec fn age(self, now: int) -> int {
        self.age_given(now, self.dates().date)
    }

    /// How long the response is fresh, counted from when it was sent.
    pub open spec fn max_age(self) -> int {
        self.max_age_given(self.dates())
    }

    /// How long the response is still fresh at `now`.
    pub open spec fn time_to_live(self, now: int) -> int {
        time::max(self.max_age() - self.age(now), 0)
    }

    /// Whether the response is no longer fresh at `now`.
    pub open spec fn stale(self, now: int) -> bool {
        self.max_age() <= self.age(now)
    }

    /// Whether every field that the response varies with is the same in the given fields as in
    /// the request. A response that varies with `*` never matches.
    pub open spec fn vary_matches(self, f: Fields) -> bool {
        let parts = fields::comma_parts(fields::values(self.res, "vary"@));
        forall|i: int|
            0 <= i < parts.len() ==> (#[trigger] parts[i]) != "*"@ && fields::first_bytes(
                f,
                fields::looked_up(parts[i]),
            ) == fields::first_bytes(self.req, fields::looked_up(parts[i]))
    }

    /// Whether the response is one to the given request, if `same_uri` says whether that request
    /// is for the same URI.
    pub open spec fn request_matches(
        self,
        req: RequestModel,
        same_uri: bool,
        allow_head_method: bool,
    ) -> bool {
        &&& same_uri
        &&& fields::first_bytes(self.req, "host"@) == fields::first_bytes(req.fields, "host"@)
        &&& self.method == req.method || (allow_head_method && req.method == "HEAD"@)
        &&& self.vary_matches(req.fields)
    }

    /// Whether the request accepts a response that is stale by `age - max_age`.
    pub open spec fn accepts_stale(self, cc: Directives, age: int, max_age: int) -> bool {
        &&& !self.says("must-revalidate"@)
        &&& directives::holds(cc, "max-stale"@)
        &&& directives::numeric(cc, "max-stale"@) matches Some(n) ==> age - max_age < time::seconds(
            n as int,
        )
    }

    /// Whether the response can be reused for the request at an age of `age`, if it is fresh up to
    /// an age of `max_age`.
    pub open spec fn satisfies_given(
        self,
        req: RequestModel,
        same_uri: bool,
        age: int,
        max_age: int,
    ) -> bool {
        let cc = directives::parsed(fields::values(req.fields, "cache-control"@));
        &&& !forbids_cache(req.fields)
        &&& directives::numeric(cc, "max-age"@) matches Some(n) ==> age <= time::seconds(n as int)
        &&& directives::numeric(cc, "min-fresh"@) matches Some(n) ==> time::seconds(n as int)
            <= time::max(max_age - age, 0)
        &&& age < max_age || self.accepts_stale(cc, age, max_age)
        &&& self.request_matches(req, same_uri, false)
    }

    /// Whether the response can be reused for the request at `now` without asking the server.
    pub open spec fn satisfies(self, req: RequestModel, same_uri: bool, now: int) -> bool {
        self.satisfies_given(req, same_uri, self.age(now), self.max_age())
    }

    /// Whether the response has to carry a warning that its lifetime is a guess.
    pub open spec fn is_guess(self, age: int, max_age: int) -> bool {
        day() < age && !self.has_explicit_expiration() && day() < max_age
    }

    /// The response that is handed out of the cache at an age of `age`, if it is fresh up to an
    /// age of `max_age` and `date` writes the present instant.
    pub open spec fn cached_response_given(
        self,
        age: int,
        max_age: int,
        date: Seq<char>,
    ) -> ResponseModel {
        let f = passed_on(self.res);
        let warned = if self.is_guess(age, max_age) {
            f.insert(
                "warning"@,
                fields::values(f, "warning"@).push(fields::text_value("113 - \"rfc7234 5.5.4\""@)),
            )
        } else {
            f
        };
        ResponseModel {
            status: self.status,
            fields: warned.insert(
                "age"@,
                seq![
                    fields::text_value(
                        text::decimal(served_age(age) as nat),
                    ),
                ],
            ).insert("date"@, seq![fields::text_value(date)]),
        }
    }

    /// The response that is handed out of the cache at `now`.
    pub open spec fn cached_response(self, now: int) -> ResponseModel {
        self.cached_response_given(
            self.age(now),
            self.max_age(),
            dates::rfc2822_text((now / time::seconds(1)) as i64),
        )
    }

    /// The fields to ask the server with for a response that cannot be validated.
    pub open spec fn unconditional_fields(self, f: Fields) -> Fields {
        passed_on(f).remove("if-range"@).remove("if-none-match"@).remove("if-modified-since"@)
    }

    /// The fields of a request, with the entity tag of the response among its own.
    pub open spec fn with_etag(self, f: Fields) -> Fields {
        match fields::field_text(self.res, "etag"@) {
            Some(etag) => f.insert(
                "if-none-match"@,
                seq![
                    fields::text_value(
                        text::joined(
                            fields::comma_parts(fields::values(f, "if-none-match"@)).push(etag),
                        ),
                    ),
                ],
            ),
            None => f,
        }
    }

    /// Whether a request with these fields must not be validated with weak validators.
    pub open spec fn forbids_weak_validators(self, f: Fields) -> bool {
        ||| self.method != "GET"@
        ||| f.dom().contains("accept-ranges"@)
        ||| f.dom().contains("if-match"@)
        ||| f.dom().contains("if-unmodified-since"@)
    }

    /// The fields without weak validators.
    pub open spec fn with_strong_validators(self, f: Fields) -> Fields {
        let tags = text::joined(
            strong(fields::comma_parts(fields::values(f, "if-none-match"@))),
        );
        if tags.len() == 0 {
            f.remove("if-modified-since"@).remove("if-none-match"@)
        } else {
            f.remove("if-modified-since"@).insert(
                "if-none-match"@,
                seq![fields::text_value(tags)],
            )
        }
    }

    /// The fields with the date on which the response was last modified, unless they have one.
    pub open spec fn with_last_modified(self, f: Fields) -> Fields {
        match fields::field_text(self.res, "last-modified"@) {
            Some(t) => if f.dom().contains("if-modified-since"@) {
                f
            } else {
                f.insert("if-modified-since"@, seq![fields::text_value(t)])
            },
            None => f,
        }
    }

    /// The fields to ask the server with whether the response is still good, if `matches` says
    /// whether the request is one that the response belongs to.
    pub open spec fn revalidation_fields(self, f: Fields, matches: bool) -> Fields {
        if !matches || !self.storable() {
            self.unconditional_fields(f)
        } else {
            let tagged = self.with_etag(passed_on(f).remove("if-range"@));
            if self.forbids_weak_validators(tagged) {
                self.with_strong_validators(tagged)
            } else {
                self.with_last_modified(tagged)
            }
        }
    }

    /// The request to ask the server with whether the response is still good.
    pub open spec fn revalidation_request(self, req: RequestModel, same_uri: bool) -> RequestModel {
        RequestModel {
            method: self.method,
            uri: self.uri,
            fields: self.revalidation_fields(
                req.fields,
                self.request_matches(req, same_uri, true),
            ),
        }
    }

    /// Whether the answer to such a request says that the stored response is still good.
    ///
    /// A strong entity tag in the answer has to be the stored one, marks of weakness aside. A weak
    /// one has to be the stored one where there is one. Where no tags decide, the answer has to give
    /// the date of modification that is stored. Where none is stored either, neither the stored
    /// response nor the answer may have a validator.
    pub open spec fn is_confirmed_by(self, answer: ResponseModel) -> bool {
        let old_etag = trimmed_text(self.res, "etag"@);
        let new_etag = trimmed_text(answer.fields, "etag"@);
        let old_date = trimmed_text(self.res, "last-modified"@);
        let new_date = trimmed_text(answer.fields, "last-modified"@);
        if answer.status != 304 {
            false
        } else if new_etag is Some && is_strong_etag(new_etag->0) {
            old_etag is Some && text::without_weak_marks(old_etag->0) == new_etag->0
        } else if old_etag is Some && new_etag is Some {
            text::without_weak_marks(old_etag->0) == text::without_weak_marks(new_etag->0)
        } else if old_date is Some {
            old_date == new_date
        } else {
            old_etag is None && new_etag is None && new_date is None
        }
    }

    /// Whether a header map is certain to have room for the response to store after the answer.
    pub open spec fn has_room_for(self, answer: ResponseModel) -> bool {
        if self.is_confirmed_by(answer) {
            fields::has_room(self.res, 1)
        } else {
            is_cargo_cult(answer.fields, self.opts) ==> fields::has_room(answer.fields, 1)
        }
    }

    /// The response to store after the answer: the stored one brought up to date where the answer
    /// confirms it, or else the answer.
    pub open spec fn revalidated_response(self, answer: ResponseModel) -> ResponseModel {
        if self.is_confirmed_by(answer) {
            ResponseModel { status: self.status, fields: updated(self.res, answer.fields) }
        } else {
            answer
        }
    }
}

} // verus!
