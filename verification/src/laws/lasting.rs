//! How old a response is, and how long it lasts.

use vstd::arithmetic::div_mod::{
    lemma_div_multiples_vanish, lemma_fundamental_div_mod, lemma_mod_bound, lemma_mod_multiples_basic,
};
use vstd::arithmetic::power2::{lemma2_to64, lemma_pow2_pos, lemma_pow2_unfold, pow2};
use vstd::prelude::*;

use crate::dates;
use crate::directives;
use crate::fields;
use crate::heuristic;
use crate::heuristic::Fraction;
use crate::model::{Dates, PolicyModel};
use crate::text;
use crate::time;

verus! {

/// The dates of a policy are those that the texts of three fields write.
pub proof fn law_dates_are_read_from_their_fields(p: PolicyModel)
    ensures
        fields::field_text(p.res, "date"@) matches Some(t) ==> p.dates().date
            == dates::rfc2822_seconds(t),
        fields::field_text(p.res, "date"@) is None ==> p.dates().date is None,
        fields::field_text(p.res, "expires"@) matches Some(t) ==> p.dates().expires
            == dates::rfc2822_seconds(t),
        fields::field_text(p.res, "expires"@) is None ==> p.dates().expires is None,
        fields::field_text(p.res, "last-modified"@) matches Some(t) ==> p.dates().last_modified
            == dates::rfc2822_seconds(t),
        fields::field_text(p.res, "last-modified"@) is None ==> p.dates().last_modified is None,
{
}

/// Age and lifetime are those that follow from these dates.
pub proof fn law_dates_decide(p: PolicyModel, now: int)
    ensures
        p.age(now) == p.age_given(now, p.dates().date),
        p.max_age() == p.max_age_given(p.dates()),
{
}

/// A date counts if it is not before the Unix epoch and less than eight hours from when the response
/// was received. Otherwise that instant counts.
pub proof fn law_near_dates_count(p: PolicyModel, secs: i64)
    ensures
        ({
            let received = p.opts.response_time@;
            let date = secs * 1_000_000_000;
            let near = date - received < 28_800_000_000_000 && received - date < 28_800_000_000_000;
            &&& secs >= 0 && near ==> p.server_date_given(Some(secs)) == date
            &&& !(secs >= 0 && near) ==> p.server_date_given(Some(secs)) == received
            &&& p.server_date_given(None) == received
        }),
{
}

/// An age counts from the `age` field or from when the response was sent, whichever is longer, and
/// the time since the response was received is added.
pub proof fn law_age_is_the_longer_of_two(p: PolicyModel, now: int, date: Option<i64>)
    ensures
        ({
            let received = p.opts.response_time@;
            let told = match fields::field_text(p.res, "age"@) {
                Some(t) => match text::number(t) {
                    Some(n) => n * 1_000_000_000,
                    None => 0,
                },
                None => 0,
            };
            let travelled = if p.opts.trust_server_date {
                received - p.server_date_given(date)
            } else {
                0
            };
            let since = if now > received {
                now - received
            } else {
                0
            };
            &&& told + since <= p.age_given(now, date)
            &&& travelled + since <= p.age_given(now, date)
            &&& p.age_given(now, date) == told + since || p.age_given(now, date) == travelled + since
        }),
{
}

/// A response is stale from the age on at which its lifetime ends, and until then has the rest of it
/// to live.
pub proof fn law_lifetime_ends(p: PolicyModel, now: int)
    ensures
        p.stale(now) <==> p.age(now) >= p.max_age(),
        p.age(now) <= p.max_age() ==> p.time_to_live(now) == p.max_age() - p.age(now),
        p.age(now) >= p.max_age() ==> p.time_to_live(now) == 0,
{
}

/// A response is fresh for no time if it is not storable or has `no-cache`, if a shared cache would
/// hand out its cookies unasked or has to revalidate it, or if it varies with `*`.
pub proof fn law_no_lifetime(p: PolicyModel, d: Dates)
    requires
        ({
            ||| !p.storable()
            ||| directives::holds(p.res_cc, "no-cache"@)
            ||| p.opts.shared && directives::holds(p.res_cc, "proxy-revalidate"@)
            ||| p.opts.shared && p.res.dom().contains("set-cookie"@) && !directives::holds(
                p.res_cc,
                "public"@,
            ) && !directives::holds(p.res_cc, "immutable"@)
            ||| fields::field_text(p.res, "vary"@) matches Some(t) && text::trimmed(t) == seq!['*']
        }),
    ensures
        p.max_age_given(d) == 0,
{
    reveal_strlit("*");
    assert("*"@ =~= seq!['*']);
}

/// Otherwise `s-maxage` gives the lifetime in a shared cache, and `max-age` where that does not. A
/// value that is no number gives none.
pub proof fn law_directives_give_the_lifetime(p: PolicyModel, d: Dates)
    requires
        p.storable(),
        !directives::holds(p.res_cc, "no-cache"@),
        p.opts.shared ==> !directives::holds(p.res_cc, "proxy-revalidate"@),
        p.opts.shared && p.res.dom().contains("set-cookie"@) ==> directives::holds(
            p.res_cc,
            "public"@,
        ) || directives::holds(p.res_cc, "immutable"@),
        fields::field_text(p.res, "vary"@) matches Some(t) ==> text::trimmed(t) != seq!['*'],
    ensures
        ({
            let shared = directives::argument(p.res_cc, "s-maxage"@);
            let own = directives::argument(p.res_cc, "max-age"@);
            let by_shared = p.opts.shared && shared is Some;
            let v = if by_shared {
                shared
            } else {
                own
            };
            v is Some ==> match text::number(v->0) {
                Some(n) => p.max_age_given(d) == n * 1_000_000_000,
                None => p.max_age_given(d) == 0,
            }
        }),
{
    reveal_strlit("*");
    assert("*"@ =~= seq!['*']);
}

/// Where no directive gives the lifetime, a response with an `expires` text lasts from when it was
/// sent to the date that this text writes, the Unix epoch at the earliest, and an immutable one at
/// least as long as the options say. A text that writes no date gives no lifetime.
pub proof fn law_expires_gives_the_lifetime(p: PolicyModel, d: Dates)
    requires
        p.storable(),
        !directives::holds(p.res_cc, "no-cache"@),
        p.opts.shared ==> !directives::holds(p.res_cc, "proxy-revalidate"@),
        p.opts.shared && p.res.dom().contains("set-cookie"@) ==> directives::holds(
            p.res_cc,
            "public"@,
        ) || directives::holds(p.res_cc, "immutable"@),
        fields::field_text(p.res, "vary"@) matches Some(t) ==> text::trimmed(t) != seq!['*'],
        p.opts.shared ==> directives::argument(p.res_cc, "s-maxage"@) is None,
        directives::argument(p.res_cc, "max-age"@) is None,
        fields::field_text(p.res, "expires"@) is Some,
    ensures
        d.expires is None ==> p.max_age_given(d) == 0,
        d.expires matches Some(t) ==> ({
            let end = if t > 0 {
                t * 1_000_000_000
            } else {
                0
            };
            let left = end - p.server_date_given(d.date);
            let least = if directives::holds(p.res_cc, "immutable"@) {
                p.opts.immutable_min_time_to_live@
            } else {
                0
            };
            &&& left >= least ==> p.max_age_given(d) == left
            &&& left < least ==> p.max_age_given(d) == least
        }),
{
    reveal_strlit("*");
    assert("*"@ =~= seq!['*']);
}

/// Where neither directives nor `expires` give the lifetime, a response lasts for a fraction of the
/// whole seconds that it had not been modified when it was sent, whether it says when that was or
/// not. An immutable one lasts at least as long as the options say.
pub proof fn law_unmodified_responses_last(p: PolicyModel, d: Dates)
    requires
        p.storable(),
        !directives::holds(p.res_cc, "no-cache"@),
        p.opts.shared ==> !directives::holds(p.res_cc, "proxy-revalidate"@),
        p.opts.shared && p.res.dom().contains("set-cookie"@) ==> directives::holds(
            p.res_cc,
            "public"@,
        ) || directives::holds(p.res_cc, "immutable"@),
        fields::field_text(p.res, "vary"@) matches Some(t) ==> text::trimmed(t) != seq!['*'],
        p.opts.shared ==> directives::argument(p.res_cc, "s-maxage"@) is None,
        directives::argument(p.res_cc, "max-age"@) is None,
        fields::field_text(p.res, "expires"@) is None,
    ensures
        ({
            let least = if directives::holds(p.res_cc, "immutable"@) {
                p.opts.immutable_min_time_to_live@
            } else {
                0
            };
            let modified = match d.last_modified {
                Some(t) => if t > 0 {
                    t * 1_000_000_000
                } else {
                    0
                },
                None => 0,
            };
            let unmodified = p.server_date_given(d.date) - modified;
            let fraction = p.opts.cache_heuristic.scaled((unmodified / 1_000_000_000) as nat)
                * 1_000_000_000;
            &&& d.last_modified is Some && unmodified >= 0 ==> {
                &&& p.max_age_given(d) >= fraction
                &&& p.max_age_given(d) >= least
                &&& p.max_age_given(d) == fraction || p.max_age_given(d) == least
            }
            &&& d.last_modified is None || unmodified < 0 ==> p.max_age_given(d) == least
        }),
{
    reveal_strlit("*");
    assert("*"@ =~= seq!['*']);
    time::lemma_duration_nonnegative(p.opts.immutable_min_time_to_live);
}

/// Rounding gives the nearest number with 53 bits: a multiple of the power of two that is the last of
/// these bits, and of two that are equally near the even multiple.
pub proof fn law_rounding(x: nat) -> (k: nat)
    ensures
        ({
            let unit = pow2(k) as int;
            let near = heuristic::rounded(x) as int;
            &&& x < 0x20_0000_0000_0000 ==> k == 0
            &&& x >= 0x20_0000_0000_0000 ==> unit * 0x10_0000_0000_0000 <= x < unit
                * 0x20_0000_0000_0000
            &&& near % unit == 0
            &&& -unit <= 2 * (near - x) <= unit
            &&& 2 * (near - x) == unit || 2 * (near - x) == -unit ==> (near / unit) % 2 == 0
        }),
{
    let k = lemma_unit(x);
    let u = pow2(k) as int;
    lemma_pow2_pos(k);
    let q = x as int / u;
    let rest = x as int % u;
    lemma_fundamental_div_mod(x as int, u);
    lemma_mod_bound(x as int, u);
    let near = heuristic::rounded(x) as int;
    let n = if 2 * rest < u || (2 * rest == u && q % 2 == 0) {
        q
    } else {
        q + 1
    };
    assert(near == n * u);
    lemma_mod_multiples_basic(n, u);
    lemma_div_multiples_vanish(n, u);
    assert(u * n == n * u) by (nonlinear_arith);
    assert((q + 1) * u == q * u + u) by (nonlinear_arith);
    assert(u * q == q * u) by (nonlinear_arith);
    k
}

proof fn lemma_unit(x: nat) -> (k: nat)
    ensures
        heuristic::unit(x) == pow2(k),
        x < 0x20_0000_0000_0000 ==> k == 0,
        x >= 0x20_0000_0000_0000 ==> pow2(k) * 0x10_0000_0000_0000 <= x < pow2(k)
            * 0x20_0000_0000_0000,
    decreases x,
{
    lemma2_to64();
    if x < 0x20_0000_0000_0000 {
        0
    } else {
        let k = lemma_unit(x / 2);
        lemma_pow2_unfold(k + 1);
        k + 1
    }
}

/// A fraction that is written with an exponent `e` and a significand `m` of 23 bits stands for
/// (2^23 + m) * 2^(e - 150), or for m * 2^-149 where `e` is zero. Scaling by it multiplies the rounded
/// seconds, rounds the product, and cuts it to whole seconds. What is too much comes out as
/// `u64::MAX`.
pub proof fn law_scaling(e: u32, m: u32, secs: u64)
    requires
        e <= 254,
        m < 0x80_0000,
    ensures
        ({
            let f = Fraction { bits: (e * 0x80_0000 + m) as u32 };
            let r = f.scaled(secs as nat) as int;
            let significand = if e == 0 {
                m as int
            } else {
                0x80_0000 + m
            };
            let product = heuristic::rounded(
                (heuristic::rounded(secs as nat) * significand) as nat,
            ) as int;
            let down = if e == 0 {
                149int
            } else {
                150 - e
            };
            let most = u64::MAX as int;
            &&& 0 <= r <= most
            &&& down >= 0 ==> {
                let unit = pow2(down as nat) as int;
                r * unit <= product && (r < most ==> product < (r + 1) * unit)
            }
            &&& down <= 0 ==> {
                let whole = product * pow2((-down) as nat);
                r == if whole <= most {
                    whole
                } else {
                    most
                }
            }
        }),
{
    let f = Fraction { bits: (e * 0x80_0000 + m) as u32 };
    assert(f.exponent() == e && f.mantissa() == m && !f.is_negative());
    let whole = heuristic::rounded(secs as nat);
    assert(whole * f.significand() >= 0) by (nonlinear_arith)
        requires
            whole >= 0,
            f.significand() >= 0,
    ;
    let product = heuristic::rounded(whole * f.significand());
    assert(f.power() == if e == 0 {
        -149int
    } else {
        e - 150
    });
    let down = if e == 0 {
        149int
    } else {
        150 - e
    };
    if down > 0 {
        let u = pow2(down as nat);
        lemma_pow2_pos(down as nat);
        let q = product / u;
        let r = f.scaled(secs as nat);
        lemma_fundamental_div_mod(product as int, u as int);
        lemma_mod_bound(product as int, u as int);
        assert(q * u <= product && product < (q + 1) * u) by (nonlinear_arith)
            requires
                product == u * q + product % u,
                0 <= product % u < u,
        ;
        assert(r == heuristic::capped(q));
        assert(r * u <= q * u) by (nonlinear_arith)
            requires
                r <= q,
                u >= 0,
        ;
    } else if down == 0 {
        lemma2_to64();
        let u = pow2(0) as int;
        let r = f.scaled(secs as nat) as int;
        assert(r * u == r && (r + 1) * u == r + 1 && product * u == product) by (nonlinear_arith)
            requires
                u == 1,
        ;
    }
}

/// Seconds and products of up to 53 bits are not changed by rounding.
pub proof fn law_small_numbers_are_exact(x: nat)
    requires
        x < 0x20_0000_0000_0000,
    ensures
        heuristic::rounded(x) == x,
{
    lemma_exact(x);
}

/// An infinite fraction scales anything to the most.
pub proof fn law_infinite_scaling(secs: u64)
    ensures
        (Fraction { bits: 0x7F80_0000 }).scaled(secs as nat) == if secs == 0 {
            0
        } else {
            u64::MAX as nat
        },
{
}

/// A fraction that is negative or not a number scales to nothing.
pub proof fn law_no_scaling(f: Fraction, secs: u64)
    requires
        f.bits >= 0x8000_0000 || 0x7F80_0000 < f.bits,
    ensures
        f.scaled(secs as nat) == 0,
{
}

proof fn lemma_exact(x: nat)
    requires
        x < 0x20_0000_0000_0000,
    ensures
        heuristic::rounded(x) == x,
{
    assert(heuristic::unit(x) == 1);
}

/// How far spans and instants reach, in nanoseconds, and which instants have a written form.
pub proof fn law_ranges_of_time(secs: int)
    ensures
        time::max_duration() == 18_446_744_073_709_551_615_999_999_999,
        time::min_instant() == -9_223_372_036_854_775_808_000_000_000,
        time::max_instant() == 9_223_372_036_854_775_807_999_999_999,
        dates::is_writable(secs) <==> 0 <= secs <= 253_402_300_799,
{
}

/// A reading of the clock is the instant so long after the Unix epoch, or before it, as far as
/// instants reach.
pub proof fn law_readings_of_the_clock(secs: u64, nanos: u32)
    requires
        nanos < 1_000_000_000,
    ensures
        secs <= i64::MAX ==> time::read_instant(Ok((secs, nanos))) == secs * 1_000_000_000 + nanos,
        secs > i64::MAX ==> time::read_instant(Ok((secs, nanos))) == time::max_instant(),
        secs <= i64::MAX ==> time::read_instant(Err((secs, nanos))) == -(secs * 1_000_000_000 + nanos),
        secs > i64::MAX ==> time::read_instant(Err((secs, nanos))) == time::min_instant(),
{
}

} // verus!
