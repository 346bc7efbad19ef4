//! Header fields that a cache passes on.

use http::HeaderMap;
use vstd::prelude::*;
use vstd::string::*;

use crate::fields;
use crate::fields::{FieldValue, Fields};
use crate::model;
use crate::text;

verus! {

fn is_hop_by_hop(name: &str) -> (r: bool)
    ensures
        r == model::is_hop_by_hop(name@),
{
    text::text_equal(name, "date") || text::text_equal(name, "connection") || text::text_equal(
        name,
        "keep-alive",
    ) || text::text_equal(name, "proxy-authenticate") || text::text_equal(
        name,
        "proxy-authorization",
    ) || text::text_equal(name, "te") || text::text_equal(name, "trailer") || text::text_equal(
        name,
        "transfer-encoding",
    ) || text::text_equal(name, "upgrade")
}

/// The fields of these names, without those that are hop-by-hop, each with its last value.
spec fn latest(names: Seq<Seq<char>>, f: Fields) -> Fields {
    Map::new(
        |name: Seq<char>| names.contains(name) && !model::is_hop_by_hop(name),
        |name: Seq<char>| seq![f[name].last()],
    )
}

/// One more name puts its last value there, unless it is hop-by-hop.
proof fn lemma_latest_step(names: Seq<Seq<char>>, i: int, f: Fields)
    requires
        0 <= i < names.len(),
    ensures
        latest(names.take(i + 1), f) == if model::is_hop_by_hop(names[i]) {
            latest(names.take(i), f)
        } else {
            latest(names.take(i), f).insert(names[i], seq![f[names[i]].last()])
        },
{
    fields::lemma_names_step(names, i);
    if model::is_hop_by_hop(names[i]) {
        assert(latest(names.take(i + 1), f) =~= latest(names.take(i), f));
    } else {
        assert(latest(names.take(i + 1), f) =~= latest(names.take(i), f).insert(
            names[i],
            seq![f[names[i]].last()],
        ));
    }
}

/// Whether the name is looked up for one of the first `n` parts.
spec fn is_among(parts: Seq<Seq<char>>, n: int, name: Seq<char>) -> bool {
    exists|i: int| 0 <= i < n && fields::looked_up(#[trigger] parts[i]) == name
}

/// The fields without those that the first `n` parts name.
spec fn unnamed(f: Fields, parts: Seq<Seq<char>>, n: int) -> Fields {
    Map::new(
        |name: Seq<char>| f.dom().contains(name) && !is_among(parts, n, name),
        |name: Seq<char>| f[name],
    )
}

/// One more part takes out the field that it names.
proof fn lemma_unnamed_step(f: Fields, parts: Seq<Seq<char>>, n: int)
    requires
        0 <= n < parts.len(),
    ensures
        unnamed(f, parts, n + 1) == unnamed(f, parts, n).remove(fields::looked_up(parts[n])),
{
    assert forall|name: Seq<char>| #[trigger]
        is_among(parts, n + 1, name) <==> is_among(parts, n, name) || fields::looked_up(parts[n])
            == name by {
        if is_among(parts, n + 1, name) {
            let i = choose|i: int| 0 <= i < n + 1 && fields::looked_up(#[trigger] parts[i]) == name;
            if i < n {
                assert(is_among(parts, n, name));
            }
        }
        if is_among(parts, n, name) {
            let i = choose|i: int| 0 <= i < n && fields::looked_up(#[trigger] parts[i]) == name;
            assert(fields::looked_up(parts[i]) == name);
        }
    }
    assert(unnamed(f, parts, n + 1) =~= unnamed(f, parts, n).remove(fields::looked_up(parts[n])));
}

fn is_digit(b: u8) -> (r: bool)
    ensures
        r == text::is_digit(b as char),
{
    48 <= b && b <= 57
}

fn is_lasting_warning(part: &str) -> (r: bool)
    requires
        text::is_visible_text(part@),
    ensures
        r == model::is_lasting_warning(part@),
{
    proof {
        text::lemma_visible_is_ascii(part@);
    }
    let n: usize = text::ascii_len(part);
    !(n >= 3 && part.get_ascii(0) == 49 && is_digit(part.get_ascii(1)) && is_digit(part.get_ascii(2))
        && (n == 3 || !is_digit(part.get_ascii(3))))
}

/// The warnings that are passed on, as one text.
fn lasting_warnings(headers: &HeaderMap) -> (r: String)
    ensures
        r@ == model::lasting_warnings(fields::fields_of(*headers)),
        text::is_visible_text(r@),
{
    proof {
        fields::lemma_known_names();
    }
    let parts = fields::get_all_comma(&fields::map_get_all(headers, "warning"));
    let ghost all = text::string_views(parts@);
    let mut kept: Vec<String> = Vec::new();
    let mut i: usize = 0;
    proof {
        assert(all.take(0) =~= Seq::<Seq<char>>::empty());
        assert(text::string_views(kept@) =~= Seq::<Seq<char>>::empty());
    }
    while i < parts.len()
        invariant
            0 <= i <= parts.len(),
            all == text::string_views(parts@),
            forall|j: int| 0 <= j < parts@.len() ==> text::is_visible_text((#[trigger] parts@[j])@),
            forall|j: int| 0 <= j < kept@.len() ==> text::is_visible_text((#[trigger] kept@[j])@),
            text::string_views(kept@) == model::lasting(all.take(i as int)),
        decreases parts.len() - i,
    {
        let ghost before = text::string_views(kept@);
        let ghost part = parts@[i as int]@;
        proof {
            assert(all.take(i + 1).drop_last() =~= all.take(i as int));
            assert(all.take(i + 1).last() == part);
        }
        if is_lasting_warning(parts[i].as_str()) {
            kept.push(parts[i].clone());
            proof {
                assert(text::string_views(kept@) =~= before.push(part));
            }
        }
        i = i + 1;
    }
    let r = text::join(&kept);
    proof {
        assert(all.take(i as int) =~= all);
        text::lemma_joined_visible(text::string_views(kept@));
    }
    r
}

/// A copy of the fields that are passed on; `None` where the map for them is full, which it is not
/// where there is certain to be room.
pub fn copy_without_hop_by_hop_headers(in_headers: &HeaderMap) -> (r: Option<HeaderMap>)
    ensures
        fields::has_room(fields::fields_of(*in_headers), 1) ==> r is Some,
        r matches Some(headers) ==> fields::fields_of(headers) == model::passed_on(
            fields::fields_of(*in_headers),
        ),
{
    let ghost f = fields::fields_of(*in_headers);
    proof {
        fields::lemma_known_names();
    }
    let mut headers = fields::map_new();
    let keys = fields::map_names(in_headers);
    let ghost all = text::string_views(keys@);
    let mut i: usize = 0;
    proof {
        assert(fields::fields_of(headers) =~= latest(all.take(0), f));
    }
    while i < keys.len()
        invariant
            0 <= i <= keys.len(),
            f == fields::fields_of(*in_headers),
            all == text::string_views(keys@),
            fields::lists_names(all, f),
            fields::fields_of(headers) == latest(all.take(i as int), f),
        decreases keys.len() - i,
    {
        let name = keys[i].as_str();
        proof {
            assert(name@ == all[i as int]);
            assert(all.contains(all[i as int]));
            fields::lemma_held_name(name@);
            lemma_latest_step(all, i as int, f);
            if fields::has_room(f, 1) {
                fields::lemma_names_room(all, i as int, latest(all.take(i as int), f), f);
            }
        }
        if !is_hop_by_hop(name) {
            let count: usize = fields::map_get_all(in_headers, name).len();
            proof {
                assert(fields::values(f, name@).len() == count);
            }
            if !fields::map_insert_from(&mut headers, in_headers, name, count - 1) {
                return None;
            }
        }
        i = i + 1;
    }
    let ghost copied = fields::fields_of(headers);
    // 9.1.  Connection
    let names = fields::get_all_comma(&fields::map_get_all(in_headers, "connection"));
    let ghost parts = text::string_views(names@);
    let mut k: usize = 0;
    proof {
        assert(all.take(i as int) =~= all);
        assert(copied =~= unnamed(copied, parts, 0));
    }
    while k < names.len()
        invariant
            0 <= k <= names.len(),
            parts == text::string_views(names@),
            forall|j: int| 0 <= j < names@.len() ==> text::is_visible_text((#[trigger] names@[j])@),
            fields::fields_of(headers) == unnamed(copied, parts, k as int),
        decreases names.len() - k,
    {
        proof {
            lemma_unnamed_step(copied, parts, k as int);
            assert(parts[k as int] == names@[k as int]@);
            text::lemma_visible_is_ascii(names@[k as int]@);
        }
        fields::map_remove(&mut headers, names[k].as_str());
        k = k + 1;
    }
    let ghost kept = fields::fields_of(headers);
    proof {
        assert forall|name: Seq<char>| #[trigger] kept.dom().contains(name) implies f.dom().contains(
            name,
        ) && kept[name] == seq![f[name].last()] by {}
        if fields::has_room(f, 1) {
            fields::lemma_room_of_part(kept, f, 1);
        }
    }
    let new_warnings = lasting_warnings(in_headers);
    if text::ascii_len(new_warnings.as_str()) == 0 {
        fields::map_remove(&mut headers, "warning");
    } else if !fields::map_insert(
        &mut headers,
        "warning",
        FieldValue::from_text(new_warnings.as_str()),
    ) {
        return None;
    }
    proof {
        assert(fields::fields_of(headers) =~= model::passed_on(f));
    }
    Some(headers)
}

/// Only names that were there are passed on.
pub proof fn lemma_passed_on_names(f: Fields)
    ensures
        model::passed_on(f).dom().subset_of(f.dom()),
{
    let parts = fields::comma_parts(fields::values(f, "warning"@));
    if !f.dom().contains("warning"@) {
        assert(fields::pieces(fields::values(f, "warning"@)).len() == 0);
        assert(parts.len() == 0);
    }
}

} // verus!
