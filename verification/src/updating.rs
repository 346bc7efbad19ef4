//! A stored response brought up to date.

use http::HeaderMap;
use vstd::prelude::*;

use crate::fields;
use crate::fields::Fields;
use crate::model;
use crate::text;

verus! {

fn describes_body(name: &str) -> (r: bool)
    ensures
        r == model::describes_body(name@),
{
    text::text_equal(name, "content-length") || text::text_equal(name, "content-encoding")
        || text::text_equal(name, "transfer-encoding") || text::text_equal(name, "content-range")
}

/// The fields of these names, each with the first value that the answer has for it, unless the field
/// describes the body, or else with its last stored value.
spec fn refreshed(names: Seq<Seq<char>>, stored: Fields, answer: Fields) -> Fields {
    Map::new(
        |name: Seq<char>| names.contains(name),
        |name: Seq<char>| model::updated(stored, answer)[name],
    )
}

/// One more name puts its value there.
proof fn lemma_refreshed_step(names: Seq<Seq<char>>, i: int, stored: Fields, answer: Fields)
    requires
        0 <= i < names.len(),
    ensures
        refreshed(names.take(i + 1), stored, answer) == refreshed(
            names.take(i),
            stored,
            answer,
        ).insert(names[i], model::updated(stored, answer)[names[i]]),
{
    fields::lemma_names_step(names, i);
    assert(refreshed(names.take(i + 1), stored, answer) =~= refreshed(
        names.take(i),
        stored,
        answer,
    ).insert(names[i], model::updated(stored, answer)[names[i]]));
}

/// The fields of the stored response brought up to date by an answer that confirms it; `None` where
/// the map for them is full, which it is not where there is certain to be room.
pub fn updated_headers(stored: &HeaderMap, answer: &HeaderMap) -> (r: Option<HeaderMap>)
    ensures
        fields::has_room(fields::fields_of(*stored), 1) ==> r is Some,
        r matches Some(headers) ==> fields::fields_of(headers) == model::updated(
            fields::fields_of(*stored),
            fields::fields_of(*answer),
        ),
{
    let ghost f = fields::fields_of(*stored);
    let ghost new = fields::fields_of(*answer);
    let mut headers = fields::map_new();
    let names = fields::map_names(stored);
    let ghost all = text::string_views(names@);
    let mut i: usize = 0;
    proof {
        assert(fields::fields_of(headers) =~= refreshed(all.take(0), f, new));
    }
    // use other header fields provided in the 304 (Not Modified) response to replace all instances
    // of the corresponding header fields in the stored response.
    while i < names.len()
        invariant
            0 <= i <= names.len(),
            f == fields::fields_of(*stored),
            new == fields::fields_of(*answer),
            all == text::string_views(names@),
            fields::lists_names(all, f),
            fields::fields_of(headers) == refreshed(all.take(i as int), f, new),
        decreases names.len() - i,
    {
        let name = names[i].as_str();
        proof {
            assert(name@ == all[i as int]);
            assert(all.contains(all[i as int]));
            fields::lemma_held_name(name@);
            lemma_refreshed_step(all, i as int, f, new);
            if fields::has_room(f, 1) {
                fields::lemma_names_room(all, i as int, refreshed(all.take(i as int), f, new), f);
            }
        }
        let done = if fields::map_contains(answer, name) && !describes_body(name) {
            fields::map_insert_from(&mut headers, answer, name, 0)
        } else {
            let count: usize = fields::map_get_all(stored, name).len();
            proof {
                assert(fields::values(f, name@).len() == count);
            }
            fields::map_insert_from(&mut headers, stored, name, count - 1)
        };
        if !done {
            return None;
        }
        i = i + 1;
    }
    proof {
        assert(all.take(i as int) =~= all);
        assert(refreshed(all, f, new) =~= model::updated(f, new));
    }
    Some(headers)
}

} // verus!
