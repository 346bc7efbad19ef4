//! Header fields: what an `http::HeaderMap` holds, and the operations on it.

use http::header::Entry;
use http::{HeaderMap, HeaderName, HeaderValue};
use vstd::prelude::*;
use vstd::set_lib::lemma_len_subset;
use vstd::string::*;
use vstd::utf8::*;

use crate::text;

verus! {

// ---------------------------------------------------------------------------
// What a header map holds
// ---------------------------------------------------------------------------

/// The header map of the `http` crate.
#[verifier::external_type_specification]
#[verifier::external_body]
#[verifier::reject_recursive_types(T)]
pub struct ExHeaderMap<T>(http::HeaderMap<T>);

/// The value of one header field in the `http` crate.
#[verifier::external_type_specification]
#[verifier::external_body]
pub struct ExHeaderValue(http::HeaderValue);

/// The values of header fields by name, in lower case. The values of one name stand in the
/// order in which they were added. A value is its bytes and whether it is marked as sensitive.
pub type Fields = Map<Seq<char>, Seq<(Seq<u8>, bool)>>;

/// The fields that a header map holds.
pub uninterp spec fn fields_of(map: HeaderMap<HeaderValue>) -> Fields;

/// The value of a header field, as plain data.
#[derive(Debug)]
pub struct FieldValue {
    /// The bytes of the value.
    pub bytes: Vec<u8>,
    /// Whether the value is marked as sensitive.
    pub sensitive: bool,
}

impl View for FieldValue {
    type V = (Seq<u8>, bool);

    open spec fn view(&self) -> (Seq<u8>, bool) {
        (self.bytes@, self.sensitive)
    }
}

/// A character of a field name in lower case.
pub open spec fn is_name_char(c: char) -> bool {
    'a' <= c <= 'z' || text::is_digit(c) || c == '!' || '"' <= c <= '\'' || c == '*' || c == '+' || c
        == '-' || c == '.' || '^' <= c <= '`' || c == '|' || c == '~'
}

/// A field name in lower case.
pub open spec fn is_field_name(s: Seq<char>) -> bool {
    0 < s.len() <= 65535 && forall|i: int| 0 <= i < s.len() ==> is_name_char(#[trigger] s[i])
}

/// A name that a header map can hold. Up to 64 characters it is a field name. A longer one can hold
/// `'\0'` in place of characters that a field name does not have.
pub open spec fn is_held_name(s: Seq<char>) -> bool {
    0 < s.len() <= 65535 && forall|i: int|
        0 <= i < s.len() ==> is_name_char(#[trigger] s[i]) || (s.len() > 64 && s[i] == '\0')
}

/// The name that a header map looks for when it is asked for an ASCII text: the text in lower case.
/// In a text of more than 64 characters, `'\0'` stands for those that a field name does not have.
pub open spec fn looked_up(s: Seq<char>) -> Seq<char> {
    if s.len() <= 64 {
        text::lowered(s)
    } else {
        Seq::new(
            s.len(),
            |i: int|
                if is_name_char(text::lower(s[i])) {
                    text::lower(s[i])
                } else {
                    '\0'
                },
        )
    }
}

/// Bytes that a field value can be made of: no control characters but the tab.
pub open spec fn is_field_bytes(s: Seq<u8>) -> bool {
    forall|i: int| 0 <= i < s.len() ==> (#[trigger] s[i] >= 32 && s[i] != 127) || s[i] == 9
}

/// Whether `more` insertions into a map with these fields are certain to succeed.
///
/// A map that holds at most 6553 names always takes one more. A larger one, of up to 24576 names,
/// may refuse: whether it does depends on how its names are spread over its hash table.
pub open spec fn has_room(fields: Fields, more: nat) -> bool {
    fields.dom().finite() && fields.dom().len() + more <= 6554
}

/// No fields at all.
pub open spec fn no_fields() -> Fields {
    Map::empty()
}

/// Whether the fields are finitely many, under `n` names.
pub open spec fn has_names(fields: Fields, n: nat) -> bool {
    fields.dom().finite() && fields.dom().len() == n
}

/// All values of a name.
pub open spec fn values(fields: Fields, name: Seq<char>) -> Seq<(Seq<u8>, bool)> {
    if fields.dom().contains(name) {
        fields[name]
    } else {
        Seq::empty()
    }
}

/// The first value of a name.
pub open spec fn first(fields: Fields, name: Seq<char>) -> Option<(Seq<u8>, bool)> {
    if fields.dom().contains(name) {
        Some(fields[name][0])
    } else {
        None
    }
}

/// The bytes of the first value of a name.
pub open spec fn first_bytes(fields: Fields, name: Seq<char>) -> Option<Seq<u8>> {
    match first(fields, name) {
        Some(value) => Some(value.0),
        None => None,
    }
}

/// The text that bytes write, where all of them are visible.
pub open spec fn text_of(bytes: Seq<u8>) -> Option<Seq<char>> {
    if forall|i: int| 0 <= i < bytes.len() ==> text::is_visible(#[trigger] bytes[i] as char) {
        Some(Seq::new(bytes.len(), |i: int| bytes[i] as char))
    } else {
        None
    }
}

/// The bytes that write a visible text.
pub open spec fn bytes_of(s: Seq<char>) -> Seq<u8> {
    Seq::new(s.len(), |i: int| s[i] as u8)
}

/// The value that a visible text makes.
pub open spec fn text_value(s: Seq<char>) -> (Seq<u8>, bool) {
    (bytes_of(s), false)
}

/// The text of the first value of a name.
pub open spec fn field_text(fields: Fields, name: Seq<char>) -> Option<Seq<char>> {
    match first(fields, name) {
        Some(value) => text_of(value.0),
        None => None,
    }
}

/// The pieces between the commas of those values that are text, in order.
pub open spec fn pieces(vals: Seq<(Seq<u8>, bool)>) -> Seq<Seq<char>>
    decreases vals.len(),
{
    if vals.len() == 0 {
        Seq::empty()
    } else {
        pieces(vals.drop_last()) + (match text_of(vals.last().0) {
            Some(t) => text::split(t, ','),
            None => Seq::empty(),
        })
    }
}

/// The [`pieces`] of the values, without the blanks around them.
pub open spec fn comma_parts(vals: Seq<(Seq<u8>, bool)>) -> Seq<Seq<char>> {
    Seq::new(pieces(vals).len(), |i: int| text::trimmed(pieces(vals)[i]))
}

/// The plain values that a list of field values holds.
pub open spec fn value_views(vals: Seq<FieldValue>) -> Seq<(Seq<u8>, bool)> {
    Seq::new(vals.len(), |i: int| vals[i]@)
}

/// The plain value of an optional field value.
pub open spec fn option_view(v: Option<FieldValue>) -> Option<(Seq<u8>, bool)> {
    match v {
        Some(value) => Some(value@),
        None => None,
    }
}

/// The text of an optional string.
pub open spec fn option_text(v: Option<String>) -> Option<Seq<char>> {
    match v {
        Some(s) => Some(s@),
        None => None,
    }
}

/// Whether the names are those of the fields. Each is one that a map can hold, and has a value.
pub open spec fn lists_names(names: Seq<Seq<char>>, fields: Fields) -> bool {
    &&& forall|name: Seq<char>| #[trigger] fields.dom().contains(name) <==> names.contains(name)
    &&& forall|i: int|
        0 <= i < names.len() ==> is_held_name(#[trigger] names[i]) && fields[names[i]].len() > 0
}

/// What a map holds after an insertion that succeeded (`done`) or was refused.
pub open spec fn inserted(
    before: Fields,
    done: bool,
    name: Seq<char>,
    vals: Seq<(Seq<u8>, bool)>,
) -> Fields {
    if done {
        before.insert(name, vals)
    } else {
        before
    }
}

// ---------------------------------------------------------------------------
// The operations of the header map
// ---------------------------------------------------------------------------

/// `HeaderMap::new`: a map without fields.
#[verifier::external_body]
pub(crate) fn map_new() -> (r: HeaderMap)
    ensures
        fields_of(r) == no_fields(),
{
    HeaderMap::new()
}

/// `HeaderMap::clone`: a map with the same fields.
#[verifier::external_body]
pub(crate) fn map_clone(map: &HeaderMap) -> (r: HeaderMap)
    ensures
        fields_of(r) == fields_of(*map),
{
    map.clone()
}

/// `HeaderMap::keys_len`: the number of names.
#[verifier::external_body]
pub(crate) fn map_names_len(map: &HeaderMap) -> (r: usize)
    ensures
        has_names(fields_of(*map), r as nat),
{
    map.keys_len()
}

/// `HeaderMap::contains_key`: whether the map has a value under the name that it looks for.
#[verifier::external_body]
pub(crate) fn map_contains(map: &HeaderMap, name: &str) -> (r: bool)
    requires
        is_ascii_chars(name@),
    ensures
        r == fields_of(*map).dom().contains(looked_up(name@)),
        r ==> fields_of(*map)[looked_up(name@)].len() > 0,
{
    map.contains_key(name)
}

/// `HeaderMap::get`: the first value under the name that the map looks for.
#[verifier::external_body]
pub(crate) fn map_get(map: &HeaderMap, name: &str) -> (r: Option<FieldValue>)
    requires
        is_ascii_chars(name@),
    ensures
        option_view(r) == first(fields_of(*map), looked_up(name@)),
{
    map.get(name).map(|v| FieldValue { bytes: v.as_bytes().to_vec(), sensitive: v.is_sensitive() })
}

/// `HeaderMap::get_all`: all values under the name that the map looks for, in their order.
#[verifier::external_body]
pub(crate) fn map_get_all(map: &HeaderMap, name: &str) -> (r: Vec<FieldValue>)
    requires
        is_ascii_chars(name@),
    ensures
        value_views(r@) == values(fields_of(*map), looked_up(name@)),
{
    map.get_all(name).iter().map(
        |v| FieldValue { bytes: v.as_bytes().to_vec(), sensitive: v.is_sensitive() },
    ).collect()
}

/// `HeaderMap::keys`: the names of the map. Their order is left open.
#[verifier::external_body]
pub(crate) fn map_names(map: &HeaderMap) -> (r: Vec<String>)
    ensures
        lists_names(text::string_views(r@), fields_of(*map)),
{
    map.keys().map(|k| k.as_str().to_owned()).collect()
}

/// `HeaderMap::try_insert`: the value becomes the only one of the name, or the map refuses because
/// it is full and stays as it was. It does not refuse where there is certain to be room; beyond that
/// it is left open whether it does, which depends on how its names hash.
#[verifier::external_body]
pub(crate) fn map_insert(map: &mut HeaderMap, name: &str, value: FieldValue) -> (r: bool)
    requires
        is_field_name(name@),
        is_field_bytes(value.bytes@),
    ensures
        fields_of(*final(map)) == inserted(fields_of(*old(map)), r, name@, seq![value@]),
        has_room(fields_of(*old(map)), 1) ==> r,
{
    let mut v = HeaderValue::from_bytes(&value.bytes).unwrap();
    v.set_sensitive(value.sensitive);
    map.try_insert(HeaderName::from_bytes(name.as_bytes()).unwrap(), v).is_ok()
}

/// `HeaderMap::try_append`: the value is added behind the others of the name, or the map refuses
/// because it is full and stays as it was. It does not refuse where there is certain to be room;
/// beyond that it is left open whether it does, which depends on how its names hash.
#[verifier::external_body]
pub(crate) fn map_append(map: &mut HeaderMap, name: &str, value: FieldValue) -> (r: bool)
    requires
        is_field_name(name@),
        is_field_bytes(value.bytes@),
    ensures
        fields_of(*final(map)) == inserted(
            fields_of(*old(map)),
            r,
            name@,
            values(fields_of(*old(map)), name@).push(value@),
        ),
        has_room(fields_of(*old(map)), 1) ==> r,
{
    let mut v = HeaderValue::from_bytes(&value.bytes).unwrap();
    v.set_sensitive(value.sensitive);
    map.try_append(HeaderName::from_bytes(name.as_bytes()).unwrap(), v).is_ok()
}

/// `HeaderMap::try_entry`, and `insert` on the entry: the value that stands at `at` among those of
/// the name in one map becomes the only one of that name in the other, or that map refuses because
/// it is full and stays as it was. It does not refuse where there is certain to be room; beyond that
/// it is left open whether it does, which depends on how its names hash.
#[verifier::external_body]
pub(crate) fn map_insert_from(to: &mut HeaderMap, from: &HeaderMap, name: &str, at: usize) -> (r: bool)
    requires
        fields_of(*from).dom().contains(name@),
        at < fields_of(*from)[name@].len(),
    ensures
        fields_of(*final(to)) == inserted(
            fields_of(*old(to)),
            r,
            name@,
            seq![fields_of(*from)[name@][at as int]],
        ),
        has_room(fields_of(*old(to)), 1) ==> r,
{
    let value = from.get_all(name).iter().nth(at).unwrap().clone();
    match to.try_entry(name) {
        Ok(Entry::Occupied(mut entry)) => {
            entry.insert(value);
            true
        },
        Ok(Entry::Vacant(entry)) => entry.try_insert(value).is_ok(),
        Err(_) => false,
    }
}

/// `HeaderMap::remove`: all values under the name that the map looks for are taken out.
#[verifier::external_body]
pub(crate) fn map_remove(map: &mut HeaderMap, name: &str)
    requires
        is_ascii_chars(name@),
    ensures
        fields_of(*final(map)) == fields_of(*old(map)).remove(looked_up(name@)),
{
    map.remove(name);
}

/// `HeaderValue::to_str`: the text of a value, where all its bytes are visible ASCII or tabs.
#[verifier::external_body]
pub(crate) fn value_to_str(bytes: &[u8]) -> (r: Option<String>)
    ensures
        option_text(r) == text_of(bytes@),
{
    HeaderValue::from_bytes(bytes).ok()?.to_str().ok().map(|s| s.to_owned())
}

// ---------------------------------------------------------------------------
// Reading fields
// ---------------------------------------------------------------------------

/// The text of a value is visible.
pub proof fn lemma_text_visible(bytes: Seq<u8>)
    ensures
        text_of(bytes) matches Some(t) ==> text::is_visible_text(t),
{
}

/// The bytes of visible text can stand in a field, and read back as the text.
pub proof fn lemma_text_value(s: Seq<char>)
    requires
        text::is_visible_text(s),
    ensures
        is_field_bytes(bytes_of(s)),
        text_of(bytes_of(s)) == Some(s),
        bytes_of(s) == encode_utf8(s),
{
    text::lemma_visible_is_ascii(s);
    is_ascii_chars_encode_utf8(s);
    let b = bytes_of(s);
    assert forall|i: int| 0 <= i < b.len() implies text::is_visible(#[trigger] b[i] as char)
        && b[i] as char == s[i] by {
        assert(text::is_visible(s[i]));
    }
    assert forall|i: int| 0 <= i < b.len() implies (#[trigger] b[i] >= 32 && b[i] != 127) || b[i]
        == 9 by {
        assert(text::is_visible(b[i] as char));
    }
    assert(text_of(b)->0 =~= s);
    assert(b =~= encode_utf8(s));
}

/// A name that a map can hold is looked up as it stands.
pub proof fn lemma_held_name(s: Seq<char>)
    requires
        is_held_name(s),
    ensures
        looked_up(s) == s,
        is_ascii_chars(s),
{
    assert forall|i: int| 0 <= i < s.len() implies '\0' <= #[trigger] s[i] <= '\u{7f}' && text::lower(
        s[i],
    ) == s[i] by {
        assert(is_name_char(s[i]) || s[i] == '\0');
    }
    assert(looked_up(s) =~= s);
}

/// A field name that is looked up as it stands.
pub open spec fn is_plain_name(s: Seq<char>) -> bool {
    is_field_name(s) && looked_up(s) == s && is_ascii_chars(s)
}

proof fn lemma_plain_name(s: Seq<char>)
    requires
        is_field_name(s),
    ensures
        is_plain_name(s),
{
    assert forall|i: int| 0 <= i < s.len() implies is_name_char(#[trigger] s[i]) || (s.len() > 64
        && s[i] == '\0') by {}
    lemma_held_name(s);
}

/// The names that the library knows are field names.
pub proof fn lemma_known_names()
    ensures
        is_plain_name("cache-control"@),
        is_plain_name("pragma"@),
        is_plain_name("expires"@),
        is_plain_name("authorization"@),
        is_plain_name("host"@),
        is_plain_name("vary"@),
        is_plain_name("connection"@),
        is_plain_name("warning"@),
        is_plain_name("age"@),
        is_plain_name("date"@),
        is_plain_name("set-cookie"@),
        is_plain_name("last-modified"@),
        is_plain_name("etag"@),
        is_plain_name("if-range"@),
        is_plain_name("if-none-match"@),
        is_plain_name("if-modified-since"@),
        is_plain_name("accept-ranges"@),
        is_plain_name("if-match"@),
        is_plain_name("if-unmodified-since"@),
{
    reveal_strlit("cache-control");
    lemma_plain_name("cache-control"@);
    reveal_strlit("pragma");
    lemma_plain_name("pragma"@);
    reveal_strlit("expires");
    lemma_plain_name("expires"@);
    reveal_strlit("authorization");
    lemma_plain_name("authorization"@);
    reveal_strlit("host");
    lemma_plain_name("host"@);
    reveal_strlit("vary");
    lemma_plain_name("vary"@);
    reveal_strlit("connection");
    lemma_plain_name("connection"@);
    reveal_strlit("warning");
    lemma_plain_name("warning"@);
    reveal_strlit("age");
    lemma_plain_name("age"@);
    reveal_strlit("date");
    lemma_plain_name("date"@);
    reveal_strlit("set-cookie");
    lemma_plain_name("set-cookie"@);
    reveal_strlit("last-modified");
    lemma_plain_name("last-modified"@);
    reveal_strlit("etag");
    lemma_plain_name("etag"@);
    reveal_strlit("if-range");
    lemma_plain_name("if-range"@);
    reveal_strlit("if-none-match");
    lemma_plain_name("if-none-match"@);
    reveal_strlit("if-modified-since");
    lemma_plain_name("if-modified-since"@);
    reveal_strlit("accept-ranges");
    lemma_plain_name("accept-ranges"@);
    reveal_strlit("if-match");
    lemma_plain_name("if-match"@);
    reveal_strlit("if-unmodified-since");
    lemma_plain_name("if-unmodified-since"@);
}

impl FieldValue {
    /// The value that a visible text makes.
    pub fn from_text(s: &str) -> (r: FieldValue)
        requires
            text::is_visible_text(s@),
        ensures
            r@ == text_value(s@),
            is_field_bytes(r.bytes@),
    {
        proof {
            lemma_text_value(s@);
        }
        FieldValue { bytes: s.as_bytes_vec(), sensitive: false }
    }
}

/// The text of the first value of a name.
pub(crate) fn get_str(map: &HeaderMap, name: &str) -> (r: Option<String>)
    requires
        is_ascii_chars(name@),
    ensures
        option_text(r) == field_text(fields_of(*map), looked_up(name@)),
        r matches Some(s) ==> text::is_visible_text(s@),
{
    match map_get(map, name) {
        Some(value) => {
            proof {
                lemma_text_visible(value.bytes@);
            }
            value_to_str(value.bytes.as_slice())
        },
        None => None,
    }
}

/// Whether the first values of a name in two maps are the same bytes, or both missing.
pub(crate) fn same_first(a: &HeaderMap, b: &HeaderMap, name: &str) -> (r: bool)
    requires
        is_ascii_chars(name@),
    ensures
        r == (first_bytes(fields_of(*a), looked_up(name@)) == first_bytes(
            fields_of(*b),
            looked_up(name@),
        )),
{
    match (map_get(a, name), map_get(b, name)) {
        (Some(x), Some(y)) => text::bytes_equal(x.bytes.as_slice(), y.bytes.as_slice()),
        (None, None) => true,
        _ => false,
    }
}

/// The pieces of values are visible.
pub proof fn lemma_pieces_visible(vals: Seq<(Seq<u8>, bool)>)
    ensures
        forall|i: int| 0 <= i < pieces(vals).len() ==> text::is_visible_text(#[trigger] pieces(vals)[i]),
        forall|i: int, j: int|
            0 <= i < pieces(vals).len() && 0 <= j < pieces(vals)[i].len()
                ==> #[trigger] pieces(vals)[i][j] != ',',
    decreases vals.len(),
{
    if vals.len() > 0 {
        lemma_pieces_visible(vals.drop_last());
        let head = pieces(vals.drop_last());
        if let Some(t) = text_of(vals.last().0) {
            lemma_text_visible(vals.last().0);
            text::lemma_split_pieces(t, ',');
            assert forall|i: int| 0 <= i < pieces(vals).len() implies text::is_visible_text(
                #[trigger] pieces(vals)[i],
            ) by {
                if i >= head.len() {
                    assert(pieces(vals)[i] == text::split(t, ',')[i - head.len()]);
                }
            }
            assert forall|i: int, j: int|
                0 <= i < pieces(vals).len() && 0 <= j < pieces(vals)[i].len() implies #[trigger] pieces(
                vals,
            )[i][j] != ',' by {
                if i >= head.len() {
                    assert(pieces(vals)[i] == text::split(t, ',')[i - head.len()]);
                    assert(text::split(t, ',')[i - head.len()][j] != ',');
                } else {
                    assert(pieces(vals)[i] == head[i]);
                    assert(head[i][j] != ',');
                }
            }
        } else {
            assert(pieces(vals) =~= head);
        }
    }
}

/// The pieces between the commas of values that are text.
pub fn comma_pieces(vals: &Vec<FieldValue>) -> (r: Vec<String>)
    ensures
        text::string_views(r@) == pieces(value_views(vals@)),
{
    let mut out: Vec<String> = Vec::new();
    let ghost all = value_views(vals@);
    let mut i: usize = 0;
    proof {
        assert(all.take(0) =~= Seq::<(Seq<u8>, bool)>::empty());
        assert(text::string_views(out@) =~= pieces(all.take(0)));
    }
    while i < vals.len()
        invariant
            0 <= i <= vals.len(),
            all == value_views(vals@),
            text::string_views(out@) == pieces(all.take(i as int)),
        decreases vals.len() - i,
    {
        let ghost before = text::string_views(out@);
        proof {
            assert(all.take(i + 1).drop_last() =~= all.take(i as int));
            assert(all.take(i + 1).last() == vals@[i as int]@);
            lemma_text_visible(vals@[i as int].bytes@);
        }
        match value_to_str(vals[i].bytes.as_slice()) {
            Some(s) => {
                let parts = text::split_commas(s.as_str());
                let mut j: usize = 0;
                proof {
                    assert(text::string_views(out@) =~= before + text::views(parts@).take(0));
                }
                while j < parts.len()
                    invariant
                        0 <= j <= parts.len(),
                        text::string_views(out@) == before + text::views(parts@).take(j as int),
                    decreases parts.len() - j,
                {
                    let ghost held = text::string_views(out@);
                    out.push(parts[j].to_owned());
                    proof {
                        assert(text::string_views(out@) =~= held.push(parts@[j as int]@));
                        assert(text::string_views(out@) =~= before + text::views(parts@).take(j + 1));
                    }
                    j = j + 1;
                }
                proof {
                    assert(text::views(parts@).take(j as int) =~= text::views(parts@));
                }
            },
            None => {
                proof {
                    assert(before =~= pieces(all.take(i + 1)));
                }
            },
        }
        i = i + 1;
    }
    proof {
        assert(all.take(i as int) =~= all);
    }
    out
}

/// The parts between the commas of values that are text, without the blanks around them.
pub fn get_all_comma(vals: &Vec<FieldValue>) -> (r: Vec<String>)
    ensures
        text::string_views(r@) == comma_parts(value_views(vals@)),
        forall|i: int| 0 <= i < r@.len() ==> text::is_visible_text((#[trigger] r@[i])@),
{
    let parts = comma_pieces(vals);
    let ghost all = pieces(value_views(vals@));
    proof {
        lemma_pieces_visible(value_views(vals@));
    }
    let mut out: Vec<String> = Vec::new();
    let mut i: usize = 0;
    while i < parts.len()
        invariant
            0 <= i <= parts.len(),
            out.len() == i,
            text::string_views(parts@) == all,
            forall|j: int| 0 <= j < all.len() ==> text::is_visible_text(#[trigger] all[j]),
            forall|j: int|
                0 <= j < i ==> (#[trigger] out@[j])@ == text::trimmed(all[j]) && text::is_visible_text(
                    out@[j]@,
                ),
        decreases parts.len() - i,
    {
        assert(parts@[i as int]@ == all[i as int]);
        out.push(text::trim(parts[i].as_str()).to_owned());
        i = i + 1;
    }
    assert(text::string_views(out@) =~= comma_parts(value_views(vals@)));
    out
}

/// One more name.
pub proof fn lemma_names_step(names: Seq<Seq<char>>, i: int)
    requires
        0 <= i < names.len(),
    ensures
        forall|name: Seq<char>| #[trigger]
            names.take(i + 1).contains(name) <==> names.take(i).contains(name) || name == names[i],
{
    assert forall|name: Seq<char>| #[trigger]
        names.take(i + 1).contains(name) <==> names.take(i).contains(name) || name == names[i] by {
        let next = names.take(i + 1);
        if next.contains(name) {
            let k = choose|k: int| 0 <= k < next.len() && #[trigger] next[k] == name;
            if k < i {
                assert(names.take(i)[k] == name);
            }
        }
        if names.take(i).contains(name) {
            let k = choose|k: int| 0 <= k < i && names.take(i)[k] == name;
            assert(next[k] == name);
        }
        assert(next[i] == names[i]);
    }
}

/// Fields under the first names of a map that has room leave room.
pub proof fn lemma_names_room(names: Seq<Seq<char>>, i: int, part: Fields, whole: Fields)
    requires
        0 <= i <= names.len(),
        lists_names(names, whole),
        has_room(whole, 1),
        forall|name: Seq<char>| #[trigger] part.dom().contains(name) ==> names.take(i).contains(name),
    ensures
        has_room(part, 1),
{
    assert forall|name: Seq<char>| #[trigger] part.dom().contains(name) implies whole.dom().contains(
        name,
    ) by {
        let k = choose|k: int| 0 <= k < i && names.take(i)[k] == name;
        assert(names[k] == name);
        assert(names.contains(name));
    }
    lemma_room_of_part(part, whole, 1);
}

/// Fields under some of the names leave at least as much room.
pub proof fn lemma_room_of_part(part: Fields, whole: Fields, more: nat)
    requires
        has_room(whole, more),
        part.dom().subset_of(whole.dom()),
    ensures
        has_room(part, more),
{
    lemma_len_subset(part.dom(), whole.dom());
}

/// Whether `more` insertions are certain to succeed.
pub fn map_has_room(headers: &HeaderMap, more: usize) -> (r: bool)
    requires
        more <= 6554,
    ensures
        r == has_room(fields_of(*headers), more as nat),
{
    map_names_len(headers) <= 6554 - more
}

} // verus!
