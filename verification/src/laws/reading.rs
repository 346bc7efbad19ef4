//! How the text of fields is read: parts of lists, numbers, and directives.

use vstd::prelude::*;

use crate::directives;
use crate::directives::Directives;
use crate::fields;
use crate::fields::{FieldValue, Fields};
use crate::text;

verus! {

// ---------------------------------------------------------------------------
// Text
// ---------------------------------------------------------------------------

/// Trimming takes the spaces and tabs off the two ends of a text, all of them and nothing else.
pub proof fn law_trimming(s: Seq<char>) -> (bounds: (int, int))
    ensures
        0 <= bounds.0 <= bounds.1 <= s.len(),
        text::trimmed(s) == s.subrange(bounds.0, bounds.1),
        forall|i: int| 0 <= i < bounds.0 ==> #[trigger] s[i] == ' ' || s[i] == '\t',
        forall|i: int| bounds.1 <= i < s.len() ==> #[trigger] s[i] == ' ' || s[i] == '\t',
        bounds.0 < bounds.1 ==> s[bounds.0] != ' ' && s[bounds.0] != '\t' && s[bounds.1 - 1] != ' '
            && s[bounds.1 - 1] != '\t',
{
    lemma_stripping(s, text::blanks())
}

/// Unquoting takes the quotation marks off the two ends of a text, all of them and nothing else.
pub proof fn law_unquoting(s: Seq<char>) -> (bounds: (int, int))
    ensures
        0 <= bounds.0 <= bounds.1 <= s.len(),
        text::unquoted(s) == s.subrange(bounds.0, bounds.1),
        forall|i: int| 0 <= i < bounds.0 ==> #[trigger] s[i] == '"',
        forall|i: int| bounds.1 <= i < s.len() ==> #[trigger] s[i] == '"',
        bounds.0 < bounds.1 ==> s[bounds.0] != '"' && s[bounds.1 - 1] != '"',
{
    lemma_stripping(s, text::quotes())
}

proof fn lemma_stripping(s: Seq<char>, cut: Set<char>) -> (bounds: (int, int))
    ensures
        0 <= bounds.0 <= bounds.1 <= s.len(),
        text::strip(s, cut) == s.subrange(bounds.0, bounds.1),
        forall|i: int| 0 <= i < bounds.0 ==> cut.contains(#[trigger] s[i]),
        forall|i: int| bounds.1 <= i < s.len() ==> cut.contains(#[trigger] s[i]),
        bounds.0 < bounds.1 ==> !cut.contains(s[bounds.0]) && !cut.contains(s[bounds.1 - 1]),
    decreases s.len(),
{
    if s.len() > 0 && cut.contains(s[0]) {
        let rest = s.skip(1);
        let b = lemma_stripping(rest, cut);
        assert(s.subrange(b.0 + 1, b.1 + 1) =~= rest.subrange(b.0, b.1));
        assert forall|i: int| 0 <= i < b.0 + 1 implies cut.contains(#[trigger] s[i]) by {
            if i > 0 {
                assert(s[i] == rest[i - 1]);
            }
        }
        assert forall|i: int| b.1 + 1 <= i < s.len() implies cut.contains(#[trigger] s[i]) by {
            assert(s[i] == rest[i - 1]);
        }
        (b.0 + 1, b.1 + 1)
    } else {
        assert(text::strip_start(s, cut) == s);
        let end = lemma_stripping_end(s, cut);
        assert(s.take(end) =~= s.subrange(0, end));
        (0, end)
    }
}

proof fn lemma_stripping_end(s: Seq<char>, cut: Set<char>) -> (end: int)
    ensures
        0 <= end <= s.len(),
        text::strip_end(s, cut) == s.take(end),
        forall|i: int| end <= i < s.len() ==> cut.contains(#[trigger] s[i]),
        end > 0 ==> !cut.contains(s[end - 1]),
    decreases s.len(),
{
    if s.len() > 0 && cut.contains(s.last()) {
        let rest = s.drop_last();
        let end = lemma_stripping_end(rest, cut);
        assert(rest.take(end) =~= s.take(end));
        assert forall|i: int| end <= i < s.len() implies cut.contains(#[trigger] s[i]) by {
            if i < rest.len() {
                assert(s[i] == rest[i]);
            }
        }
        end
    } else {
        assert(s.take(s.len() as int) =~= s);
        s.len() as int
    }
}

/// A text without the separator is one piece. A separator between two texts parts their pieces.
pub proof fn law_splitting(a: Seq<char>, sep: char, b: Seq<char>)
    ensures
        (forall|i: int| 0 <= i < a.len() ==> #[trigger] a[i] != sep) ==> text::split(a, sep) == seq![a],
        text::split(a + seq![sep] + b, sep) == text::split(a, sep) + text::split(b, sep),
{
    if forall|i: int| 0 <= i < a.len() ==> #[trigger] a[i] != sep {
        text::lemma_split_whole(a, sep);
    }
    text::lemma_split_concat(a, sep, b);
    assert(a + seq![sep] + b =~= a.push(sep) + b);
}

/// One part joined is that part. A part more stands behind a comma and a space, unless nothing stands
/// before it.
pub proof fn law_joining(parts: Seq<Seq<char>>, part: Seq<char>)
    ensures
        text::joined(Seq::<Seq<char>>::empty()) == Seq::<char>::empty(),
        text::joined(seq![part]) == part,
        text::joined(parts).len() == 0 ==> text::joined(parts.push(part)) == part,
        text::joined(parts).len() > 0 ==> text::joined(parts.push(part)) == text::joined(parts) + seq![
            ',',
            ' ',
        ] + part,
{
    reveal_strlit(", ");
    assert(", "@ =~= seq![',', ' ']);
    assert(parts.push(part).drop_last() =~= parts);
    assert(seq![part].drop_last() =~= Seq::<Seq<char>>::empty());
}

/// A text occurs in another if all its characters stand there in a row; that one begins with it if
/// they stand at its beginning.
pub proof fn law_occurring(s: Seq<char>, t: Seq<char>)
    ensures
        text::contains_text(s, t) <==> exists|i: int|
            0 <= i <= s.len() - t.len() && #[trigger] s.skip(i).take(t.len() as int) == t,
        text::begins_with(s, t) <==> t.len() <= s.len() && forall|j: int|
            0 <= j < t.len() ==> #[trigger] s[j] == t[j],
{
    if text::contains_text(s, t) {
        let i = choose|i: int|
            0 <= i <= s.len() - t.len() && #[trigger] s.subrange(i, i + t.len()) == t;
        assert(s.skip(i).take(t.len() as int) =~= s.subrange(i, i + t.len()));
    }
    if exists|i: int| 0 <= i <= s.len() - t.len() && #[trigger] s.skip(i).take(t.len() as int) == t {
        let i = choose|i: int|
            0 <= i <= s.len() - t.len() && #[trigger] s.skip(i).take(t.len() as int) == t;
        assert(s.skip(i).take(t.len() as int) =~= s.subrange(i, i + t.len()));
        assert(s.subrange(i, i + t.len()) == t);
    }
    if text::begins_with(s, t) {
        assert forall|j: int| 0 <= j < t.len() implies #[trigger] s[j] == t[j] by {
            assert(s.take(t.len() as int)[j] == s[j]);
        }
    }
    if t.len() <= s.len() && forall|j: int| 0 <= j < t.len() ==> #[trigger] s[j] == t[j] {
        assert(s.take(t.len() as int) =~= t);
    }
}

/// Every `W/` at the beginning of a text is a weak mark, and nothing else is.
pub proof fn law_weak_marks(s: Seq<char>) -> (k: int)
    ensures
        0 <= k,
        2 * k <= s.len(),
        text::without_weak_marks(s) == s.skip(2 * k),
        forall|i: int| 0 <= i < k ==> s[#[trigger] (2 * i)] == 'W' && s[2 * i + 1] == '/',
        !(2 * k + 1 < s.len() && s[2 * k] == 'W' && s[2 * k + 1] == '/'),
    decreases s.len(),
{
    if s.len() >= 2 && s[0] == 'W' && s[1] == '/' {
        let rest = s.skip(2);
        let k = law_weak_marks(rest);
        assert(rest.skip(2 * k) =~= s.skip(2 * (k + 1)));
        assert forall|i: int| 0 <= i < k + 1 implies s[#[trigger] (2 * i)] == 'W' && s[2 * i + 1]
            == '/' by {
            if i > 0 {
                assert(rest[2 * (i - 1)] == s[2 * i]);
                assert(rest[2 * (i - 1) + 1] == s[2 * i + 1]);
            }
        }
        k + 1
    } else {
        assert(s.skip(0) =~= s);
        0
    }
}

/// A text in lower case has the same characters, but for the 26 capitals.
pub proof fn law_lower_case(s: Seq<char>, i: int)
    requires
        0 <= i < s.len(),
    ensures
        text::lowered(s).len() == s.len(),
        'A' <= s[i] <= 'Z' ==> text::lowered(s)[i] as int == s[i] as int + 32,
        !('A' <= s[i] <= 'Z') ==> text::lowered(s)[i] == s[i],
{
}

/// A name of up to 64 characters is looked up in lower case. So is a longer one, but for characters
/// that a name does not have: these count as no character. What is looked up stays as it is.
pub proof fn law_looking_up(s: Seq<char>)
    ensures
        fields::looked_up(s).len() == s.len(),
        s.len() <= 64 ==> fields::looked_up(s) == text::lowered(s),
        s.len() > 64 ==> forall|i: int|
            0 <= i < s.len() ==> {
                let c = text::lowered(s)[i];
                let allowed = 'a' <= c <= 'z' || '0' <= c <= '9' || c == '!' || c == '"' || c == '#' || c
                    == '$' || c == '%' || c == '&' || c == '\'' || c == '*' || c == '+' || c == '-' || c
                    == '.' || c == '^' || c == '_' || c == '`' || c == '|' || c == '~';
                #[trigger] fields::looked_up(s)[i] == if allowed {
                    c
                } else {
                    '\0'
                }
            },
        fields::looked_up(fields::looked_up(s)) == fields::looked_up(s),
{
    assert(fields::looked_up(fields::looked_up(s)) =~= fields::looked_up(s));
}

// ---------------------------------------------------------------------------
// Numbers
// ---------------------------------------------------------------------------

/// One digit is a number.
pub proof fn law_one_digit(c: char)
    ensures
        '0' <= c <= '9' ==> text::number(seq![c]) == Some((c as int - '0' as int) as u64),
        !('0' <= c <= '9') ==> text::number(seq![c]) is None,
        text::number(Seq::empty()) is None,
{
    let s = seq![c];
    assert(s.drop_last() =~= Seq::<char>::empty());
    assert(s.last() == c && s[0] == c);
    assert(text::digits_value(s.drop_last()) == 0);
    if '0' <= c <= '9' {
        assert(text::unsigned_digits(s) == s);
        assert(text::digits_value(s) == (c as nat - '0' as nat) as nat);
    } else if c == '+' {
        assert(s.skip(1) =~= Seq::<char>::empty());
    } else {
        assert(text::unsigned_digits(s) == s);
        assert(!text::is_digit(s[0]));
    }
}

/// A digit behind a number makes it ten times as much and that digit more, unless that is too much
/// for 64 bits. Anything else behind it makes it no number.
pub proof fn law_one_digit_more(s: Seq<char>, c: char, n: u64)
    requires
        text::number(s) == Some(n),
    ensures
        ({
            let m = n * 10 + (c as int - '0' as int);
            &&& '0' <= c <= '9' && m <= u64::MAX ==> text::number(s.push(c)) == Some(m as u64)
            &&& !('0' <= c <= '9' && m <= u64::MAX) ==> text::number(s.push(c)) is None
        }),
{
    let digits = text::unsigned_digits(s);
    let more = text::unsigned_digits(s.push(c));
    assert(more =~= digits.push(c));
    assert(more.drop_last() =~= digits);
    assert(more.last() == c);
    assert(more[digits.len() as int] == c);
    assert forall|i: int| 0 <= i < digits.len() implies #[trigger] more[i] == digits[i] by {}
}

/// What is no number does not become one by what stands behind it, but for a plus sign alone.
pub proof fn law_no_number_stays_none(s: Seq<char>, c: char)
    requires
        text::number(s) is None,
        s.len() > 0,
        s != seq!['+'],
    ensures
        text::number(s.push(c)) is None,
{
    let digits = text::unsigned_digits(s);
    let more = text::unsigned_digits(s.push(c));
    assert(more =~= digits.push(c));
    assert(more.drop_last() =~= digits);
    if digits.len() == 0 {
        assert(s =~= seq!['+']);
    } else if exists|i: int| 0 <= i < digits.len() && !text::is_digit(#[trigger] digits[i]) {
        let i = choose|i: int| 0 <= i < digits.len() && !text::is_digit(#[trigger] digits[i]);
        assert(!text::is_digit(more[i]));
    } else {
        assert(text::digits_value(more) >= text::digits_value(digits));
    }
}

/// A plus sign before digits changes nothing.
pub proof fn law_plus_sign(s: Seq<char>)
    requires
        s.len() > 0,
        s[0] != '+',
    ensures
        text::number(seq!['+'] + s) == text::number(s),
{
    assert((seq!['+'] + s).skip(1) =~= s);
}

/// A number in decimal reads back, is made of digits, and does not begin with a zero but for zero.
pub proof fn law_decimal(n: u64)
    ensures
        text::number(text::decimal(n as nat)) == Some(n),
        text::decimal(n as nat).len() > 0,
        forall|i: int|
            0 <= i < text::decimal(n as nat).len() ==> '0' <= #[trigger] text::decimal(n as nat)[i] <= '9',
        n > 0 ==> text::decimal(n as nat)[0] != '0',
{
    text::law_number_reads_decimal(n);
    lemma_decimal_digits(n as nat);
}

proof fn lemma_decimal_digits(n: nat)
    ensures
        text::decimal(n).len() > 0,
        forall|i: int| 0 <= i < text::decimal(n).len() ==> '0' <= #[trigger] text::decimal(n)[i] <= '9',
        n > 0 ==> text::decimal(n)[0] != '0',
    decreases n,
{
    if n >= 10 {
        lemma_decimal_digits(n / 10);
    }
}

// ---------------------------------------------------------------------------
// Fields
// ---------------------------------------------------------------------------

/// The values of a name are those under it, none where there are none; its first value is the first
/// of them.
pub proof fn law_values_of_a_name(f: Fields, name: Seq<char>)
    ensures
        f.dom().contains(name) ==> fields::values(f, name) == f[name] && fields::first_bytes(f, name)
            == Some(f[name][0].0) && fields::field_text(f, name) == fields::text_of(f[name][0].0),
        !f.dom().contains(name) ==> fields::values(f, name).len() == 0 && fields::first_bytes(f, name)
            == None::<Seq<u8>> && fields::field_text(f, name) == None::<Seq<char>>,
{
}

/// Bytes are text if all of them are printable ASCII or tabs, and then each is the character of that
/// code.
pub proof fn law_bytes_that_are_text(bytes: Seq<u8>)
    ensures
        fields::text_of(bytes) is Some <==> forall|i: int|
            0 <= i < bytes.len() ==> (32 <= #[trigger] bytes[i] <= 126 || bytes[i] == 9),
        fields::text_of(bytes) matches Some(t) ==> t.len() == bytes.len() && forall|i: int|
            0 <= i < t.len() ==> #[trigger] t[i] as int == bytes[i] as int,
{
    if fields::text_of(bytes) is Some {
        assert forall|i: int| 0 <= i < bytes.len() implies (32 <= #[trigger] bytes[i] <= 126
            || bytes[i] == 9) by {
            assert(text::is_visible(bytes[i] as char));
        }
    }
    if forall|i: int| 0 <= i < bytes.len() ==> (32 <= #[trigger] bytes[i] <= 126 || bytes[i] == 9) {
        assert forall|i: int| 0 <= i < bytes.len() implies text::is_visible(
            #[trigger] bytes[i] as char,
        ) by {}
    }
}

/// Fields under up to 6554 names, those that are still to come among them, have room.
pub proof fn law_room(f: Fields, more: nat)
    ensures
        f.dom().finite() && f.dom().len() + more <= 6554 ==> fields::has_room(f, more),
{
}

/// A text that is written as a value is that text, and is not marked as sensitive.
pub proof fn law_text_as_a_value(s: Seq<char>)
    requires
        forall|i: int| 0 <= i < s.len() ==> (' ' <= #[trigger] s[i] <= '~' || s[i] == '\t'),
    ensures
        fields::text_of(fields::text_value(s).0) == Some(s),
        !fields::text_value(s).1,
{
    assert(text::is_visible_text(s));
    fields::lemma_text_value(s);
}

/// The list that values write is the list of the first ones and then of the others. One value writes
/// what stands between its commas, without blanks around it, or nothing where it is no text.
pub proof fn law_lists(a: Seq<(Seq<u8>, bool)>, b: Seq<(Seq<u8>, bool)>, value: (Seq<u8>, bool))
    ensures
        fields::pieces(a + b) == fields::pieces(a) + fields::pieces(b),
        fields::pieces(Seq::<(Seq<u8>, bool)>::empty()).len() == 0,
        fields::text_of(value.0) matches Some(t) ==> fields::pieces(seq![value]) == text::split(t, ','),
        fields::text_of(value.0) is None ==> fields::pieces(seq![value]).len() == 0,
        fields::comma_parts(a).len() == fields::pieces(a).len(),
        forall|i: int|
            0 <= i < fields::pieces(a).len() ==> #[trigger] fields::comma_parts(a)[i] == text::trimmed(
                fields::pieces(a)[i],
            ),
    decreases b.len(),
{
    let one = seq![value];
    assert(one.drop_last() =~= Seq::<(Seq<u8>, bool)>::empty());
    assert(fields::pieces(one.drop_last()) =~= Seq::<Seq<char>>::empty());
    if let Some(t) = fields::text_of(value.0) {
        assert(fields::pieces(one) =~= text::split(t, ','));
    }
    if b.len() == 0 {
        assert(a + b =~= a);
        assert(fields::pieces(a + b) =~= fields::pieces(a) + fields::pieces(b));
    } else {
        law_lists(a, b.drop_last(), value);
        assert((a + b).drop_last() =~= a + b.drop_last());
        assert(fields::pieces(a + b) =~= fields::pieces(a) + fields::pieces(b));
    }
}

/// A field value and a list of them, of strings or of directives are seen as what they hold.
pub proof fn law_views(
    value: FieldValue,
    vals: Seq<FieldValue>,
    strings: Seq<String>,
    entries: Seq<(String, Option<String>)>,
    i: int,
)
    ensures
        value@ == (value.bytes@, value.sensitive),
        fields::value_views(vals).len() == vals.len(),
        0 <= i < vals.len() ==> fields::value_views(vals)[i] == vals[i]@,
        text::string_views(strings).len() == strings.len(),
        0 <= i < strings.len() ==> text::string_views(strings)[i] == strings[i]@,
        directives::entry_views(entries).len() == entries.len(),
        0 <= i < entries.len() ==> directives::entry_views(entries)[i].0 == entries[i].0@,
        0 <= i < entries.len() ==> (entries[i].1 matches Some(v) ==> directives::entry_views(entries)[i].1
            == Some(v@)),
        0 <= i < entries.len() && entries[i].1 is None ==> directives::entry_views(entries)[i].1 is None,
{
}

// ---------------------------------------------------------------------------
// Directives
// ---------------------------------------------------------------------------

/// Without values there are no directives.
pub proof fn lemma_no_values()
    ensures
        directives::parsed(Seq::<(Seq<u8>, bool)>::empty()) == Seq::<
            (Seq<char>, Option<Seq<char>>),
        >::empty(),
{
    assert(fields::pieces(Seq::<(Seq<u8>, bool)>::empty()) =~= Seq::<Seq<char>>::empty());
}

/// A directive is there if one of the list has its name. Its argument is the value that this one has,
/// and counts as a number where it writes one.
pub proof fn law_looking_for_a_directive(d: Directives, name: Seq<char>, i: int)
    requires
        forall|j: int, k: int|
            0 <= j < d.len() && 0 <= k < d.len() && (#[trigger] d[j]).0 == (#[trigger] d[k]).0 ==> j == k,
        0 <= i < d.len(),
    ensures
        directives::holds(d, d[i].0),
        directives::argument(d, d[i].0) == d[i].1,
        d[i].1 matches Some(v) ==> directives::numeric(d, d[i].0) == text::number(v),
        d[i].1 is None ==> directives::numeric(d, d[i].0) is None,
        (forall|j: int| 0 <= j < d.len() ==> (#[trigger] d[j]).0 != name) ==> !directives::holds(d, name)
            && directives::argument(d, name) is None && directives::numeric(d, name) is None,
{
    assert(directives::holds(d, d[i].0));
    let k = choose|k: int| 0 <= k < d.len() && (#[trigger] d[k]).0 == d[i].0;
    assert(k == i);
}

/// A piece writes a name before its first equals sign and a value behind it, both without the blanks
/// around them. A piece without that sign writes a name alone.
pub proof fn law_pieces_of_directives(a: Seq<char>, b: Seq<char>)
    requires
        forall|i: int| 0 <= i < a.len() ==> #[trigger] a[i] != '=',
    ensures
        directives::piece_name(a) == text::trimmed(a),
        directives::piece_value(a) is None,
        directives::piece_name(a + seq!['='] + b) == text::trimmed(a),
        directives::piece_value(a + seq!['='] + b) == Some(text::trimmed(b)),
{
    text::lemma_position_is(a, '=', a.len() as int);
    assert(a.take(a.len() as int) =~= a);
    let piece = a + seq!['='] + b;
    text::lemma_position_is(piece, '=', a.len() as int);
    assert(piece.take(a.len() as int) =~= a);
    assert(piece.skip(a.len() as int + 1) =~= b);
}

/// The first piece of a name sets its directive, to its value without quotation marks around it.
/// Pieces without a name set none. Besides, `must-revalidate` is there where a later piece of a name
/// has another value than the one that was set; it then has no value.
pub proof fn law_directives_are_set_once(vals: Seq<(Seq<u8>, bool)>, i: int)
    requires
        0 <= i < fields::pieces(vals).len(),
        directives::piece_name(fields::pieces(vals)[i]).len() > 0,
        forall|j: int|
            0 <= j < i ==> directives::piece_name(#[trigger] fields::pieces(vals)[j])
                != directives::piece_name(fields::pieces(vals)[i]),
    ensures
        ({
            let cc = directives::parsed(vals);
            let name = directives::piece_name(fields::pieces(vals)[i]);
            let kept = match directives::piece_value(fields::pieces(vals)[i]) {
                Some(v) => Some(text::unquoted(v)),
                None => None,
            };
            &&& directives::holds(cc, name)
            &&& name != "must-revalidate"@ ==> directives::argument(cc, name) == kept
        }),
{
    let all = fields::pieces(vals);
    let name = directives::piece_name(all[i]);
    lemma_first_piece(all, i, all.len() as int);
    assert(all.take(all.len() as int) =~= all);
    let d = directives::gathered(all).0;
    lemma_gathered_distinct(all);
    lemma_put(d, "must-revalidate"@, name);
}

proof fn lemma_first_piece(all: Seq<Seq<char>>, i: int, n: int)
    requires
        0 <= i < n <= all.len(),
        directives::piece_name(all[i]).len() > 0,
        forall|j: int|
            0 <= j < i ==> directives::piece_name(#[trigger] all[j]) != directives::piece_name(all[i]),
    ensures
        directives::holds(directives::gathered(all.take(n)).0, directives::piece_name(all[i])),
        directives::argument(directives::gathered(all.take(n)).0, directives::piece_name(all[i]))
            == directives::kept(directives::piece_value(all[i])),
    decreases n,
{
    let name = directives::piece_name(all[i]);
    let part = all.take(n);
    let before = all.take(n - 1);
    assert(part.drop_last() =~= before);
    assert(part.last() == all[n - 1]);
    let d = directives::gathered(before).0;
    let r = directives::gathered(part).0;
    lemma_gathered_distinct(part);
    lemma_gathered_distinct(before);
    if i == n - 1 {
        lemma_no_piece(all, name, n - 1);
        assert(r == d.push((name, directives::kept(directives::piece_value(all[i])))));
        law_looking_for_a_directive(r, name, d.len() as int);
    } else {
        lemma_first_piece(all, i, n - 1);
        let k = choose|k: int| 0 <= k < d.len() && (#[trigger] d[k]).0 == name;
        assert(r[k] == d[k]);
        law_looking_for_a_directive(d, name, k);
        law_looking_for_a_directive(r, name, k);
    }
}

proof fn lemma_no_piece(all: Seq<Seq<char>>, name: Seq<char>, n: int)
    requires
        0 <= n <= all.len(),
        forall|j: int| 0 <= j < n ==> directives::piece_name(#[trigger] all[j]) != name,
    ensures
        !directives::holds(directives::gathered(all.take(n)).0, name),
    decreases n,
{
    if n > 0 {
        lemma_no_piece(all, name, n - 1);
        assert(all.take(n).drop_last() =~= all.take(n - 1));
        assert(all.take(n).last() == all[n - 1]);
        let d = directives::gathered(all.take(n - 1)).0;
        let r = directives::gathered(all.take(n)).0;
        if directives::holds(r, name) {
            let k = choose|k: int| 0 <= k < r.len() && (#[trigger] r[k]).0 == name;
            if k < d.len() {
                assert(d[k].0 == name);
            }
        }
    }
}

proof fn lemma_gathered_distinct(all: Seq<Seq<char>>)
    ensures
        directives::distinct(directives::gathered(all).0),
    decreases all.len(),
{
    if all.len() > 0 {
        lemma_gathered_distinct(all.drop_last());
        let d = directives::gathered(all.drop_last()).0;
        let r = directives::gathered(all).0;
        assert forall|i: int, j: int|
            0 <= i < r.len() && 0 <= j < r.len() && i != j implies (#[trigger] r[i]).0 != (
        #[trigger] r[j]).0 by {
            if i < d.len() && j < d.len() {
                assert(d[i].0 != d[j].0);
            } else if i < d.len() {
                assert(r[i] == d[i]);
            } else {
                assert(r[j] == d[j]);
            }
        }
    }
}

proof fn lemma_put(d: Directives, flag: Seq<char>, name: Seq<char>)
    requires
        directives::distinct(d),
    ensures
        directives::holds(directives::put(d, flag, None), flag),
        directives::argument(directives::put(d, flag, None), flag) is None,
        name != flag ==> directives::holds(directives::put(d, flag, None), name) == directives::holds(
            d,
            name,
        ) && directives::argument(directives::put(d, flag, None), name) == directives::argument(d, name),
        directives::distinct(directives::put(d, flag, None)),
{
    let r = directives::put(d, flag, None);
    assert forall|i: int, j: int|
        0 <= i < r.len() && 0 <= j < r.len() && i != j implies (#[trigger] r[i]).0 != (
    #[trigger] r[j]).0 by {
        if i < d.len() && j < d.len() {
            assert(d[i].0 != d[j].0);
        } else if i < d.len() {
            assert(d[i].0 != flag);
        } else {
            assert(d[j].0 != flag);
        }
    }
    if directives::holds(d, flag) {
        let k = choose|k: int| 0 <= k < d.len() && (#[trigger] d[k]).0 == flag;
        assert(r[k].0 == flag);
        law_looking_for_a_directive(r, flag, k);
    } else {
        assert(r[d.len() as int].0 == flag);
        law_looking_for_a_directive(r, flag, d.len() as int);
    }
    if name != flag {
        if directives::holds(d, name) {
            let k = choose|k: int| 0 <= k < d.len() && (#[trigger] d[k]).0 == name;
            assert(r[k] == d[k]);
            law_looking_for_a_directive(r, name, k);
            law_looking_for_a_directive(d, name, k);
        } else if directives::holds(r, name) {
            let k = choose|k: int| 0 <= k < r.len() && (#[trigger] r[k]).0 == name;
            assert(k < d.len());
            assert(d[k].0 == name);
        }
    }
}

/// Every directive comes from a piece with its name, but for `must-revalidate` where pieces contradict
/// each other.
pub proof fn law_directives_come_from_pieces(vals: Seq<(Seq<u8>, bool)>, name: Seq<char>)
    requires
        name.len() == 0 || forall|i: int|
            0 <= i < fields::pieces(vals).len() ==> directives::piece_name(
                #[trigger] fields::pieces(vals)[i],
            ) != name,
        name != "must-revalidate"@,
    ensures
        !directives::holds(directives::parsed(vals), name),
{
    let all = fields::pieces(vals);
    assert(all.take(all.len() as int) =~= all);
    lemma_gathered_distinct(all);
    lemma_put(directives::gathered(all).0, "must-revalidate"@, name);
    if name.len() == 0 {
        lemma_names_are_not_empty(all);
    } else {
        lemma_no_piece(all, name, all.len() as int);
    }
}

proof fn lemma_names_are_not_empty(all: Seq<Seq<char>>)
    ensures
        forall|k: int|
            0 <= k < directives::gathered(all).0.len() ==> (#[trigger] directives::gathered(
                all,
            ).0[k]).0.len() > 0,
    decreases all.len(),
{
    if all.len() > 0 {
        lemma_names_are_not_empty(all.drop_last());
        let d = directives::gathered(all.drop_last()).0;
        let r = directives::gathered(all).0;
        assert forall|k: int| 0 <= k < r.len() implies (#[trigger] r[k]).0.len() > 0 by {
            if k < d.len() {
                assert(r[k] == d[k]);
                assert(d[k].0.len() > 0);
            }
        }
    }
}

/// A later piece of a name that does not have the value that was set forces revalidation.
pub proof fn law_contradictions(vals: Seq<(Seq<u8>, bool)>, i: int, j: int)
    requires
        0 <= i < j < fields::pieces(vals).len(),
        directives::piece_name(fields::pieces(vals)[i]).len() > 0,
        directives::piece_name(fields::pieces(vals)[j]) == directives::piece_name(
            fields::pieces(vals)[i],
        ),
        forall|k: int|
            0 <= k < i ==> directives::piece_name(#[trigger] fields::pieces(vals)[k])
                != directives::piece_name(fields::pieces(vals)[i]),
        directives::piece_value(fields::pieces(vals)[j]) != match directives::piece_value(
            fields::pieces(vals)[i],
        ) {
            Some(v) => Some(text::unquoted(v)),
            None => None,
        },
    ensures
        directives::holds(directives::parsed(vals), "must-revalidate"@),
        directives::argument(directives::parsed(vals), "must-revalidate"@) is None,
{
    let all = fields::pieces(vals);
    lemma_first_piece(all, i, j);
    assert(all.take(j + 1).drop_last() =~= all.take(j));
    assert(all.take(j + 1).last() == all[j]);
    assert(!directives::gathered(all.take(j + 1)).1);
    lemma_stays_contradictory(all, j + 1);
    lemma_gathered_distinct(all);
    lemma_put(directives::gathered(all).0, "must-revalidate"@, "must-revalidate"@);
}

proof fn lemma_stays_contradictory(all: Seq<Seq<char>>, n: int)
    requires
        0 <= n <= all.len(),
        !directives::gathered(all.take(n)).1,
    ensures
        !directives::gathered(all).1,
    decreases all.len() - n,
{
    if n == all.len() {
        assert(all.take(n) =~= all);
    } else {
        assert(all.take(n + 1).drop_last() =~= all.take(n));
        lemma_stays_contradictory(all, n + 1);
    }
}

/// Pieces that repeat the value that was set do not contradict it: `must-revalidate` is there only
/// where a piece writes it.
pub proof fn law_repetitions_do_not_contradict(vals: Seq<(Seq<u8>, bool)>)
    requires
        forall|i: int, j: int|
            0 <= i < j < fields::pieces(vals).len() && directives::piece_name(
                #[trigger] fields::pieces(vals)[i],
            ).len() > 0 && directives::piece_name(fields::pieces(vals)[i]) == directives::piece_name(
                #[trigger] fields::pieces(vals)[j],
            ) ==> directives::piece_value(fields::pieces(vals)[j]) == match directives::piece_value(
                fields::pieces(vals)[i],
            ) {
                Some(v) => Some(text::unquoted(v)),
                None => None,
            },
        forall|i: int|
            0 <= i < fields::pieces(vals).len() ==> directives::piece_name(
                #[trigger] fields::pieces(vals)[i],
            ) != "must-revalidate"@,
    ensures
        !directives::holds(directives::parsed(vals), "must-revalidate"@),
{
    let all = fields::pieces(vals);
    lemma_no_contradiction(all, all.len() as int);
    lemma_no_piece(all, "must-revalidate"@, all.len() as int);
    assert(all.take(all.len() as int) =~= all);
}

proof fn lemma_no_contradiction(all: Seq<Seq<char>>, n: int)
    requires
        0 <= n <= all.len(),
        forall|i: int, j: int|
            0 <= i < j < all.len() && directives::piece_name(#[trigger] all[i]).len() > 0
                && directives::piece_name(all[i]) == directives::piece_name(#[trigger] all[j])
                ==> directives::piece_value(all[j]) == directives::kept(directives::piece_value(all[i])),
    ensures
        directives::gathered(all.take(n)).1,
    decreases n,
{
    if n > 0 {
        lemma_no_contradiction(all, n - 1);
        assert(all.take(n).drop_last() =~= all.take(n - 1));
        assert(all.take(n).last() == all[n - 1]);
        let name = directives::piece_name(all[n - 1]);
        if name.len() > 0 {
            if forall|j: int| 0 <= j < n - 1 ==> directives::piece_name(#[trigger] all[j]) != name {
                lemma_no_piece(all, name, n - 1);
            } else {
                let i = lemma_first_of_name(all, name, n - 1);
                lemma_first_piece(all, i, n - 1);
                assert(directives::piece_name(all[i]) == directives::piece_name(all[n - 1]));
            }
        }
    }
}

proof fn lemma_first_of_name(all: Seq<Seq<char>>, name: Seq<char>, n: int) -> (i: int)
    requires
        0 <= n <= all.len(),
        exists|j: int| 0 <= j < n && directives::piece_name(#[trigger] all[j]) == name,
    ensures
        0 <= i < n,
        directives::piece_name(all[i]) == name,
        forall|j: int| 0 <= j < i ==> directives::piece_name(#[trigger] all[j]) != name,
    decreases n,
{
    if exists|j: int| 0 <= j < n - 1 && directives::piece_name(#[trigger] all[j]) == name {
        lemma_first_of_name(all, name, n - 1)
    } else {
        n - 1
    }
}

/// A directive is written as its name, and its value behind an equals sign, between quotation marks
/// unless it is made of letters and digits. Directives are written one after the other.
pub proof fn law_writing_directives(d: Directives, i: int)
    requires
        0 <= i < d.len(),
    ensures
        ({
            let name = d[i].0;
            let w = directives::written(d[i]);
            &&& d[i].1 is None ==> w == name
            &&& d[i].1 matches Some(v) ==> {
                let plain = v.len() > 0 && forall|k: int|
                    0 <= k < v.len() ==> ('a' <= #[trigger] v[k] <= 'z' || 'A' <= v[k] <= 'Z' || '0'
                        <= v[k] <= '9');
                &&& plain ==> w == name + seq!['='] + v
                &&& !plain ==> w == name + seq!['=', '"'] + v + seq!['"']
            }
            &&& directives::formatted(d) == text::joined(
                Seq::new(d.len(), |k: int| directives::written(d[k])),
            )
        }),
{
    reveal_strlit("=\"");
    reveal_strlit("\"");
    reveal_strlit("=");
    assert("=\""@ =~= seq!['=', '"']);
    assert("\""@ =~= seq!['"']);
    assert("="@ =~= seq!['=']);
    if let Some(v) = d[i].1 {
        if forall|k: int|
            0 <= k < v.len() ==> ('a' <= #[trigger] v[k] <= 'z' || 'A' <= v[k] <= 'Z' || '0' <= v[k]
                <= '9') {
            assert forall|k: int| 0 <= k < v.len() implies text::is_alphanumeric(#[trigger] v[k]) by {}
        } else {
            let k = choose|k: int|
                0 <= k < v.len() && !('a' <= #[trigger] v[k] <= 'z' || 'A' <= v[k] <= 'Z' || '0'
                    <= v[k] <= '9');
            assert(!text::is_alphanumeric(v[k]));
        }
    }
}

} // verus!
