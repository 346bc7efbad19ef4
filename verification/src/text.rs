//! Text of header fields: what it means to split, trim, join, compare and read it.
//!
//! Header text holds visible ASCII characters and tabs only, so a character is a byte and
//! blanks are spaces and tabs.

use vstd::prelude::*;
use vstd::string::*;
use vstd::utf8::*;

verus! {

// ---------------------------------------------------------------------------
// What the operations mean
// ---------------------------------------------------------------------------

/// A character that header text can hold: visible ASCII, the space and the tab.
pub open spec fn is_visible(c: char) -> bool {
    ' ' <= c <= '~' || c == '\t'
}

/// Text made of visible characters only.
pub open spec fn is_visible_text(s: Seq<char>) -> bool {
    forall|i: int| 0 <= i < s.len() ==> is_visible(#[trigger] s[i])
}

/// The blanks that can occur in header text.
pub open spec fn blanks() -> Set<char> {
    set![' ', '\t']
}

/// The quotation mark.
pub open spec fn quotes() -> Set<char> {
    set!['"']
}

/// `s` without the longest prefix made of characters of `cut`.
pub open spec fn strip_start(s: Seq<char>, cut: Set<char>) -> Seq<char>
    decreases s.len(),
{
    if s.len() > 0 && cut.contains(s[0]) {
        strip_start(s.skip(1), cut)
    } else {
        s
    }
}

/// `s` without the longest suffix made of characters of `cut`.
pub open spec fn strip_end(s: Seq<char>, cut: Set<char>) -> Seq<char>
    decreases s.len(),
{
    if s.len() > 0 && cut.contains(s.last()) {
        strip_end(s.drop_last(), cut)
    } else {
        s
    }
}

/// `s` without the characters of `cut` at its two ends.
pub open spec fn strip(s: Seq<char>, cut: Set<char>) -> Seq<char> {
    strip_end(strip_start(s, cut), cut)
}

/// `s` without the blanks at its two ends.
pub open spec fn trimmed(s: Seq<char>) -> Seq<char> {
    strip(s, blanks())
}

/// `s` without the quotation marks at its two ends.
pub open spec fn unquoted(s: Seq<char>) -> Seq<char> {
    strip(s, quotes())
}

/// The pieces of `s` between occurrences of `sep`, in order. There is always one more of
/// them than there are separators.
pub open spec fn split(s: Seq<char>, sep: char) -> Seq<Seq<char>>
    decreases s.len(),
{
    if s.len() == 0 {
        seq![Seq::<char>::empty()]
    } else {
        let before = split(s.drop_last(), sep);
        if s.last() == sep {
            before.push(Seq::empty())
        } else {
            before.drop_last().push(before.last().push(s.last()))
        }
    }
}

/// The position of the first `c` in `s`, or the length of `s` where there is none.
pub open spec fn position(s: Seq<char>, c: char) -> int
    decreases s.len(),
{
    if s.len() == 0 || s[0] == c {
        0
    } else {
        1 + position(s.skip(1), c)
    }
}

/// `parts` one after the other. A comma and a space stand before each part, except
/// while nothing has been written yet.
pub open spec fn joined(parts: Seq<Seq<char>>) -> Seq<char>
    decreases parts.len(),
{
    if parts.len() == 0 {
        Seq::empty()
    } else {
        comma_append(joined(parts.drop_last()), parts.last())
    }
}

/// `out` with `part` written behind it as [`joined`] does.
pub open spec fn comma_append(out: Seq<char>, part: Seq<char>) -> Seq<char> {
    if out.len() == 0 {
        part
    } else {
        out + ", "@ + part
    }
}

/// Whether `t` occurs in `s`.
pub open spec fn contains_text(s: Seq<char>, t: Seq<char>) -> bool {
    exists|i: int| 0 <= i <= s.len() - t.len() && #[trigger] s.subrange(i, i + t.len()) == t
}

/// Whether `s` begins with `t`.
pub open spec fn begins_with(s: Seq<char>, t: Seq<char>) -> bool {
    t.len() <= s.len() && s.take(t.len() as int) == t
}

/// `s` without every `W/` in a row at its beginning.
pub open spec fn without_weak_marks(s: Seq<char>) -> Seq<char>
    decreases s.len(),
{
    if s.len() >= 2 && s[0] == 'W' && s[1] == '/' {
        without_weak_marks(s.skip(2))
    } else {
        s
    }
}

/// A capital ASCII letter made small; any other character as it is.
pub open spec fn lower(c: char) -> char {
    if 'A' <= c <= 'Z' {
        (c as u32 + 32) as char
    } else {
        c
    }
}

/// `s` with its capital ASCII letters made small.
pub open spec fn lowered(s: Seq<char>) -> Seq<char> {
    Seq::new(s.len(), |i: int| lower(s[i]))
}

/// A decimal digit.
pub open spec fn is_digit(c: char) -> bool {
    '0' <= c <= '9'
}

/// An ASCII letter or a decimal digit.
pub open spec fn is_alphanumeric(c: char) -> bool {
    'a' <= c <= 'z' || 'A' <= c <= 'Z' || is_digit(c)
}

/// The number that a row of decimal digits writes.
pub open spec fn digits_value(s: Seq<char>) -> nat
    decreases s.len(),
{
    if s.len() == 0 {
        0
    } else {
        digits_value(s.drop_last()) * 10 + (s.last() as nat - '0' as nat) as nat
    }
}

/// The digits of `s`: what stands behind one plus sign, where there is one.
pub open spec fn unsigned_digits(s: Seq<char>) -> Seq<char> {
    if s.len() > 0 && s[0] == '+' {
        s.skip(1)
    } else {
        s
    }
}

/// The unsigned 64-bit number that `s` writes: decimal digits, at least one, with at most
/// one plus sign before them. `None` for any other text and for a number that does not fit.
pub open spec fn number(s: Seq<char>) -> Option<u64> {
    let digits = unsigned_digits(s);
    if digits.len() > 0 && (forall|i: int| 0 <= i < digits.len() ==> is_digit(#[trigger] digits[i]))
        && digits_value(digits) <= u64::MAX {
        Some(digits_value(digits) as u64)
    } else {
        None
    }
}

/// The decimal digit of `n`.
pub open spec fn digit(n: nat) -> char {
    ('0' as nat + n) as char
}

/// `n` in decimal, without leading zeros.
pub open spec fn decimal(n: nat) -> Seq<char>
    decreases n,
{
    if n < 10 {
        seq![digit(n)]
    } else {
        decimal(n / 10).push(digit(n % 10))
    }
}

/// The texts that a list of string slices holds.
pub open spec fn views(parts: Seq<&str>) -> Seq<Seq<char>> {
    Seq::new(parts.len(), |i: int| parts[i]@)
}

/// The texts that a list of strings holds.
pub open spec fn string_views(parts: Seq<String>) -> Seq<Seq<char>> {
    Seq::new(parts.len(), |i: int| parts[i]@)
}

// ---------------------------------------------------------------------------
// Facts
// ---------------------------------------------------------------------------

/// Visible text is ASCII.
pub proof fn lemma_visible_is_ascii(s: Seq<char>)
    requires
        is_visible_text(s),
    ensures
        is_ascii_chars(s),
{
}

/// Where `position` stands.
pub proof fn lemma_position(s: Seq<char>, c: char)
    ensures
        0 <= position(s, c) <= s.len(),
        position(s, c) < s.len() ==> s[position(s, c)] == c,
        forall|i: int| 0 <= i < position(s, c) ==> #[trigger] s[i] != c,
    decreases s.len(),
{
    if s.len() == 0 || s[0] == c {
    } else {
        lemma_position(s.skip(1), c);
        assert forall|i: int| 0 <= i < position(s, c) implies #[trigger] s[i] != c by {
            if i > 0 {
                assert(s[i] == s.skip(1)[i - 1]);
            }
        }
    }
}

/// A place before which there is no `c`, and at which there is one, is its position.
pub proof fn lemma_position_is(s: Seq<char>, c: char, at: int)
    requires
        0 <= at <= s.len(),
        forall|i: int| 0 <= i < at ==> #[trigger] s[i] != c,
        at < s.len() ==> s[at] == c,
    ensures
        position(s, c) == at,
{
    lemma_position(s, c);
}

/// What is left after stripping the start is a suffix that does not begin with `cut`.
pub proof fn lemma_strip_start(s: Seq<char>, cut: Set<char>, at: int)
    requires
        0 <= at <= s.len(),
        forall|i: int| 0 <= i < at ==> cut.contains(#[trigger] s[i]),
        at < s.len() ==> !cut.contains(s[at]),
    ensures
        strip_start(s, cut) == s.skip(at),
    decreases s.len(),
{
    if at == 0 {
        assert(s.skip(0) =~= s);
    } else {
        assert(cut.contains(s[0]));
        let rest = s.skip(1);
        assert forall|i: int| 0 <= i < at - 1 implies cut.contains(#[trigger] rest[i]) by {
            assert(rest[i] == s[i + 1]);
        }
        lemma_strip_start(rest, cut, at - 1);
        assert(rest.skip(at - 1) =~= s.skip(at));
    }
}

/// What is left after stripping the end is a prefix that does not end with `cut`.
pub proof fn lemma_strip_end(s: Seq<char>, cut: Set<char>, at: int)
    requires
        0 <= at <= s.len(),
        forall|i: int| at <= i < s.len() ==> cut.contains(#[trigger] s[i]),
        at > 0 ==> !cut.contains(s[at - 1]),
    ensures
        strip_end(s, cut) == s.take(at),
    decreases s.len(),
{
    if at == s.len() {
        assert(s.take(at) =~= s);
    } else {
        assert(cut.contains(s.last()));
        let rest = s.drop_last();
        assert forall|i: int| at <= i < rest.len() implies cut.contains(#[trigger] rest[i]) by {
            assert(rest[i] == s[i]);
        }
        lemma_strip_end(rest, cut, at);
        assert(rest.take(at) =~= s.take(at));
    }
}

/// Stripping yields a stretch of the text, with no character of `cut` at its ends.
pub proof fn lemma_strip_is_subrange(s: Seq<char>, cut: Set<char>) -> (bounds: (int, int))
    ensures
        0 <= bounds.0 <= bounds.1 <= s.len(),
        strip(s, cut) == s.subrange(bounds.0, bounds.1),
        strip(s, cut).len() > 0 ==> !cut.contains(strip(s, cut)[0])
            && !cut.contains(strip(s, cut).last()),
    decreases s.len(),
{
    if s.len() == 0 {
        assert(strip(s, cut) =~= s.subrange(0, 0));
        (0, 0)
    } else if cut.contains(s[0]) {
        let inner = lemma_strip_is_subrange(s.skip(1), cut);
        assert(strip(s, cut) =~= s.subrange(inner.0 + 1, inner.1 + 1));
        (inner.0 + 1, inner.1 + 1)
    } else {
        assert(strip_start(s, cut) == s);
        let end = lemma_strip_end_bound(s, cut);
        assert(s.take(end) =~= s.subrange(0, end));
        (0, end)
    }
}

proof fn lemma_strip_end_bound(s: Seq<char>, cut: Set<char>) -> (end: int)
    ensures
        0 <= end <= s.len(),
        strip_end(s, cut) == s.take(end),
        end > 0 ==> !cut.contains(s[end - 1]),
    decreases s.len(),
{
    if s.len() > 0 && cut.contains(s.last()) {
        let end = lemma_strip_end_bound(s.drop_last(), cut);
        assert(s.drop_last().take(end) =~= s.take(end));
        end
    } else {
        assert(s.take(s.len() as int) =~= s);
        s.len() as int
    }
}

/// Text whose ends are not of `cut` is left alone.
pub proof fn lemma_strip_nothing(s: Seq<char>, cut: Set<char>)
    requires
        s.len() > 0 ==> !cut.contains(s[0]) && !cut.contains(s.last()),
    ensures
        strip(s, cut) == s,
{
}

/// Stripping keeps text visible.
pub proof fn lemma_strip_visible(s: Seq<char>, cut: Set<char>)
    requires
        is_visible_text(s),
    ensures
        is_visible_text(strip(s, cut)),
{
    let b = lemma_strip_is_subrange(s, cut);
}

/// The pieces of visible text are visible and hold no separator.
pub proof fn lemma_split_pieces(s: Seq<char>, sep: char)
    ensures
        split(s, sep).len() > 0,
        forall|i: int, j: int|
            0 <= i < split(s, sep).len() && 0 <= j < split(s, sep)[i].len()
                ==> #[trigger] split(s, sep)[i][j] != sep,
        is_visible_text(s) ==> forall|i: int|
            0 <= i < split(s, sep).len() ==> is_visible_text(#[trigger] split(s, sep)[i]),
    decreases s.len(),
{
    if s.len() > 0 {
        lemma_split_pieces(s.drop_last(), sep);
    }
}

/// Text without the separator is its own only piece.
pub proof fn lemma_split_whole(s: Seq<char>, sep: char)
    requires
        forall|i: int| 0 <= i < s.len() ==> #[trigger] s[i] != sep,
    ensures
        split(s, sep) == seq![s],
    decreases s.len(),
{
    if s.len() == 0 {
        assert(s =~= Seq::<char>::empty());
    } else {
        lemma_split_whole(s.drop_last(), sep);
        assert(s.drop_last().push(s.last()) =~= s);
        assert(split(s, sep) =~= seq![s]);
    }
}

/// A separator between two texts parts their pieces.
pub proof fn lemma_split_concat(a: Seq<char>, sep: char, b: Seq<char>)
    ensures
        split(a.push(sep) + b, sep) == split(a, sep) + split(b, sep),
    decreases b.len(),
{
    let whole = a.push(sep) + b;
    lemma_split_pieces(b, sep);
    if b.len() == 0 {
        assert(whole =~= a.push(sep));
        assert(whole.drop_last() =~= a);
        assert(split(whole, sep) =~= split(a, sep) + split(b, sep));
    } else {
        lemma_split_concat(a, sep, b.drop_last());
        lemma_split_pieces(b.drop_last(), sep);
        assert(whole.drop_last() =~= a.push(sep) + b.drop_last());
        assert(split(whole, sep) =~= split(a, sep) + split(b, sep));
    }
}

/// Joining visible parts gives visible text.
pub proof fn lemma_joined_visible(parts: Seq<Seq<char>>)
    requires
        forall|i: int| 0 <= i < parts.len() ==> is_visible_text(#[trigger] parts[i]),
    ensures
        is_visible_text(joined(parts)),
    decreases parts.len(),
{
    if parts.len() > 0 {
        lemma_joined_visible(parts.drop_last());
        reveal_strlit(", ");
        assert(is_visible_text(parts.last()));
    }
}

/// A longer row of digits does not write a smaller number.
proof fn lemma_digits_value_grows(s: Seq<char>, k: int)
    requires
        0 <= k <= s.len(),
    ensures
        digits_value(s.take(k)) <= digits_value(s),
    decreases s.len() - k,
{
    if k == s.len() {
        assert(s.take(k) =~= s);
    } else {
        lemma_digits_value_grows(s, k + 1);
        assert(s.take(k + 1).drop_last() =~= s.take(k));
    }
}

/// What [`decimal`] writes: digits, at least one, of the same value.
pub proof fn lemma_decimal(n: nat)
    ensures
        decimal(n).len() > 0,
        forall|i: int| 0 <= i < decimal(n).len() ==> is_digit(#[trigger] decimal(n)[i]),
        digits_value(decimal(n)) == n,
        is_visible_text(decimal(n)),
    decreases n,
{
    if n < 10 {
        assert(decimal(n).drop_last() =~= Seq::<char>::empty());
        assert(digits_value(Seq::<char>::empty()) == 0);
    } else {
        lemma_decimal(n / 10);
        assert(decimal(n).drop_last() =~= decimal(n / 10));
    }
}

/// Reading a number back from its decimal text gives the number.
pub proof fn law_number_reads_decimal(n: u64)
    ensures
        number(decimal(n as nat)) == Some(n),
{
    lemma_decimal(n as nat);
    assert(is_digit(decimal(n as nat)[0]));
    assert(unsigned_digits(decimal(n as nat)) == decimal(n as nat));
}

// ---------------------------------------------------------------------------
// The operations
// ---------------------------------------------------------------------------

/// The number of characters of ASCII text.
pub fn ascii_len(s: &str) -> (n: usize)
    requires
        is_ascii_chars(s@),
    ensures
        n == s@.len(),
{
    proof {
        is_ascii_chars_encode_utf8(s@);
    }
    s.as_bytes().len()
}

/// Whether two byte strings are the same.
pub fn bytes_equal(a: &[u8], b: &[u8]) -> (r: bool)
    ensures
        r == (a@ == b@),
{
    if a.len() != b.len() {
        return false;
    }
    let mut i: usize = 0;
    while i < a.len()
        invariant
            0 <= i <= a.len(),
            a.len() == b.len(),
            forall|j: int| 0 <= j < i ==> a@[j] == b@[j],
        decreases a.len() - i,
    {
        if a[i] != b[i] {
            return false;
        }
        i = i + 1;
    }
    assert(a@ =~= b@);
    true
}

/// Whether two texts are the same.
pub fn text_equal(a: &str, b: &str) -> (r: bool)
    ensures
        r == (a@ == b@),
{
    let r = bytes_equal(a.as_bytes(), b.as_bytes());
    proof {
        encode_utf8_decode_utf8(a@);
        encode_utf8_decode_utf8(b@);
    }
    r
}

fn is_cut(b: u8, quote: bool) -> (r: bool)
    ensures
        b < 128 ==> r == cut_set(quote).contains(b as char),
{
    if quote {
        b == 34
    } else {
        b == 32 || b == 9
    }
}

spec fn cut_set(quote: bool) -> Set<char> {
    if quote {
        quotes()
    } else {
        blanks()
    }
}

fn strip_text<'a>(s: &'a str, quote: bool) -> (r: &'a str)
    requires
        is_ascii_chars(s@),
    ensures
        r@ == strip(s@, cut_set(quote)),
        is_ascii_chars(r@),
{
    let n: usize = ascii_len(s);
    let mut from: usize = 0;
    while from < n && is_cut(s.get_ascii(from), quote)
        invariant
            is_ascii_chars(s@),
            n == s@.len(),
            0 <= from <= n,
            forall|j: int| 0 <= j < from ==> cut_set(quote).contains(#[trigger] s@[j]),
        ensures
            from < n ==> !cut_set(quote).contains(s@[from as int]),
        decreases n - from,
    {
        from = from + 1;
    }
    let ghost tail = s@.skip(from as int);
    proof {
        lemma_strip_start(s@, cut_set(quote), from as int);
    }
    let mut to: usize = n;
    while from < to && is_cut(s.get_ascii(to - 1), quote)
        invariant
            is_ascii_chars(s@),
            n == s@.len(),
            from <= to <= n,
            tail == s@.skip(from as int),
            forall|j: int| to - from <= j < tail.len() ==> cut_set(quote).contains(#[trigger] tail[j]),
        ensures
            to > from ==> !cut_set(quote).contains(s@[to - 1]),
        decreases to,
    {
        to = to - 1;
    }
    proof {
        lemma_strip_end(tail, cut_set(quote), to - from);
        assert(tail.take(to - from) =~= s@.subrange(from as int, to as int));
    }
    s.substring_ascii(from, to)
}

/// The text without the blanks at its two ends.
pub fn trim<'a>(s: &'a str) -> (r: &'a str)
    requires
        is_visible_text(s@),
    ensures
        r@ == trimmed(s@),
        is_visible_text(r@),
{
    proof {
        lemma_visible_is_ascii(s@);
        lemma_strip_visible(s@, blanks());
    }
    strip_text(s, false)
}

/// The text without the quotation marks at its two ends.
pub fn unquote<'a>(s: &'a str) -> (r: &'a str)
    requires
        is_visible_text(s@),
    ensures
        r@ == unquoted(s@),
        is_visible_text(r@),
{
    proof {
        lemma_visible_is_ascii(s@);
        lemma_strip_visible(s@, quotes());
    }
    strip_text(s, true)
}

/// The pieces of a text between its commas.
pub fn split_commas<'a>(s: &'a str) -> (r: Vec<&'a str>)
    requires
        is_visible_text(s@),
    ensures
        views(r@) == split(s@, ','),
{
    proof {
        lemma_visible_is_ascii(s@);
    }
    let n: usize = ascii_len(s);
    let mut parts: Vec<&'a str> = Vec::new();
    let mut start: usize = 0;
    let mut i: usize = 0;
    proof {
        assert(s@.take(0) =~= Seq::<char>::empty());
        assert(s@.subrange(0, 0) =~= Seq::<char>::empty());
        assert(views(parts@).push(s@.subrange(0, 0)) =~= split(s@.take(0), ','));
    }
    while i < n
        invariant
            is_ascii_chars(s@),
            n == s@.len(),
            0 <= start <= i <= n,
            views(parts@).push(s@.subrange(start as int, i as int)) == split(
                s@.take(i as int),
                ',',
            ),
        decreases n - i,
    {
        let ghost before = views(parts@);
        let ghost piece = s@.subrange(start as int, i as int);
        let c = s.get_ascii(i);
        proof {
            assert(s@.take(i + 1).drop_last() =~= s@.take(i as int));
            assert(s@.take(i + 1).last() == s@[i as int]);
        }
        if c == 44 {
            parts.push(s.substring_ascii(start, i));
            start = i + 1;
            proof {
                assert(views(parts@) =~= before.push(piece));
                assert(s@.subrange(start as int, i + 1) =~= Seq::<char>::empty());
                assert(views(parts@).push(s@.subrange(start as int, i + 1)) =~= split(
                    s@.take(i + 1),
                    ',',
                ));
            }
        } else {
            proof {
                assert(s@.subrange(start as int, i + 1) =~= piece.push(s@[i as int]));
                assert(before.push(piece).drop_last() =~= before);
                assert(before.push(piece.push(s@[i as int])) =~= split(s@.take(i + 1), ','));
            }
        }
        i = i + 1;
    }
    let ghost before = views(parts@);
    parts.push(s.substring_ascii(start, n));
    proof {
        assert(s@.take(n as int) =~= s@);
        assert(views(parts@) =~= before.push(s@.subrange(start as int, n as int)));
    }
    parts
}

/// The position of the first equals sign, or the length of the text where there is none.
pub fn equals_position(s: &str) -> (r: usize)
    requires
        is_visible_text(s@),
    ensures
        r == position(s@, '='),
{
    proof {
        lemma_visible_is_ascii(s@);
    }
    let n: usize = ascii_len(s);
    let mut i: usize = 0;
    while i < n && s.get_ascii(i) != 61
        invariant
            is_ascii_chars(s@),
            n == s@.len(),
            0 <= i <= n,
            forall|j: int| 0 <= j < i ==> #[trigger] s@[j] != '=',
        ensures
            i < n ==> s@[i as int] == '=',
        decreases n - i,
    {
        i = i + 1;
    }
    proof {
        lemma_position_is(s@, '=', i as int);
    }
    i
}

/// Writes `part` behind `out`, with a comma and a space before it unless `out` is empty.
pub fn append_part(out: &mut String, part: &str)
    ensures
        final(out)@ == comma_append(old(out)@, part@),
{
    if !out.as_str().is_empty() {
        out.append(", ");
    } else {
        proof {
            assert(out@ + part@ =~= part@);
        }
    }
    out.append(part);
}

/// The parts one after the other, parted by a comma and a space.
pub fn join(parts: &Vec<String>) -> (r: String)
    ensures
        r@ == joined(string_views(parts@)),
{
    let mut out = String::new();
    let mut i: usize = 0;
    let ghost all = string_views(parts@);
    proof {
        assert(all.take(0) =~= Seq::<Seq<char>>::empty());
    }
    while i < parts.len()
        invariant
            0 <= i <= parts.len(),
            all == string_views(parts@),
            out@ == joined(all.take(i as int)),
        decreases parts.len() - i,
    {
        append_part(&mut out, parts[i].as_str());
        proof {
            assert(all.take(i + 1).drop_last() =~= all.take(i as int));
            assert(all.take(i + 1).last() == parts@[i as int]@);
        }
        i = i + 1;
    }
    proof {
        assert(all.take(i as int) =~= all);
    }
    out
}

/// Whether `t` occurs in `s`.
pub fn contains(s: &str, t: &str) -> (r: bool)
    requires
        is_visible_text(s@),
        is_visible_text(t@),
    ensures
        r == contains_text(s@, t@),
{
    proof {
        lemma_visible_is_ascii(s@);
        lemma_visible_is_ascii(t@);
    }
    let n: usize = ascii_len(s);
    let m: usize = ascii_len(t);
    if m > n {
        return false;
    }
    let mut i: usize = 0;
    while i <= n - m
        invariant
            is_ascii_chars(s@),
            n == s@.len(),
            m == t@.len(),
            m <= n,
            0 <= i <= n - m + 1,
            forall|j: int| 0 <= j < i ==> #[trigger] s@.subrange(j, j + t@.len()) != t@,
        decreases n - m + 1 - i,
    {
        if text_equal(s.substring_ascii(i, i + m), t) {
            assert(s@.subrange(i as int, i + t@.len()) == t@);
            return true;
        }
        if i == n - m {
            return false;
        }
        i = i + 1;
    }
    false
}

/// Whether `s` begins with `t`.
pub fn starts_with(s: &str, t: &str) -> (r: bool)
    requires
        is_visible_text(s@),
        is_visible_text(t@),
    ensures
        r == begins_with(s@, t@),
{
    proof {
        lemma_visible_is_ascii(s@);
        lemma_visible_is_ascii(t@);
    }
    let n: usize = ascii_len(s);
    let m: usize = ascii_len(t);
    if m > n {
        return false;
    }
    assert(s@.subrange(0, m as int) =~= s@.take(m as int));
    text_equal(s.substring_ascii(0, m), t)
}

/// The text without the weak marks (`W/`) at its beginning.
pub fn strip_weak_marks<'a>(s: &'a str) -> (r: &'a str)
    requires
        is_visible_text(s@),
    ensures
        r@ == without_weak_marks(s@),
{
    proof {
        lemma_visible_is_ascii(s@);
        assert(s@.skip(0) =~= s@);
    }
    let n: usize = ascii_len(s);
    let mut i: usize = 0;
    while n - i >= 2 && s.get_ascii(i) == 87 && s.get_ascii(i + 1) == 47
        invariant
            is_ascii_chars(s@),
            n == s@.len(),
            0 <= i <= n,
            without_weak_marks(s@) == without_weak_marks(s@.skip(i as int)),
        ensures
            without_weak_marks(s@.skip(i as int)) == s@.skip(i as int),
        decreases n - i,
    {
        proof {
            assert(s@.skip(i as int).skip(2) =~= s@.skip(i + 2));
        }
        i = i + 2;
    }
    assert(s@.skip(i as int) =~= s@.subrange(i as int, n as int));
    s.substring_ascii(i, n)
}

/// Whether the text is empty or holds anything but ASCII letters and digits.
pub fn needs_quotes(s: &str) -> (r: bool)
    requires
        is_visible_text(s@),
    ensures
        r == !(s@.len() > 0 && forall|i: int|
            0 <= i < s@.len() ==> is_alphanumeric(#[trigger] s@[i])),
{
    proof {
        lemma_visible_is_ascii(s@);
    }
    let n: usize = ascii_len(s);
    let mut i: usize = 0;
    while i < n
        invariant
            is_ascii_chars(s@),
            n == s@.len(),
            0 <= i <= n,
            forall|j: int| 0 <= j < i ==> is_alphanumeric(#[trigger] s@[j]),
        decreases n - i,
    {
        let c = s.get_ascii(i);
        if !((97 <= c && c <= 122) || (65 <= c && c <= 90) || (48 <= c && c <= 57)) {
            assert(!is_alphanumeric(s@[i as int]));
            return true;
        }
        i = i + 1;
    }
    n == 0
}

/// Reads an unsigned number.
pub fn parse_number(s: &str) -> (r: Option<u64>)
    requires
        is_visible_text(s@),
    ensures
        r == number(s@),
{
    proof {
        lemma_visible_is_ascii(s@);
    }
    let n: usize = ascii_len(s);
    let mut i: usize = 0;
    if n > 0 && s.get_ascii(0) == 43 {
        i = 1;
    }
    let start: usize = i;
    if start == n {
        return None;
    }
    let ghost digits = unsigned_digits(s@);
    proof {
        assert(s@.skip(0) =~= s@);
        assert(digits == s@.skip(start as int));
        assert(digits.take(0) =~= Seq::<char>::empty());
    }
    let mut value: u64 = 0;
    while i < n
        invariant
            is_ascii_chars(s@),
            n == s@.len(),
            start <= i <= n,
            start < n,
            digits == unsigned_digits(s@),
            digits == s@.skip(start as int),
            forall|j: int| 0 <= j < i - start ==> is_digit(#[trigger] digits[j]),
            value == digits_value(digits.take(i - start)),
        decreases n - i,
    {
        let c = s.get_ascii(i);
        if c < 48 || c > 57 {
            assert(!is_digit(digits[i - start]));
            return None;
        }
        proof {
            assert(digits.take(i + 1 - start).drop_last() =~= digits.take(i - start));
            assert(digits.take(i + 1 - start).last() == s@[i as int]);
            lemma_digits_value_grows(digits, i + 1 - start);
        }
        let d: u64 = (c - 48) as u64;
        match value.checked_mul(10) {
            None => {
                return None;
            },
            Some(tens) => {
                match tens.checked_add(d) {
                    None => {
                        return None;
                    },
                    Some(sum) => {
                        value = sum;
                    },
                }
            },
        }
        i = i + 1;
    }
    assert(digits.take(i - start) =~= digits);
    Some(value)
}

fn digit_text(d: u64) -> (r: &'static str)
    requires
        d < 10,
    ensures
        r@ == seq![digit(d as nat)],
{
    proof {
        reveal_strlit("0");
        reveal_strlit("1");
        reveal_strlit("2");
        reveal_strlit("3");
        reveal_strlit("4");
        reveal_strlit("5");
        reveal_strlit("6");
        reveal_strlit("7");
        reveal_strlit("8");
        reveal_strlit("9");
    }
    let r = match d {
        0 => "0",
        1 => "1",
        2 => "2",
        3 => "3",
        4 => "4",
        5 => "5",
        6 => "6",
        7 => "7",
        8 => "8",
        _ => "9",
    };
    assert(r@ =~= seq![digit(d as nat)]);
    r
}

/// A number in decimal.
pub fn decimal_text(n: u64) -> (r: String)
    ensures
        r@ == decimal(n as nat),
    decreases n,
{
    let mut out = if n < 10 {
        String::new()
    } else {
        decimal_text(n / 10)
    };
    let ghost before = out@;
    out.append(digit_text(n % 10));
    proof {
        assert(before + seq![digit((n % 10) as nat)] =~= before.push(digit((n % 10) as nat)));
        if n < 10 {
            assert(out@ =~= decimal(n as nat));
        }
    }
    out
}

} // verus!
