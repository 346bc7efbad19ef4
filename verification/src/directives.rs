//! The directives of a `Cache-Control` header field.

use vstd::prelude::*;
use vstd::string::*;

use crate::fields;
use crate::fields::FieldValue;
use crate::text;

verus! {

// ---------------------------------------------------------------------------
// What directives are
// ---------------------------------------------------------------------------

/// Directives in the order in which they were first seen: a name, and a value where one was
/// given.
pub type Directives = Seq<(Seq<char>, Option<Seq<char>>)>;

/// Whether a directive of this name is there.
pub open spec fn holds(d: Directives, name: Seq<char>) -> bool {
    exists|i: int| 0 <= i < d.len() && (#[trigger] d[i]).0 == name
}

/// The value of the directive of this name.
pub open spec fn value(d: Directives, name: Seq<char>) -> Option<Seq<char>>
    recommends
        holds(d, name),
{
    d[choose|i: int| 0 <= i < d.len() && (#[trigger] d[i]).0 == name].1
}

/// The value of the directive of this name; `None` where it is missing or has no value.
pub open spec fn argument(d: Directives, name: Seq<char>) -> Option<Seq<char>> {
    if holds(d, name) {
        value(d, name)
    } else {
        None
    }
}

/// The number that the directive of this name has for its value.
pub open spec fn numeric(d: Directives, name: Seq<char>) -> Option<u64> {
    match argument(d, name) {
        Some(v) => text::number(v),
        None => None,
    }
}

/// No two directives have the same name.
pub open spec fn distinct(d: Directives) -> bool {
    forall|i: int, j: int|
        0 <= i < d.len() && 0 <= j < d.len() && i != j ==> (#[trigger] d[i]).0 != (#[trigger] d[j]).0
}

/// A name that a directive can have: not empty, without blanks at its ends, and without the
/// characters that part directives and values.
pub open spec fn is_name(s: Seq<char>) -> bool {
    &&& s.len() > 0
    &&& text::is_visible_text(s)
    &&& !text::blanks().contains(s[0])
    &&& !text::blanks().contains(s.last())
    &&& forall|i: int| 0 <= i < s.len() ==> #[trigger] s[i] != ',' && s[i] != '='
}

/// A value that a directive can have: without quotation marks at its ends and without commas.
pub open spec fn is_value(s: Seq<char>) -> bool {
    &&& text::is_visible_text(s)
    &&& s.len() > 0 ==> s[0] != '"' && s.last() != '"'
    &&& forall|i: int| 0 <= i < s.len() ==> #[trigger] s[i] != ','
}

/// A directive that can be written and read back.
pub open spec fn is_directive(e: (Seq<char>, Option<Seq<char>>)) -> bool {
    is_name(e.0) && (e.1 matches Some(v) ==> is_value(v))
}

/// Directives with distinct names, each of which can be written and read back.
pub open spec fn well_formed(d: Directives) -> bool {
    distinct(d) && forall|i: int| 0 <= i < d.len() ==> is_directive(#[trigger] d[i])
}

/// `d` with the directive of this name set to `v`: in its place, or at the end where it is new.
pub open spec fn put(d: Directives, name: Seq<char>, v: Option<Seq<char>>) -> Directives {
    if holds(d, name) {
        Seq::new(
            d.len(),
            |i: int|
                if d[i].0 == name {
                    (name, v)
                } else {
                    d[i]
                },
        )
    } else {
        d.push((name, v))
    }
}

/// `d` without the directive of this name.
pub open spec fn without(d: Directives, name: Seq<char>) -> Directives
    decreases d.len(),
{
    if d.len() == 0 {
        d
    } else if d.last().0 == name {
        without(d.drop_last(), name)
    } else {
        without(d.drop_last(), name).push(d.last())
    }
}

/// The name that a piece writes: what stands before its first equals sign.
pub open spec fn piece_name(piece: Seq<char>) -> Seq<char> {
    text::trimmed(piece.take(text::position(piece, '=')))
}

/// The value that a piece writes: what stands behind its first equals sign.
pub open spec fn piece_value(piece: Seq<char>) -> Option<Seq<char>> {
    if text::position(piece, '=') < piece.len() {
        Some(text::trimmed(piece.skip(text::position(piece, '=') + 1)))
    } else {
        None
    }
}

/// A value as it is kept: without quotation marks around it.
pub open spec fn kept(v: Option<Seq<char>>) -> Option<Seq<char>> {
    match v {
        Some(s) => Some(text::unquoted(s)),
        None => None,
    }
}

/// The directives that the pieces write, and whether they do not contradict each other.
///
/// A piece without a name is passed over. The first piece of a name sets its directive. A later
/// one contradicts it unless its value, with its quotation marks, is the value that was kept.
pub open spec fn gathered(pieces: Seq<Seq<char>>) -> (Directives, bool)
    decreases pieces.len(),
{
    if pieces.len() == 0 {
        (Seq::empty(), true)
    } else {
        gather(gathered(pieces.drop_last()), pieces.last())
    }
}

/// What one more piece makes of the directives gathered so far.
pub open spec fn gather(so_far: (Directives, bool), piece: Seq<char>) -> (Directives, bool) {
    let (d, consistent) = so_far;
    let name = piece_name(piece);
    if name.len() == 0 {
        so_far
    } else if holds(d, name) {
        (d, consistent && value(d, name) == piece_value(piece))
    } else {
        (d.push((name, kept(piece_value(piece)))), consistent)
    }
}

/// The directives that `Cache-Control` values write. Where they contradict each other,
/// `must-revalidate` is among them.
pub open spec fn parsed(vals: Seq<(Seq<u8>, bool)>) -> Directives {
    let (d, consistent) = gathered(fields::pieces(vals));
    if consistent {
        d
    } else {
        put(d, "must-revalidate"@, None)
    }
}

/// Whether a value is written between quotation marks: where it is empty, or holds anything but
/// letters and digits.
pub open spec fn is_quoted(v: Seq<char>) -> bool {
    !(v.len() > 0 && forall|i: int| 0 <= i < v.len() ==> text::is_alphanumeric(#[trigger] v[i]))
}

/// A directive as it is written.
pub open spec fn written(e: (Seq<char>, Option<Seq<char>>)) -> Seq<char> {
    match e.1 {
        None => e.0,
        Some(v) => if is_quoted(v) {
            e.0 + "=\""@ + v + "\""@
        } else {
            e.0 + "="@ + v
        },
    }
}

/// The directives as they are written, parted by commas.
pub open spec fn formatted(d: Directives) -> Seq<char> {
    text::joined(Seq::new(d.len(), |i: int| written(d[i])))
}

// ---------------------------------------------------------------------------
// The directives in memory
// ---------------------------------------------------------------------------

/// The directives of a `Cache-Control` header field. Its view is the list of [`Directives`].
#[derive(Debug)]
pub struct CacheControl {
    entries: Vec<(String, Option<String>)>,
}

impl View for CacheControl {
    type V = Directives;

    closed spec fn view(&self) -> Directives {
        entry_views(self.entries@)
    }
}

/// The directives that a list of names and values holds.
pub open spec fn entry_views(entries: Seq<(String, Option<String>)>) -> Directives {
    Seq::new(entries.len(), |i: int| (entries[i].0@, fields::option_text(entries[i].1)))
}

impl CacheControl {
    fn find(&self, name: &str) -> (r: Option<usize>)
        ensures
            match r {
                Some(i) => i < self@.len() && self@[i as int].0 == name@ && i < self.entries@.len(),
                None => !holds(self@, name@),
            },
    {
        let mut i: usize = 0;
        while i < self.entries.len()
            invariant
                0 <= i <= self.entries.len(),
                forall|j: int| 0 <= j < i ==> (#[trigger] self@[j]).0 != name@,
            decreases self.entries.len() - i,
        {
            if text::text_equal(self.entries[i].0.as_str(), name) {
                return Some(i);
            }
            i = i + 1;
        }
        None
    }

    /// All directives, each with its value where it has one.
    pub fn list(&self) -> (r: Vec<(String, Option<String>)>)
        ensures
            entry_views(r@) == self@,
    {
        let mut out: Vec<(String, Option<String>)> = Vec::new();
        let mut i: usize = 0;
        while i < self.entries.len()
            invariant
                0 <= i <= self.entries.len(),
                out@.len() == i,
                forall|j: int| 0 <= j < i ==> entry_views(out@)[j] == #[trigger] self@[j],
            decreases self.entries.len() - i,
        {
            let value = match &self.entries[i].1 {
                Some(v) => Some(v.clone()),
                None => None,
            };
            out.push((self.entries[i].0.clone(), value));
            i = i + 1;
        }
        assert(entry_views(out@) =~= self@);
        out
    }

    /// Whether a directive of this name is there.
    pub fn contains_key(&self, name: &str) -> (r: bool)
        ensures
            r == holds(self@, name@),
    {
        self.find(name).is_some()
    }

    /// The value of the directive of this name; `None` where it is missing or has no value.
    pub fn argument(&self, name: &str) -> (r: Option<&String>)
        requires
            distinct(self@),
        ensures
            match r {
                Some(s) => argument(self@, name@) == Some(s@),
                None => argument(self@, name@) is None,
            },
    {
        match self.find(name) {
            Some(i) => {
                let ghost k = choose|k: int| 0 <= k < self@.len() && (#[trigger] self@[k]).0 == name@;
                assert(self@[i as int].0 == name@);
                assert(k == i);
                match &self.entries[i].1 {
                    Some(s) => Some(s),
                    None => None,
                }
            },
            None => None,
        }
    }

    /// The number that the directive of this name has for its value.
    pub fn numeric(&self, name: &str) -> (r: Option<u64>)
        requires
            well_formed(self@),
        ensures
            r == numeric(self@, name@),
    {
        proof {
            lemma_argument_visible(self@, name@);
        }
        match self.argument(name) {
            Some(s) => text::parse_number(s.as_str()),
            None => None,
        }
    }

    /// Sets the directive of this name, to no value.
    pub fn set_flag(&mut self, name: &str)
        requires
            distinct(old(self)@),
        ensures
            final(self)@ == put(old(self)@, name@, None),
    {
        let ghost before = self@;
        match self.find(name) {
            Some(i) => {
                assert(before[i as int].0 == name@);
                self.entries.set(i, (name.to_owned(), None));
                assert(self@ =~= put(before, name@, None));
            },
            None => {
                self.entries.push((name.to_owned(), None));
                assert(self@ =~= put(before, name@, None));
            },
        }
    }

    /// Takes out the directive of this name.
    pub fn remove(&mut self, name: &str)
        ensures
            final(self)@ == without(old(self)@, name@),
    {
        let ghost before = self@;
        let mut left: Vec<(String, Option<String>)> = Vec::new();
        let mut i: usize = 0;
        proof {
            assert(before.take(0) =~= Seq::<(Seq<char>, Option<Seq<char>>)>::empty());
            assert(entry_views(left@) =~= without(before.take(0), name@));
        }
        while i < self.entries.len()
            invariant
                0 <= i <= self.entries.len(),
                before == self@,
                entry_views(left@) == without(before.take(i as int), name@),
            decreases self.entries.len() - i,
        {
            let ghost held = entry_views(left@);
            proof {
                assert(before.take(i + 1).drop_last() =~= before.take(i as int));
                assert(before.take(i + 1).last() == before[i as int]);
            }
            if !text::text_equal(self.entries[i].0.as_str(), name) {
                let v = match &self.entries[i].1 {
                    Some(s) => Some(s.clone()),
                    None => None,
                };
                left.push((self.entries[i].0.clone(), v));
                assert(entry_views(left@) =~= held.push(before[i as int]));
            }
            i = i + 1;
        }
        proof {
            assert(before.take(i as int) =~= before);
        }
        self.entries = left;
    }

    fn gather_piece(&mut self, piece: &str) -> (consistent: bool)
        requires
            text::is_visible_text(piece@),
            distinct(old(self)@),
        ensures
            (final(self)@, consistent) == gather((old(self)@, true), piece@),
    {
        let ghost before = self@;
        proof {
            text::lemma_visible_is_ascii(piece@);
            text::lemma_position(piece@, '=');
        }
        let n: usize = text::ascii_len(piece);
        let at: usize = text::equals_position(piece);
        proof {
            assert(piece@.subrange(0, at as int) =~= piece@.take(at as int));
        }
        let name = text::trim(piece.substring_ascii(0, at));
        if name.is_empty() {
            return true;
        }
        let v: Option<&str> = if at < n {
            assert(piece@.subrange(at + 1, n as int) =~= piece@.skip(at + 1));
            Some(text::trim(piece.substring_ascii(at + 1, n)))
        } else {
            None
        };
        match self.find(name) {
            Some(i) => {
                let ghost k = choose|k: int| 0 <= k < before.len() && (#[trigger] before[k]).0 == name@;
                assert(before[i as int].0 == name@);
                assert(k == i);
                match (&self.entries[i].1, v) {
                    (Some(a), Some(b)) => text::text_equal(a.as_str(), b),
                    (None, None) => true,
                    _ => false,
                }
            },
            None => {
                let stored: Option<String> = match v {
                    Some(s) => Some(text::unquote(s).to_owned()),
                    None => None,
                };
                self.entries.push((name.to_owned(), stored));
                assert(self@ =~= before.push((name@, kept(piece_value(piece@)))));
                true
            },
        }
    }
}

/// The value of a directive of well-formed directives is visible text.
pub proof fn lemma_argument_visible(d: Directives, name: Seq<char>)
    requires
        well_formed(d),
    ensures
        argument(d, name) matches Some(v) ==> text::is_visible_text(v),
{
    if holds(d, name) {
        let k = choose|k: int| 0 <= k < d.len() && (#[trigger] d[k]).0 == name;
        assert(is_directive(d[k]));
    }
}

/// One more piece keeps the directives well-formed.
proof fn lemma_gather_well_formed(so_far: (Directives, bool), piece: Seq<char>)
    requires
        well_formed(so_far.0),
        text::is_visible_text(piece),
        forall|i: int| 0 <= i < piece.len() ==> #[trigger] piece[i] != ',',
    ensures
        well_formed(gather(so_far, piece).0),
{
    let d = so_far.0;
    let name = piece_name(piece);
    let at = text::position(piece, '=');
    text::lemma_position(piece, '=');
    if name.len() > 0 && !holds(d, name) {
        let b = text::lemma_strip_is_subrange(piece.take(at), text::blanks());
        assert forall|i: int| 0 <= i < name.len() implies #[trigger] name[i] != ',' && name[i] != '='
            && text::is_visible(name[i]) by {
            assert(name[i] == piece[b.0 + i]);
        }
        assert(is_name(name));
        if at < piece.len() {
            let raw = piece.skip(at + 1);
            let v = text::trimmed(raw);
            let c = text::lemma_strip_is_subrange(raw, text::blanks());
            let q = text::lemma_strip_is_subrange(v, text::quotes());
            let u = text::unquoted(v);
            assert forall|i: int| 0 <= i < u.len() implies #[trigger] u[i] != ','
                && text::is_visible(u[i]) by {
                assert(u[i] == v[q.0 + i]);
                assert(v[q.0 + i] == raw[c.0 + q.0 + i]);
                assert(raw[c.0 + q.0 + i] == piece[at + 1 + c.0 + q.0 + i]);
            }
            assert(text::quotes().contains('"'));
            assert(is_value(u));
        }
        let e = (name, kept(piece_value(piece)));
        assert(is_directive(e));
        let more = d.push(e);
        assert forall|i: int, j: int|
            0 <= i < more.len() && 0 <= j < more.len() && i != j implies (#[trigger] more[i]).0 != (
        #[trigger] more[j]).0 by {
            if i < d.len() {
                assert(d[i].0 != name);
            }
            if j < d.len() {
                assert(d[j].0 != name);
            }
        }
    }
}

/// Gathered directives are well-formed.
pub proof fn lemma_gathered_well_formed(pieces: Seq<Seq<char>>)
    requires
        forall|i: int| 0 <= i < pieces.len() ==> text::is_visible_text(#[trigger] pieces[i]),
        forall|i: int, j: int|
            0 <= i < pieces.len() && 0 <= j < pieces[i].len() ==> #[trigger] pieces[i][j] != ',',
    ensures
        well_formed(gathered(pieces).0),
    decreases pieces.len(),
{
    if pieces.len() > 0 {
        lemma_gathered_well_formed(pieces.drop_last());
        let last = pieces.last();
        assert forall|j: int| 0 <= j < last.len() implies #[trigger] last[j] != ',' by {
            assert(pieces[pieces.len() - 1][j] != ',');
        }
        lemma_gather_well_formed(gathered(pieces.drop_last()), last);
    }
}

/// Setting a directive without a value keeps directives well-formed.
pub proof fn lemma_put_well_formed(d: Directives, name: Seq<char>)
    requires
        well_formed(d),
        is_name(name),
    ensures
        well_formed(put(d, name, None)),
{
    let r = put(d, name, None);
    assert forall|i: int| 0 <= i < r.len() implies is_directive(#[trigger] r[i]) by {
        if i < d.len() {
            assert(is_directive(d[i]));
        }
    }
    assert forall|i: int, j: int|
        0 <= i < r.len() && 0 <= j < r.len() && i != j implies (#[trigger] r[i]).0 != (
    #[trigger] r[j]).0 by {
        if i < d.len() && j < d.len() {
            assert(d[i].0 != d[j].0);
        } else if i < d.len() {
            assert(d[i].0 != name);
        } else {
            assert(d[j].0 != name);
        }
    }
}

/// What is left without a directive was there before.
proof fn lemma_without_from(d: Directives, name: Seq<char>, i: int) -> (k: int)
    requires
        0 <= i < without(d, name).len(),
    ensures
        0 <= k < d.len(),
        without(d, name)[i] == d[k],
        i <= k,
        d[k].0 != name,
    decreases d.len(),
{
    if i < without(d.drop_last(), name).len() {
        lemma_without_from(d.drop_last(), name, i)
    } else {
        lemma_without_len(d.drop_last(), name);
        d.len() - 1
    }
}

proof fn lemma_without_len(d: Directives, name: Seq<char>)
    ensures
        without(d, name).len() <= d.len(),
    decreases d.len(),
{
    if d.len() > 0 {
        lemma_without_len(d.drop_last(), name);
    }
}

/// Taking out a directive keeps directives well-formed.
pub proof fn lemma_without_well_formed(d: Directives, name: Seq<char>)
    requires
        well_formed(d),
    ensures
        well_formed(without(d, name)),
    decreases d.len(),
{
    if d.len() > 0 {
        let head = d.drop_last();
        assert forall|i: int| 0 <= i < head.len() implies is_directive(#[trigger] head[i]) by {
            assert(is_directive(d[i]));
        }
        assert forall|i: int, j: int|
            0 <= i < head.len() && 0 <= j < head.len() && i != j implies (#[trigger] head[i]).0 != (
        #[trigger] head[j]).0 by {
            assert(d[i].0 != d[j].0);
        }
        lemma_without_well_formed(head, name);
        if d.last().0 != name {
            let left = without(head, name);
            let r = left.push(d.last());
            assert(is_directive(d[d.len() - 1]));
            assert forall|i: int| 0 <= i < left.len() implies (#[trigger] left[i]).0 != d.last().0 by {
                let k = lemma_without_from(head, name, i);
                assert(d[k].0 != d[d.len() - 1].0);
            }
            assert(well_formed(r));
        }
    }
}

/// A directive is there after taking one out exactly where it was there and is not the one, and
/// keeps its value.
pub proof fn lemma_without_has(d: Directives, name: Seq<char>, other: Seq<char>)
    requires
        distinct(d),
    ensures
        holds(without(d, name), other) == (holds(d, other) && other != name),
        argument(without(d, name), other) == (if other == name {
            None
        } else {
            argument(d, other)
        }),
        distinct(without(d, name)),
    decreases d.len(),
{
    if d.len() > 0 {
        let head = d.drop_last();
        assert forall|i: int, j: int|
            0 <= i < head.len() && 0 <= j < head.len() && i != j implies (#[trigger] head[i]).0 != (
        #[trigger] head[j]).0 by {
            assert(d[i].0 != d[j].0);
        }
        lemma_without_has(head, name, other);
        let left = without(head, name);
        let r = without(d, name);
        if d.last().0 != name {
            assert(r[r.len() - 1] == d.last());
            assert forall|i: int| 0 <= i < left.len() implies (#[trigger] left[i]).0 != d.last().0 by {
                let k = lemma_without_from(head, name, i);
                assert(d[k].0 != d[d.len() - 1].0);
            }
        }
        if holds(r, other) {
            let i = choose|i: int| 0 <= i < r.len() && (#[trigger] r[i]).0 == other;
            let k = lemma_without_from(d, name, i);
            assert(d[k].0 == other);
            let m = choose|m: int| 0 <= m < d.len() && (#[trigger] d[m]).0 == other;
            assert(m == k);
            assert(value(r, other) == value(d, other));
        }
        if holds(d, other) && other != name {
            let k = choose|k: int| 0 <= k < d.len() && (#[trigger] d[k]).0 == other;
            if k < head.len() {
                assert(head[k].0 == other);
                assert(holds(left, other));
                let i = choose|i: int| 0 <= i < left.len() && (#[trigger] left[i]).0 == other;
                assert(r[i].0 == other);
            } else {
                assert(r[r.len() - 1].0 == other);
            }
        }
    }
}

/// `must-revalidate` and `no-cache` are names of directives.
pub proof fn lemma_flag_names()
    ensures
        is_name("must-revalidate"@),
        is_name("no-cache"@),
{
    reveal_strlit("must-revalidate");
    reveal_strlit("no-cache");
}

/// The directives that `Cache-Control` values write are well-formed.
pub proof fn lemma_parsed_well_formed(vals: Seq<(Seq<u8>, bool)>)
    ensures
        well_formed(parsed(vals)),
{
    fields::lemma_pieces_visible(vals);
    lemma_gathered_well_formed(fields::pieces(vals));
    lemma_flag_names();
    lemma_put_well_formed(gathered(fields::pieces(vals)).0, "must-revalidate"@);
}

/// Reads the directives of `Cache-Control` values.
pub fn parse_cache_control(vals: &Vec<FieldValue>) -> (r: CacheControl)
    ensures
        r@ == parsed(fields::value_views(vals@)),
        well_formed(r@),
{
    let ghost all = fields::pieces(fields::value_views(vals@));
    let parts = fields::comma_pieces(vals);
    let mut cc = CacheControl { entries: Vec::new() };
    let mut consistent: bool = true;
    let mut i: usize = 0;
    proof {
        fields::lemma_pieces_visible(fields::value_views(vals@));
        assert(all.take(0) =~= Seq::<Seq<char>>::empty());
        assert(cc@ =~= Seq::<(Seq<char>, Option<Seq<char>>)>::empty());
    }
    while i < parts.len()
        invariant
            0 <= i <= parts.len(),
            text::string_views(parts@) == all,
            forall|j: int| 0 <= j < all.len() ==> text::is_visible_text(#[trigger] all[j]),
            forall|j: int, k: int|
                0 <= j < all.len() && 0 <= k < all[j].len() ==> #[trigger] all[j][k] != ',',
            (cc@, consistent) == gathered(all.take(i as int)),
        decreases parts.len() - i,
    {
        proof {
            let head = all.take(i as int);
            assert(all.take(i + 1).drop_last() =~= head);
            assert(all.take(i + 1).last() == parts@[i as int]@);
            assert(parts@[i as int]@ == all[i as int]);
            assert forall|j: int, k: int|
                0 <= j < head.len() && 0 <= k < head[j].len() implies #[trigger] head[j][k] != ',' by {
                assert(all[j][k] != ',');
            }
            lemma_gathered_well_formed(head);
        }
        if !cc.gather_piece(parts[i].as_str()) {
            consistent = false;
        }
        i = i + 1;
    }
    proof {
        assert(all.take(i as int) =~= all);
        lemma_gathered_well_formed(all);
        lemma_flag_names();
        lemma_put_well_formed(cc@, "must-revalidate"@);
    }
    if !consistent {
        cc.set_flag("must-revalidate");
    }
    cc
}

/// Writes directives as a `Cache-Control` value.
pub fn format_cache_control(cc: &CacheControl) -> (r: String)
    requires
        well_formed(cc@),
    ensures
        r@ == formatted(cc@),
{
    let ghost all = Seq::new(cc@.len(), |j: int| written(cc@[j]));
    let mut out = String::new();
    let mut i: usize = 0;
    proof {
        assert(all.take(0) =~= Seq::<Seq<char>>::empty());
    }
    while i < cc.entries.len()
        invariant
            0 <= i <= cc.entries.len(),
            well_formed(cc@),
            all == Seq::new(cc@.len(), |j: int| written(cc@[j])),
            out@ == text::joined(all.take(i as int)),
        decreases cc.entries.len() - i,
    {
        assert(is_directive(cc@[i as int]));
        let mut part = cc.entries[i].0.clone();
        match &cc.entries[i].1 {
            Some(v) => {
                if text::needs_quotes(v.as_str()) {
                    part.append("=\"");
                    part.append(v.as_str());
                    part.append("\"");
                } else {
                    part.append("=");
                    part.append(v.as_str());
                }
            },
            None => {},
        }
        assert(part@ == written(cc@[i as int]));
        text::append_part(&mut out, part.as_str());
        proof {
            assert(all.take(i + 1).drop_last() =~= all.take(i as int));
            assert(all.take(i + 1).last() == written(cc@[i as int]));
        }
        i = i + 1;
    }
    proof {
        assert(all.take(i as int) =~= all);
    }
    out
}

} // verus!
