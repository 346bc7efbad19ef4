//! Directives that are written and read back, and the making of policies.

use vstd::prelude::*;

use crate::directives;
use crate::directives::Directives;
use crate::fields;
use crate::message::{RequestModel, ResponseModel};
use crate::model;
use crate::options::CachePolicyOptions;
use crate::text;

verus! {

// ---------------------------------------------------------------------------
// Directives
// ---------------------------------------------------------------------------

/// A written directive, with or without one blank before it, reads back.
proof fn lemma_written_reads_back(e: (Seq<char>, Option<Seq<char>>), lead: Seq<char>)
    requires
        directives::is_directive(e),
        lead == Seq::<char>::empty() || lead == seq![' '],
    ensures
        directives::piece_name(lead + directives::written(e)) == e.0,
        directives::kept(directives::piece_value(lead + directives::written(e))) == e.1,
{
    let name = e.0;
    let piece = lead + directives::written(e);
    let at: int = (lead.len() + name.len()) as int;
    reveal_strlit("=\"");
    reveal_strlit("\"");
    reveal_strlit("=");
    assert forall|i: int| 0 <= i < at implies #[trigger] piece[i] != '=' by {
        if i < lead.len() {
            assert(piece[i] == lead[i]);
        } else {
            assert(piece[i] == name[i - lead.len()]);
        }
    }
    text::lemma_position_is(piece, '=', at);
    let head = piece.take(at);
    assert(head =~= lead + name);
    text::lemma_strip_start(head, text::blanks(), lead.len() as int);
    assert(head.skip(lead.len() as int) =~= name);
    text::lemma_strip_nothing(name, text::blanks());
    assert(text::strip_end(name, text::blanks()) == name);
    match e.1 {
        None => {},
        Some(v) => {
            let tail = piece.skip(at + 1);
            if directives::is_quoted(v) {
                assert(tail =~= seq!['"'] + v + seq!['"']);
                assert(!text::blanks().contains('"'));
                text::lemma_strip_nothing(tail, text::blanks());
                if v.len() == 0 {
                    text::lemma_strip_start(tail, text::quotes(), 2);
                    assert(tail.skip(2) =~= v);
                    text::lemma_strip_end(v, text::quotes(), 0);
                    assert(v.take(0) =~= v);
                } else {
                    text::lemma_strip_start(tail, text::quotes(), 1);
                    let rest = tail.skip(1);
                    assert(rest =~= v + seq!['"']);
                    text::lemma_strip_end(rest, text::quotes(), v.len() as int);
                    assert(rest.take(v.len() as int) =~= v);
                }
            } else {
                assert(tail =~= v);
                assert(text::is_alphanumeric(v[0]) && text::is_alphanumeric(v[v.len() - 1]));
                text::lemma_strip_nothing(v, text::blanks());
                text::lemma_strip_nothing(v, text::quotes());
            }
        },
    }
}

proof fn lemma_written_has_no_comma(e: (Seq<char>, Option<Seq<char>>))
    requires
        directives::is_directive(e),
    ensures
        directives::written(e).len() > 0,
        text::is_visible_text(directives::written(e)),
        forall|i: int|
            0 <= i < directives::written(e).len() ==> #[trigger] directives::written(e)[i] != ',',
{
    reveal_strlit("=\"");
    reveal_strlit("\"");
    reveal_strlit("=");
}

/// Formatted directives are visible text.
pub proof fn law_formatted_is_visible(d: Directives)
    requires
        directives::well_formed(d),
    ensures
        text::is_visible_text(directives::formatted(d)),
{
    let parts = Seq::new(d.len(), |i: int| directives::written(d[i]));
    assert forall|i: int| 0 <= i < parts.len() implies text::is_visible_text(#[trigger] parts[i]) by {
        assert(directives::is_directive(d[i]));
        lemma_written_has_no_comma(d[i]);
    }
    text::lemma_joined_visible(parts);
}

proof fn lemma_formatted_gathers(d: Directives)
    requires
        directives::well_formed(d),
        d.len() > 0,
    ensures
        directives::formatted(d).len() > 0,
        directives::gathered(text::split(directives::formatted(d), ',')) == (d, true),
    decreases d.len(),
{
    let parts = Seq::new(d.len(), |i: int| directives::written(d[i]));
    let e = d.last();
    let w = directives::written(e);
    let head = d.drop_last();
    assert(directives::is_directive(d[d.len() - 1]));
    lemma_written_has_no_comma(e);
    assert(parts.last() == w);
    assert(parts.drop_last() =~= Seq::new(head.len(), |i: int| directives::written(head[i])));
    assert(head.push(e) =~= d);
    assert(!directives::holds(head, e.0)) by {
        assert forall|i: int| 0 <= i < head.len() implies (#[trigger] head[i]).0 != e.0 by {
            assert(d[i].0 != d[d.len() - 1].0);
        }
    }
    if head.len() == 0 {
        assert(directives::formatted(d) == w);
        text::lemma_split_whole(w, ',');
        let none: Seq<char> = Seq::empty();
        assert(none + w =~= w);
        lemma_written_reads_back(e, none);
        assert(seq![w].drop_last() =~= Seq::<Seq<char>>::empty());
        assert(directives::gathered(seq![w].drop_last()) == (Seq::<
            (Seq<char>, Option<Seq<char>>),
        >::empty(), true));
        assert(head =~= Seq::empty());
    } else {
        assert forall|i: int| 0 <= i < head.len() implies directives::is_directive(
            #[trigger] head[i],
        ) by {
            assert(directives::is_directive(d[i]));
        }
        assert forall|i: int, j: int|
            0 <= i < head.len() && 0 <= j < head.len() && i != j implies (#[trigger] head[i]).0 != (
        #[trigger] head[j]).0 by {
            assert(d[i].0 != d[j].0);
        }
        lemma_formatted_gathers(head);
        let before = directives::formatted(head);
        let piece = seq![' '] + w;
        reveal_strlit(", ");
        assert(directives::formatted(d) =~= before.push(',') + piece);
        text::lemma_split_concat(before, ',', piece);
        text::lemma_split_whole(piece, ',');
        let all = text::split(directives::formatted(d), ',');
        assert(all.last() == piece);
        assert(all.drop_last() =~= text::split(before, ','));
        lemma_written_reads_back(e, seq![' ']);
    }
}

/// Directives that are written as a `Cache-Control` value and read again are the same, in the
/// same order.
pub proof fn law_directives_read_back(d: Directives)
    requires
        directives::well_formed(d),
    ensures
        directives::parsed(seq![fields::text_value(directives::formatted(d))]) == d,
{
    let t = directives::formatted(d);
    law_formatted_is_visible(d);
    fields::lemma_text_value(t);
    let vals = seq![fields::text_value(t)];
    assert(vals.drop_last() =~= Seq::<(Seq<u8>, bool)>::empty());
    assert(fields::pieces(vals.drop_last()) =~= Seq::<Seq<char>>::empty());
    assert(fields::pieces(vals) =~= text::split(t, ','));
    if d.len() == 0 {
        assert(t =~= Seq::<char>::empty());
        let all = text::split(t, ',');
        assert(all =~= seq![Seq::<char>::empty()]);
        assert(all.drop_last() =~= Seq::<Seq<char>>::empty());
        let e: Seq<char> = Seq::empty();
        assert(e.take(0) =~= e);
        assert(directives::piece_name(e) =~= e);
        let none: Directives = Seq::empty();
        assert(directives::gathered(all.drop_last()) == (none, true));
        assert(all.last() == e);
        assert(directives::gathered(all) == (none, true));
        assert(d =~= none);
    } else {
        lemma_formatted_gathers(d);
    }
}

/// Directives that contradict each other count as `must-revalidate`.
pub proof fn law_contradiction_forces_revalidation(vals: Seq<(Seq<u8>, bool)>)
    requires
        !directives::gathered(fields::pieces(vals)).1,
    ensures
        directives::holds(directives::parsed(vals), "must-revalidate"@),
{
    let d = directives::gathered(fields::pieces(vals)).0;
    let name = "must-revalidate"@;
    let r = directives::put(d, name, None);
    if directives::holds(d, name) {
        let i = choose|i: int| 0 <= i < d.len() && (#[trigger] d[i]).0 == name;
        assert(r[i].0 == name);
    } else {
        assert(r[d.len() as int].0 == name);
    }
}

// ---------------------------------------------------------------------------
// Making a policy
// ---------------------------------------------------------------------------

/// The directives of a policy are well-formed: their names are distinct, and each can be written
/// and read back.
pub proof fn law_policy_is_well_formed(
    req: RequestModel,
    res: ResponseModel,
    opts: CachePolicyOptions,
)
    ensures
        directives::well_formed(model::policy_for(req, res, opts).res_cc),
        directives::well_formed(model::policy_for(req, res, opts).req_cc),
{
    let cc = directives::parsed(fields::values(res.fields, "cache-control"@));
    directives::lemma_parsed_well_formed(fields::values(res.fields, "cache-control"@));
    directives::lemma_parsed_well_formed(fields::values(req.fields, "cache-control"@));
    lemma_without_cargo_cult(cc);
    directives::lemma_flag_names();
    directives::lemma_put_well_formed(model::response_directives(res.fields, opts), "no-cache"@);
}

/// Taking out what is ignored keeps directives well-formed.
pub proof fn lemma_without_cargo_cult(cc: Directives)
    requires
        directives::well_formed(cc),
    ensures
        directives::well_formed(model::without_cargo_cult(cc)),
{
    let a = directives::without(cc, "pre-check"@);
    directives::lemma_without_well_formed(cc, "pre-check"@);
    let b = directives::without(a, "post-check"@);
    directives::lemma_without_well_formed(a, "post-check"@);
    let c = directives::without(b, "no-cache"@);
    directives::lemma_without_well_formed(b, "no-cache"@);
    let d = directives::without(c, "no-store"@);
    directives::lemma_without_well_formed(c, "no-store"@);
    directives::lemma_without_well_formed(d, "must-revalidate"@);
}

/// A directive that is ignored where directives were copied blindly.
pub open spec fn is_ignored(name: Seq<char>) -> bool {
    ||| name == "pre-check"@
    ||| name == "post-check"@
    ||| name == "no-cache"@
    ||| name == "no-store"@
    ||| name == "must-revalidate"@
}

/// A directive stays exactly where it is not ignored, and keeps its value.
proof fn lemma_without_cargo_cult_holds(cc: Directives, name: Seq<char>)
    requires
        directives::distinct(cc),
    ensures
        directives::holds(model::without_cargo_cult(cc), name) == (directives::holds(cc, name)
            && !is_ignored(name)),
        !is_ignored(name) ==> directives::argument(model::without_cargo_cult(cc), name)
            == directives::argument(cc, name),
{
    let a = directives::without(cc, "pre-check"@);
    directives::lemma_without_has(cc, "pre-check"@, name);
    let b = directives::without(a, "post-check"@);
    directives::lemma_without_has(a, "post-check"@, name);
    let c = directives::without(b, "no-cache"@);
    directives::lemma_without_has(b, "no-cache"@, name);
    let d = directives::without(c, "no-store"@);
    directives::lemma_without_has(c, "no-store"@, name);
    directives::lemma_without_has(d, "must-revalidate"@, name);
}

/// In a cache that ignores blindly copied directives, a response with `pre-check` and `post-check`
/// loses exactly the anti-cache directives. All its other directives, and their values, stay. It
/// has neither `expires` nor `pragma`, and its `cache-control` writes the directives that are left.
pub proof fn law_cargo_cult_is_ignored(
    req: RequestModel,
    res: ResponseModel,
    opts: CachePolicyOptions,
    name: Seq<char>,
)
    requires
        model::is_cargo_cult(res.fields, opts),
    ensures
        ({
            let p = model::policy_for(req, res, opts);
            let given = directives::parsed(fields::values(res.fields, "cache-control"@));
            &&& p.says(name) == (directives::holds(given, name) && !is_ignored(name))
            &&& !is_ignored(name) ==> directives::argument(p.res_cc, name) == directives::argument(
                given,
                name,
            )
            &&& !p.res.dom().contains("expires"@)
            &&& !p.res.dom().contains("pragma"@)
            &&& directives::parsed(fields::values(p.res, "cache-control"@)) == p.res_cc
        }),
{
    let p = model::policy_for(req, res, opts);
    let given = directives::parsed(fields::values(res.fields, "cache-control"@));
    directives::lemma_parsed_well_formed(fields::values(res.fields, "cache-control"@));
    lemma_without_cargo_cult_holds(given, name);
    lemma_without_cargo_cult(given);
    reveal_strlit("cache-control");
    reveal_strlit("expires");
    reveal_strlit("pragma");
    assert("cache-control"@.len() != "expires"@.len());
    assert("cache-control"@.len() != "pragma"@.len());
    let cc = model::response_directives(res.fields, opts);
    law_directives_read_back(cc);
    assert(fields::values(p.res, "cache-control"@) =~= seq![
        fields::text_value(directives::formatted(cc)),
    ]);
}

/// A policy is the one for the request and the response that it holds. So it can be stored as
/// these and its options, and be made again.
pub proof fn law_policy_is_made_again(
    req: RequestModel,
    res: ResponseModel,
    opts: CachePolicyOptions,
)
    ensures
        ({
            let p = model::policy_for(req, res, opts);
            model::policy_for(p.request(), p.response(), p.opts) == p
        }),
{
    let p = model::policy_for(req, res, opts);
    if model::is_cargo_cult(res.fields, opts) {
        law_cargo_cult_is_ignored(req, res, opts, "pre-check"@);
        assert(!model::is_cargo_cult(p.res, opts));
    }
}

} // verus!
