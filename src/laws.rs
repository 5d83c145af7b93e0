//! Properties that hold across parsing, reconciling and rendering.

use vstd::prelude::*;
use crate::entry::{EntryView, find_from, marker, parse_line, render_line};
use crate::instant::NANOS_PER_MINUTE;
use crate::reconcile::{is_live, is_opaque, join_lines, not_named, outcome, render_text};
use crate::request::Subcommand;

verus! {

proof fn lemma_filter_all(s: Seq<EntryView>, p: spec_fn(EntryView) -> bool)
    requires
        forall|k: int| 0 <= k < s.len() ==> p(#[trigger] s[k]),
    ensures
        s.filter(p) == s,
    decreases s.len(),
{
    reveal(Seq::filter);
    if s.len() > 0 {
        lemma_filter_all(s.drop_last(), p);
        assert(s.drop_last().push(s.last()) =~= s);
    }
}

proof fn lemma_filter_weaker(s: Seq<EntryView>, p: spec_fn(EntryView) -> bool, q: spec_fn(EntryView) -> bool)
    requires
        forall|e: EntryView| #[trigger] q(e) ==> p(e),
    ensures
        s.filter(p).filter(q) == s.filter(q),
    decreases s.len(),
{
    reveal(Seq::filter);
    if s.len() > 0 {
        lemma_filter_weaker(s.drop_last(), p, q);
        let x = s.drop_last().filter(p);
        if p(s.last()) {
            assert(x.push(s.last()).drop_last() =~= x);
        }
    }
}

proof fn lemma_filter_holds(s: Seq<EntryView>, p: spec_fn(EntryView) -> bool)
    ensures
        forall|k: int| 0 <= k < s.filter(p).len() ==> p(#[trigger] s.filter(p)[k]),
{
    assert forall|k: int| 0 <= k < s.filter(p).len() implies p(#[trigger] s.filter(p)[k]) by {
        s.lemma_filter_pred(p, k);
    }
}

proof fn lemma_filter_keeps(s: Seq<EntryView>, p: spec_fn(EntryView) -> bool, inv: spec_fn(EntryView) -> bool)
    requires
        forall|k: int| 0 <= k < s.len() ==> inv(#[trigger] s[k]),
    ensures
        forall|k: int| 0 <= k < s.filter(p).len() ==> inv(#[trigger] s.filter(p)[k]),
    decreases s.len(),
{
    reveal(Seq::filter);
    if s.len() > 0 {
        let t = s.drop_last();
        assert forall|k: int| 0 <= k < t.len() implies inv(#[trigger] t[k]) by {
            assert(t[k] == s[k]);
        }
        lemma_filter_keeps(t, p, inv);
        let x = t.filter(p);
        if p(s.last()) {
            assert forall|k: int| 0 <= k < s.filter(p).len() implies inv(#[trigger] s.filter(p)[k]) by {
                if k < x.len() {
                    assert(s.filter(p)[k] == x[k]);
                } else {
                    assert(s.filter(p)[k] == s[s.len() - 1]);
                }
            }
        }
    }
}

/// A line without the marker parses to an opaque entry and is written back
/// exactly as it was read.
pub proof fn lemma_opaque_round_trip(line: Seq<char>)
    requires
        find_from(line, marker(), 0) is None,
    ensures
        parse_line(line) == (EntryView::Opaque { raw: line }),
        render_line(parse_line(line)) == line,
{
}

/// Whatever the operation, the opaque entries of the result are exactly the
/// opaque entries it started from, in the same order.
pub proof fn lemma_opaque_entries_kept(es: Seq<EntryView>, now: int, op: Subcommand, origin: Seq<char>)
    ensures
        outcome(es, now, op, origin) matches Some(out) ==> out.filter(is_opaque()) == es.filter(
            is_opaque(),
        ),
{
    let live = es.filter(is_live(now));
    lemma_filter_weaker(es, is_live(now), is_opaque());
    match op {
        Subcommand::Add { name, expire_minutes } => {
            if let Some(out) = outcome(es, now, op, origin) {
                reveal(Seq::filter);
                assert(out.drop_last() =~= live);
            }
        },
        Subcommand::Remove { name } => {
            lemma_filter_weaker(live, not_named(name@), is_opaque());
        },
        Subcommand::RemoveExpired => {},
    }
}

/// Every operation sweeps expired entries: no managed entry in the result has
/// an expiry at or before `now`, whatever name the operation targets (an
/// added entry lives at least one minute).
pub proof fn lemma_sweep_on_every_operation(es: Seq<EntryView>, now: int, op: Subcommand, origin: Seq<char>)
    requires
        op matches Subcommand::Add { expire_minutes, .. } ==> expire_minutes >= 1,
    ensures
        outcome(es, now, op, origin) matches Some(out) ==> forall|k: int|
            0 <= k < out.len() ==> (#[trigger] out[k] matches EntryView::Managed { expiry, .. }
                ==> expiry > now),
{
    let live = es.filter(is_live(now));
    lemma_filter_holds(es, is_live(now));
    match op {
        Subcommand::Add { name, expire_minutes } => {
            assert(expire_minutes * NANOS_PER_MINUTE >= NANOS_PER_MINUTE) by (nonlinear_arith)
                requires expire_minutes >= 1;
            if let Some(out) = outcome(es, now, op, origin) {
                assert forall|k: int| 0 <= k < out.len() implies (#[trigger] out[k] matches EntryView::Managed { expiry, .. }
                    ==> expiry > now) by {
                    if k < live.len() {
                        assert(out[k] == live[k]);
                        assert(is_live(now)(live[k]));
                    }
                }
            }
        },
        Subcommand::Remove { name } => {
            let inv = |e: EntryView| (e matches EntryView::Managed { expiry, .. } ==> expiry > now);
            assert forall|k: int| 0 <= k < live.len() implies inv(#[trigger] live[k]) by {
                assert(is_live(now)(live[k]));
            }
            lemma_filter_keeps(live, not_named(name@), inv);
            let out = live.filter(not_named(name@));
            assert forall|k: int| 0 <= k < out.len() implies (#[trigger] out[k] matches EntryView::Managed { expiry, .. }
                ==> expiry > now) by {
                assert(inv(out[k]));
            }
        },
        Subcommand::RemoveExpired => {
            assert forall|k: int| 0 <= k < live.len() implies (#[trigger] live[k] matches EntryView::Managed { expiry, .. }
                ==> expiry > now) by {
                assert(is_live(now)(live[k]));
            }
        },
    }
}

/// Pruning a file in which no managed entry has expired, and each line is
/// written back as it reads (every opaque line is, and a managed line in the
/// form this library writes), yields the input text unchanged.
pub proof fn lemma_prune_is_no_op(lines: Seq<Seq<char>>, now: int, origin: Seq<char>)
    requires
        forall|k: int| 0 <= k < lines.len() ==> render_line(parse_line(#[trigger] lines[k]))
            == lines[k],
        forall|k: int| 0 <= k < lines.len() ==> is_live(now)(parse_line(#[trigger] lines[k])),
    ensures
        outcome(lines.map_values(|l: Seq<char>| parse_line(l)), now, Subcommand::RemoveExpired, origin)
            == Some(lines.map_values(|l: Seq<char>| parse_line(l))),
        render_text(lines.map_values(|l: Seq<char>| parse_line(l))) == join_lines(lines),
{
    let es = lines.map_values(|l: Seq<char>| parse_line(l));
    assert forall|k: int| 0 <= k < es.len() implies is_live(now)(#[trigger] es[k]) by {
        assert(es[k] == parse_line(lines[k]));
    }
    lemma_filter_all(es, is_live(now));
    assert(es.map_values(|e: EntryView| render_line(e)) =~= lines);
}

} // verus!
