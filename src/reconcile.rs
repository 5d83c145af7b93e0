//! Applying one operation to the entries of a hosts file, and rendering the
//! result back to text.

use vstd::prelude::*;
use vstd::string::StringExecFns;
use crate::entry::{Entry, EntryView, Metadata, parse_line, render_line};
use crate::instant::{Instant, NANOS_PER_MINUTE, in_range, timestamp_text};
use crate::request::{Args, Subcommand};

verus! {

/// Why an operation could not be applied.
#[derive(Debug, Clone, Copy, PartialEq, Eq, Structural)]
pub enum ReconcileError {
    /// The new entry's expiry lies beyond the last representable instant.
    ExpiryOutOfRange,
}

/// Whether an entry survives the expiry sweep at `now`: opaque lines always
/// do, managed entries only while their expiry is strictly after `now`.
pub open spec fn is_live(now: int) -> spec_fn(EntryView) -> bool {
    |e: EntryView|
        match e {
            EntryView::Managed { expiry, .. } => expiry > now,
            EntryView::Opaque { .. } => true,
        }
}

/// Whether an entry is anything but a managed entry named `n`.
pub open spec fn not_named(n: Seq<char>) -> spec_fn(EntryView) -> bool {
    |e: EntryView|
        match e {
            EntryView::Managed { name, .. } => name != n,
            EntryView::Opaque { .. } => true,
        }
}

pub open spec fn is_opaque() -> spec_fn(EntryView) -> bool {
    |e: EntryView| e is Opaque
}

/// The comment a new entry carries: `set from <origin> at <now>`.
pub open spec fn provenance(origin: Seq<char>, now: int) -> Seq<char> {
    seq!['s', 'e', 't', ' ', 'f', 'r', 'o', 'm', ' '] + origin + seq![' ', 'a', 't', ' ']
        + timestamp_text(now)
}

/// The entries an operation yields from `es` at `now`; `None` when an added
/// entry's expiry is not representable.
pub open spec fn outcome(es: Seq<EntryView>, now: int, op: Subcommand, origin: Seq<char>) -> Option<
    Seq<EntryView>,
> {
    let live = es.filter(is_live(now));
    match op {
        Subcommand::Add { name, expire_minutes } => {
            let expiry = now + expire_minutes * NANOS_PER_MINUTE;
            if in_range(expiry) {
                Some(
                    live.push(
                        EntryView::Managed {
                            name: name@,
                            expiry,
                            comment: Some(provenance(origin, now)),
                        },
                    ),
                )
            } else {
                None
            }
        },
        Subcommand::Remove { name } => Some(live.filter(not_named(name@))),
        Subcommand::RemoveExpired => Some(live),
    }
}

pub open spec fn views(v: Seq<Entry>) -> Seq<EntryView> {
    v.map_values(|e: Entry| e.view())
}

pub open spec fn all_wf(v: Seq<Entry>) -> bool {
    forall|k: int| 0 <= k < v.len() ==> (#[trigger] v[k]).wf()
}

/// Lines joined by `\n`, with no newline after the last.
pub open spec fn join_lines(ls: Seq<Seq<char>>) -> Seq<char>
    decreases ls.len(),
{
    if ls.len() == 0 {
        Seq::<char>::empty()
    } else if ls.len() == 1 {
        ls[0]
    } else {
        join_lines(ls.drop_last()) + seq!['\n'] + ls.last()
    }
}

/// The text a sequence of entries is written as.
pub open spec fn render_text(es: Seq<EntryView>) -> Seq<char> {
    join_lines(es.map_values(|e: EntryView| render_line(e)))
}

impl Entry {
    /// A copy of this entry.
    pub fn duplicate(&self) -> (r: Entry)
        ensures
            r.view() == self.view(),
            r.wf() == self.wf(),
    {
        match self {
            Entry::Managed { name, meta } => {
                let comment = match &meta.comment {
                    Some(c) => Some(c.clone()),
                    None => None,
                };
                Entry::Managed { name: name.clone(), meta: Metadata { expiry: meta.expiry, comment } }
            },
            Entry::Opaque(raw) => Entry::Opaque(raw.clone()),
        }
    }

    /// Whether this entry survives the expiry sweep at `now`.
    pub fn is_live_at(&self, now: &Instant) -> (r: bool)
        ensures
            r == is_live(now.nanosecond as int)(self.view()),
    {
        match self {
            Entry::Managed { meta, .. } => meta.expiry.is_after(now),
            Entry::Opaque(_) => true,
        }
    }

    /// Whether this entry is anything but a managed entry named `n`.
    pub fn is_not_named(&self, n: &String) -> (r: bool)
        ensures
            r == not_named(n@)(self.view()),
    {
        match self {
            Entry::Managed { name, .. } => !(*name == *n),
            Entry::Opaque(_) => true,
        }
    }
}

/// Parses each line into an entry, keeping their order.
pub fn parse_entries(lines: &Vec<String>) -> (r: Vec<Entry>)
    ensures
        views(r@) == lines@.map_values(|l: String| parse_line(l@)),
        all_wf(r@),
{
    let mut out: Vec<Entry> = Vec::new();
    let mut i: usize = 0;
    while i < lines.len()
        invariant
            i <= lines@.len(),
            views(out@) == lines@.subrange(0, i as int).map_values(|l: String| parse_line(l@)),
            all_wf(out@),
        decreases lines@.len() - i,
    {
        let e = Entry::from_line(lines[i].as_str());
        let ghost before = out@;
        out.push(e);
        assert(views(out@) =~= views(before).push(parse_line(lines@[i as int]@)));
        assert(lines@.subrange(0, i + 1).map_values(|l: String| parse_line(l@)) =~= lines@.subrange(
            0,
            i as int,
        ).map_values(|l: String| parse_line(l@)).push(parse_line(lines@[i as int]@)));
        i = i + 1;
    }
    assert(lines@.subrange(0, i as int) =~= lines@);
    out
}

/// The entries that survive the expiry sweep at `now`, in order.
pub fn sweep(entries: &Vec<Entry>, now: &Instant) -> (r: Vec<Entry>)
    requires
        all_wf(entries@),
    ensures
        views(r@) == views(entries@).filter(is_live(now.nanosecond as int)),
        all_wf(r@),
{
    let ghost pred = is_live(now.nanosecond as int);
    let mut out: Vec<Entry> = Vec::new();
    let mut i: usize = 0;
    while i < entries.len()
        invariant
            i <= entries@.len(),
            all_wf(entries@),
            pred == is_live(now.nanosecond as int),
            views(out@) == views(entries@.subrange(0, i as int)).filter(pred),
            all_wf(out@),
        decreases entries@.len() - i,
    {
        let ghost before = out@;
        proof {
            let s = views(entries@.subrange(0, i + 1));
            assert(s.drop_last() =~= views(entries@.subrange(0, i as int)));
            assert(s.last() == entries@[i as int].view());
            assert(s.len() > 0);
            reveal(Seq::filter);
            assert(s.filter(pred) == (if pred(s.last()) {
                s.drop_last().filter(pred).push(s.last())
            } else {
                s.drop_last().filter(pred)
            }));
        }
        if entries[i].is_live_at(now) {
            out.push(entries[i].duplicate());
            assert(views(out@) =~= views(before).push(entries@[i as int].view()));
        }
        i = i + 1;
    }
    assert(entries@.subrange(0, i as int) =~= entries@);
    out
}

/// The entries that are not managed entries named `name`, in order.
pub fn drop_named(entries: &Vec<Entry>, name: &String) -> (r: Vec<Entry>)
    requires
        all_wf(entries@),
    ensures
        views(r@) == views(entries@).filter(not_named(name@)),
        all_wf(r@),
{
    let ghost pred = not_named(name@);
    let mut out: Vec<Entry> = Vec::new();
    let mut i: usize = 0;
    while i < entries.len()
        invariant
            i <= entries@.len(),
            all_wf(entries@),
            pred == not_named(name@),
            views(out@) == views(entries@.subrange(0, i as int)).filter(pred),
            all_wf(out@),
        decreases entries@.len() - i,
    {
        let ghost before = out@;
        proof {
            let s = views(entries@.subrange(0, i + 1));
            assert(s.drop_last() =~= views(entries@.subrange(0, i as int)));
            assert(s.last() == entries@[i as int].view());
            assert(s.len() > 0);
            reveal(Seq::filter);
            assert(s.filter(pred) == (if pred(s.last()) {
                s.drop_last().filter(pred).push(s.last())
            } else {
                s.drop_last().filter(pred)
            }));
        }
        if entries[i].is_not_named(name) {
            out.push(entries[i].duplicate());
            assert(views(out@) =~= views(before).push(entries@[i as int].view()));
        }
        i = i + 1;
    }
    assert(entries@.subrange(0, i as int) =~= entries@);
    out
}

/// Applies one operation at `now`: managed entries that have expired are
/// dropped whatever the operation; `Remove` also drops every managed entry
/// with exactly its name; `Add` appends one new managed entry, after all
/// filtering, whose expiry is `now` plus the requested minutes and whose
/// comment records `origin` and `now`. An `Add` leaves live entries of the
/// same name in place.
pub fn reconcile(entries: &Vec<Entry>, now: &Instant, op: &Subcommand, origin: &str) -> (r: Result<
    Vec<Entry>,
    ReconcileError,
>)
    requires
        all_wf(entries@),
        now.wf(),
    ensures
        match outcome(views(entries@), now.nanosecond as int, *op, origin@) {
            Some(es) => r matches Ok(v) && views(v@) == es && all_wf(v@),
            None => r == Err::<Vec<Entry>, ReconcileError>(ReconcileError::ExpiryOutOfRange),
        },
{
    let live = sweep(entries, now);
    match op {
        Subcommand::Add { name, expire_minutes } => {
            match now.plus_minutes(*expire_minutes) {
                None => Err(ReconcileError::ExpiryOutOfRange),
                Some(expiry) => {
                    let mut comment = String::new();
                    comment.append("set from ");
                    comment.append(origin);
                    comment.append(" at ");
                    let stamp = now.to_text();
                    comment.append(stamp.as_str());
                    proof {
                        reveal_strlit("set from ");
                        reveal_strlit(" at ");
                        assert(comment@ =~= provenance(origin@, now.nanosecond as int));
                    }
                    let mut out = live;
                    let ghost before = out@;
                    out.push(
                        Entry::Managed {
                            name: name.clone(),
                            meta: Metadata { expiry, comment: Some(comment) },
                        },
                    );
                    assert(views(out@) =~= views(before).push(out@.last().view()));
                    Ok(out)
                },
            }
        },
        Subcommand::Remove { name } => Ok(drop_named(&live, name)),
        Subcommand::RemoveExpired => Ok(live),
    }
}

/// The entries rendered one per line, joined by `\n` with no final newline.
pub fn render(entries: &Vec<Entry>) -> (r: String)
    requires
        all_wf(entries@),
    ensures
        r@ == render_text(views(entries@)),
{
    let mut out = String::new();
    let mut i: usize = 0;
    while i < entries.len()
        invariant
            i <= entries@.len(),
            all_wf(entries@),
            out@ == render_text(views(entries@.subrange(0, i as int))),
        decreases entries@.len() - i,
    {
        let line = entries[i].to_line();
        let ghost before = out@;
        if i > 0 {
            out.append("\n");
        }
        out.append(line.as_str());
        proof {
            reveal_strlit("\n");
            let ls = views(entries@.subrange(0, i + 1)).map_values(|e: EntryView| render_line(e));
            assert(ls.drop_last() =~= views(entries@.subrange(0, i as int)).map_values(
                |e: EntryView| render_line(e),
            ));
            assert(ls.last() == line@);
            if i == 0 {
                assert(before =~= Seq::<char>::empty());
                assert(out@ =~= join_lines(ls));
            } else {
                assert(out@ =~= join_lines(ls));
            }
        }
        i = i + 1;
    }
    assert(entries@.subrange(0, i as int) =~= entries@);
    out
}

impl Args {
    /// The new content of the hosts file whose lines are `lines`, after this
    /// request's operation at `now`; `origin` is recorded in an added entry.
    pub fn run(&self, lines: &Vec<String>, now: &Instant, origin: &str) -> (r: Result<
        String,
        ReconcileError,
    >)
        requires
            now.wf(),
        ensures
            match outcome(
                lines@.map_values(|l: String| parse_line(l@)),
                now.nanosecond as int,
                self.subcommand,
                origin@,
            ) {
                Some(es) => r matches Ok(t) && t@ == render_text(es),
                None => r == Err::<String, ReconcileError>(ReconcileError::ExpiryOutOfRange),
            },
    {
        let entries = parse_entries(lines);
        match reconcile(&entries, now, &self.subcommand, origin) {
            Ok(out) => Ok(render(&out)),
            Err(e) => Err(e),
        }
    }
}

} // verus!
