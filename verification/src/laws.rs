//! What holds of every walk, proved from the definitions of its steps.

use crate::entry::{EntryView, Kind};
use crate::request::RequestView;
use crate::results::Tally;
use crate::text::is_dotted;
use crate::walk::{enqueued, judged, lines, tally, Sighting, WalkView};
use vstd::prelude::*;

verus! {

/// Whether a child is admitted, and whether a directory is expanded, depends on
/// the object's own kind and name and on two things of the request: the hidden
/// flag and the reserved names. The root, the pattern and files-only mode play no
/// part, and neither does anything the walk has seen before.
pub proof fn admission_is_local(a: RequestView, b: RequestView, entry: EntryView)
    requires
        a.include_hidden == b.include_hidden,
        a.reserved == b.reserved,
    ensures
        a.admits(entry) == b.admits(entry),
        a.enqueues(entry) == b.enqueues(entry),
        forall|stat: Option<Kind>| a.expands(stat) == b.expands(stat),
{
}

/// Links, devices, FIFOs and sockets are never admitted, whatever the flags: they
/// are not counted, not queued, not printed, and not expanded.
pub proof fn special_kinds_are_excluded(request: RequestView, entry: EntryView, matched: bool)
    requires
        entry.kind.is_special(),
    ensures
        !request.admits(entry),
        !request.enqueues(entry),
        request.contribution(entry, matched) == Tally::zero(),
        request.line(entry, matched) is None,
        !request.expands(Some(entry.kind)),
{
}

/// In files-only mode no directory is printed or counted as a match, and a
/// directory is queued and counted as pushed exactly as without the mode.
pub proof fn files_only_spares_the_queue(request: RequestView, entry: EntryView, matched: bool)
    requires
        request.files_only,
    ensures
        entry.kind is Directory ==> request.line(entry, matched) is None,
        request.contribution(entry, matched).directories_matched == 0,
        request.enqueues(entry) == (RequestView { files_only: false, ..request }).enqueues(entry),
        request.contribution(entry, matched).directories_pushed == (RequestView {
            files_only: false,
            ..request
        }).contribution(entry, matched).directories_pushed,
{
}

/// The counts of two series of children add up to the count of the one after the
/// other.
pub proof fn tally_concat(request: RequestView, a: Seq<Sighting>, b: Seq<Sighting>)
    ensures
        tally(request, a + b) == tally(request, a).plus(tally(request, b)),
    decreases b.len(),
{
    if b.len() == 0 {
        assert(a + b =~= a);
    } else {
        assert((a + b).drop_last() =~= a + b.drop_last());
        tally_concat(request, a, b.drop_last());
    }
}

/// What two series of children put on the queue is what the first puts there,
/// followed by what the second does.
pub proof fn enqueued_concat(request: RequestView, a: Seq<Sighting>, b: Seq<Sighting>)
    ensures
        enqueued(request, a + b) == enqueued(request, a) + enqueued(request, b),
    decreases b.len(),
{
    if b.len() == 0 {
        assert(a + b =~= a);
        assert(enqueued(request, a) + enqueued(request, b) =~= enqueued(request, a));
    } else {
        assert((a + b).drop_last() =~= a + b.drop_last());
        enqueued_concat(request, a, b.drop_last());
        assert(enqueued(request, a + b) =~= enqueued(request, a) + enqueued(request, b));
    }
}

/// What two series of children print is what the first prints, followed by what
/// the second does.
pub proof fn lines_concat(request: RequestView, a: Seq<Sighting>, b: Seq<Sighting>)
    ensures
        lines(request, a + b) == lines(request, a) + lines(request, b),
    decreases b.len(),
{
    if b.len() == 0 {
        assert(a + b =~= a);
        assert(lines(request, a) + lines(request, b) =~= lines(request, a));
    } else {
        assert((a + b).drop_last() =~= a + b.drop_last());
        lines_concat(request, a, b.drop_last());
        assert(lines(request, a + b) =~= lines(request, a) + lines(request, b));
    }
}

/// Whatever the children, no more matches are counted than objects scanned; the
/// directories counted as pushed are those put on the queue; one line is printed
/// for each match; and in files-only mode no directory is counted as a match.
pub proof fn tally_is_sound(request: RequestView, seen: Seq<Sighting>)
    ensures
        tally(request, seen).consistent(),
        tally(request, seen).objects_scanned <= seen.len(),
        tally(request, seen).directories_pushed <= seen.len(),
        tally(request, seen).directories_pushed == enqueued(request, seen).len(),
        tally(request, seen).directories_matched + tally(request, seen).files_matched == lines(
            request,
            seen,
        ).len(),
        request.files_only ==> tally(request, seen).directories_matched == 0,
    decreases seen.len(),
{
    if seen.len() > 0 {
        tally_is_sound(request, seen.drop_last());
    }
}

/// Taking one child out of a series takes its contribution out of the count.
proof fn tally_remove(request: RequestView, seen: Seq<Sighting>, i: int)
    requires
        0 <= i < seen.len(),
    ensures
        tally(request, seen) == tally(request, seen.remove(i)).plus(
            request.contribution(seen[i].entry, seen[i].matched),
        ),
{
    let front = seen.take(i);
    let one = seq![seen[i]];
    let back = seen.skip(i + 1);
    assert(seen =~= front + one + back);
    assert(seen.remove(i) =~= front + back);
    tally_concat(request, front + one, back);
    tally_concat(request, front, one);
    tally_concat(request, front, back);
    assert(one.drop_last() =~= Seq::<Sighting>::empty());
    assert(tally(request, one.drop_last()) == Tally::zero());
    assert(tally(request, one) == request.contribution(seen[i].entry, seen[i].matched));
}

/// The counters do not depend on the order in which children are met: two series
/// with the same children, each as often in one as in the other, count the same.
pub proof fn tally_ignores_order(request: RequestView, a: Seq<Sighting>, b: Seq<Sighting>)
    requires
        a.to_multiset() == b.to_multiset(),
    ensures
        tally(request, a) == tally(request, b),
    decreases a.len(),
{
    broadcast use vstd::seq_lib::group_to_multiset_ensures;

    if a.len() == 0 {
        vstd::seq_lib::to_multiset_len(a);
        vstd::seq_lib::to_multiset_len(b);
    } else {
        let x = a.last();
        assert(a =~= a.drop_last().push(x));
        assert(a.to_multiset().count(x) > 0);
        assert(b.contains(x));
        let i = choose|i: int| 0 <= i < b.len() && b[i] == x;
        assert(b.remove(i).to_multiset() =~= a.drop_last().to_multiset());
        tally_ignores_order(request, a.drop_last(), b.remove(i));
        tally_remove(request, b, i);
    }
}

/// Taking one child out of a series takes it off what the series puts on the
/// queue, if it was put there at all.
proof fn enqueued_remove(request: RequestView, seen: Seq<Sighting>, i: int)
    requires
        0 <= i < seen.len(),
    ensures
        enqueued(request, seen).to_multiset() == if request.enqueues(seen[i].entry) {
            enqueued(request, seen.remove(i)).to_multiset().insert(seen[i].entry.path)
        } else {
            enqueued(request, seen.remove(i)).to_multiset()
        },
{
    broadcast use vstd::seq_lib::group_to_multiset_ensures;

    let front = seen.take(i);
    let one = seq![seen[i]];
    let back = seen.skip(i + 1);
    assert(seen =~= front + one + back);
    assert(seen.remove(i) =~= front + back);
    enqueued_concat(request, front + one, back);
    enqueued_concat(request, front, one);
    enqueued_concat(request, front, back);
    assert(one.drop_last() =~= Seq::<Sighting>::empty());
    assert(enqueued(request, one.drop_last()) =~= Seq::<Seq<char>>::empty());
    let a = enqueued(request, front);
    let b = enqueued(request, back);
    if request.enqueues(seen[i].entry) {
        assert(enqueued(request, one) =~= seq![seen[i].entry.path]);
        assert(a + seq![seen[i].entry.path] + b =~= (a + b).insert(
            a.len() as int,
            seen[i].entry.path,
        ));
    } else {
        assert(enqueued(request, one) =~= Seq::<Seq<char>>::empty());
        assert(a + Seq::<Seq<char>>::empty() + b =~= a + b);
    }
}

/// Which directories are put on the queue does not depend on the order in which
/// children are met: two series with the same children queue the same
/// directories, each as often by one as by the other.
pub proof fn enqueued_ignores_order(request: RequestView, a: Seq<Sighting>, b: Seq<Sighting>)
    requires
        a.to_multiset() == b.to_multiset(),
    ensures
        enqueued(request, a).to_multiset() == enqueued(request, b).to_multiset(),
    decreases a.len(),
{
    broadcast use vstd::seq_lib::group_to_multiset_ensures;

    if a.len() == 0 {
        vstd::seq_lib::to_multiset_len(a);
        vstd::seq_lib::to_multiset_len(b);
    } else {
        let x = a.last();
        assert(a =~= a.drop_last().push(x));
        assert(a.to_multiset().count(x) > 0);
        assert(b.contains(x));
        let i = choose|i: int| 0 <= i < b.len() && b[i] == x;
        assert(b.remove(i).to_multiset() =~= a.drop_last().to_multiset());
        enqueued_ignores_order(request, a.drop_last(), b.remove(i));
        enqueued_remove(request, b, i);
    }
}

/// Visiting a listing appends its children to those seen, each once and in the
/// listing's order, adds their count to the counters, and appends the admitted
/// directories among them to the queue.
pub proof fn search_appends(w: WalkView, listing: Seq<EntryView>)
    ensures
        w.search(listing) == (WalkView {
            queue: w.queue + enqueued(w.request, judged(w.request, listing)),
            results: w.results.plus(tally(w.request, judged(w.request, listing))),
            seen: w.seen + judged(w.request, listing),
            ..w
        }),
    decreases listing.len(),
{
    let verdicts = judged(w.request, listing);
    if listing.len() == 0 {
        assert(w.queue + enqueued(w.request, verdicts) =~= w.queue);
        assert(w.seen + verdicts =~= w.seen);
    } else {
        let before = listing.drop_last();
        search_appends(w, before);
        assert(verdicts.drop_last() =~= judged(w.request, before));
        let mid = w.search(before);
        let end = mid.visit(listing.last());
        assert(end.seen =~= w.seen + verdicts);
        assert(end.queue =~= w.queue + enqueued(w.request, verdicts));
    }
}

proof fn record_keeps_the_invariant(w: WalkView, entry: EntryView, matched: bool)
    requires
        w.wf(),
    ensures
        w.record(entry, matched).wf(),
{
    let r = w.record(entry, matched);
    let found = enqueued(w.request, w.seen);
    assert(r.seen.drop_last() =~= w.seen);
    assert(r.seen.last() == Sighting { entry, matched });
    if w.request.enqueues(entry) {
        assert(enqueued(w.request, r.seen) == found.push(entry.path));
        assert(r.taken + r.queue =~= (w.taken + w.queue).push(entry.path));
        assert(seq![w.request.root] + found.push(entry.path) =~= (seq![w.request.root]
            + found).push(entry.path));
    } else {
        assert(enqueued(w.request, r.seen) == found);
    }
}

/// A child that is no link, device, FIFO or socket, whose name does not begin
/// with a dot and is not reserved, is admitted whatever the flags.
pub proof fn plain_children_are_admitted(request: RequestView, entry: EntryView)
    requires
        !entry.kind.is_special(),
        !is_dotted(entry.name),
        !request.reserved.contains(entry.name),
    ensures
        request.admits(entry),
{
}

/// How many of a listing's children are directories.
pub open spec fn directories_in(listing: Seq<EntryView>) -> nat
    decreases listing.len(),
{
    if listing.len() == 0 {
        0
    } else {
        directories_in(listing.drop_last()) + if listing.last().kind is Directory {
            1nat
        } else {
            0nat
        }
    }
}

/// How many of a listing's children a request admits.
pub open spec fn admitted_in(request: RequestView, listing: Seq<EntryView>) -> nat
    decreases listing.len(),
{
    if listing.len() == 0 {
        0
    } else {
        admitted_in(request, listing.drop_last()) + if request.admits(listing.last()) {
            1nat
        } else {
            0nat
        }
    }
}

/// How many of a listing's children are directories that a request admits.
pub open spec fn admitted_directories_in(request: RequestView, listing: Seq<EntryView>) -> nat
    decreases listing.len(),
{
    if listing.len() == 0 {
        0
    } else {
        admitted_directories_in(request, listing.drop_last()) + if request.enqueues(
            listing.last(),
        ) {
            1nat
        } else {
            0nat
        }
    }
}

/// What one listing adds to the counters, whatever its children: each admitted
/// child is examined exactly once. Every admitted directory is counted as pushed;
/// every admitted child is counted as scanned, but for the directories in
/// files-only mode.
pub proof fn listing_counts_each_child_once(request: RequestView, listing: Seq<EntryView>)
    ensures
        admitted_directories_in(request, listing) <= admitted_in(request, listing),
        admitted_in(request, listing) <= listing.len(),
        tally(request, judged(request, listing)).directories_pushed == admitted_directories_in(
            request,
            listing,
        ),
        tally(request, judged(request, listing)).objects_scanned == if request.files_only {
            admitted_in(request, listing) - admitted_directories_in(request, listing)
        } else {
            admitted_in(request, listing) as int
        },
    decreases listing.len(),
{
    if listing.len() > 0 {
        listing_counts_each_child_once(request, listing.drop_last());
        assert(judged(request, listing).drop_last() =~= judged(request, listing.drop_last()));
    }
}

/// Where a request admits all children of a listing, it admits as many as there
/// are, and as many directories as are among them.
pub proof fn all_admitted(request: RequestView, listing: Seq<EntryView>)
    requires
        forall|i: int| 0 <= i < listing.len() ==> request.admits(#[trigger] listing[i]),
    ensures
        admitted_in(request, listing) == listing.len(),
        admitted_directories_in(request, listing) == directories_in(listing),
        directories_in(listing) <= listing.len(),
    decreases listing.len(),
{
    if listing.len() > 0 {
        all_admitted(request, listing.drop_last());
    }
}

/// Visiting a listing of which no child is passed over examines each child
/// exactly once: the directories pushed grow by the number of directories among
/// the children, and the objects scanned by the number of children, or in
/// files-only mode by the number of children that are no directories.
pub proof fn search_scans_each_child_once(w: WalkView, listing: Seq<EntryView>)
    requires
        forall|i: int| 0 <= i < listing.len() ==> w.request.admits(#[trigger] listing[i]),
    ensures
        directories_in(listing) <= listing.len(),
        w.search(listing).results.directories_pushed == w.results.directories_pushed
            + directories_in(listing),
        w.search(listing).results.objects_scanned == w.results.objects_scanned
            + if w.request.files_only {
            listing.len() - directories_in(listing)
        } else {
            listing.len() as int
        },
{
    search_appends(w, listing);
    listing_counts_each_child_once(w.request, listing);
    all_admitted(w.request, listing);
}

/// The invariant of a walk survives every step.
pub proof fn steps_keep_the_invariant(w: WalkView, entry: EntryView, matched: bool)
    requires
        w.wf(),
    ensures
        WalkView::start(w.request).wf(),
        w.queue.len() > 0 ==> w.advance().wf(),
        w.record(entry, matched).wf(),
        w.visit(entry).wf(),
{
    let s = WalkView::start(w.request);
    assert(s.taken + s.queue =~= seq![w.request.root] + enqueued(w.request, s.seen));
    if w.queue.len() > 0 {
        let a = w.advance();
        assert(a.taken + a.queue =~= w.taken + w.queue);
    }
    record_keeps_the_invariant(w, entry, matched);
    record_keeps_the_invariant(w, entry, w.request.pattern.accepts(entry.name));
}

/// Visiting a listing keeps the invariant of a walk.
pub proof fn search_keeps_the_invariant(w: WalkView, listing: Seq<EntryView>)
    requires
        w.wf(),
    ensures
        w.search(listing).wf(),
    decreases listing.len(),
{
    if listing.len() > 0 {
        search_keeps_the_invariant(w, listing.drop_last());
        steps_keep_the_invariant(w.search(listing.drop_last()), listing.last(), true);
    }
}

/// At every moment of a walk the directories counted as pushed are the root and
/// the admitted directories found among the children so far: each was queued once,
/// and each has since been taken or still waits.
pub proof fn pushed_is_root_plus_found(w: WalkView)
    requires
        w.wf(),
    ensures
        w.results.directories_pushed == 1 + enqueued(w.request, w.seen).len(),
        w.results.directories_pushed == w.taken.len() + w.queue.len(),
{
    tally_is_sound(w.request, w.seen);
    assert((w.taken + w.queue).len() == (seq![w.request.root] + enqueued(
        w.request,
        w.seen,
    )).len());
}

/// Directories leave the queue in the order in which they entered it, the root
/// first: those taken so far are the first of the root and the directories found,
/// those that wait are the rest.
pub proof fn taken_in_order_of_discovery(w: WalkView)
    requires
        w.wf(),
    ensures
        w.taken.len() <= 1 + enqueued(w.request, w.seen).len(),
        w.taken == (seq![w.request.root] + enqueued(w.request, w.seen)).take(
            w.taken.len() as int,
        ),
        w.queue == (seq![w.request.root] + enqueued(w.request, w.seen)).skip(
            w.taken.len() as int,
        ),
{
    let all = seq![w.request.root] + enqueued(w.request, w.seen);
    assert((w.taken + w.queue).len() == all.len());
    assert(w.taken =~= (w.taken + w.queue).take(w.taken.len() as int));
    assert(w.queue =~= (w.taken + w.queue).skip(w.taken.len() as int));
}

/// In files-only mode the count of matched directories stays at zero throughout
/// a walk.
pub proof fn files_only_matches_no_directory(w: WalkView)
    requires
        w.wf(),
        w.request.files_only,
    ensures
        w.results.directories_matched == 0,
{
    tally_is_sound(w.request, w.seen);
}

} // verus!
