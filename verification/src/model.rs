//! A directory tree as a walk finds it on disk, the walk over such a tree, and what
//! that walk comes to, whatever the tree.

use crate::entry::{EntryView, Kind};
use crate::laws::{
    pushed_is_root_plus_found, search_appends, search_keeps_the_invariant,
    steps_keep_the_invariant, tally_ignores_order, tally_is_sound,
};
use crate::request::RequestView;
use crate::walk::{enqueued, judged, seeded, tally, Sighting, WalkView};
use vstd::multiset::Multiset;
use vstd::prelude::*;
use vstd::seq_lib::lemma_multiset_commutative;

verus! {

/// An object on disk together with everything below it.
pub struct Tree {
    /// The object as the listing of its parent shows it. For the root of a walk
    /// only the path counts.
    pub entry: EntryView,
    /// What a stat that does not follow links says of the object at the moment
    /// it is taken from the queue; `None` where the stat fails.
    pub stat: Option<Kind>,
    /// Whether the object can be read as a directory.
    pub readable: bool,
    /// What reading it yields, in the order in which it is listed.
    pub listing: Seq<Tree>,
}

impl Tree {
    /// The children that the walk is handed when this object is taken from the
    /// queue: its listing if it is expanded and can be read, else nothing.
    pub open spec fn offers(self, request: RequestView) -> Seq<Tree> {
        if request.expands(self.stat) && self.readable {
            self.listing
        } else {
            Seq::empty()
        }
    }
}

/// The number of objects in a tree.
pub open spec fn tree_size(tree: Tree) -> nat
    decreases tree,
{
    1 + forest_size(tree.listing)
}

/// The number of objects in a series of trees.
pub open spec fn forest_size(forest: Seq<Tree>) -> nat
    decreases forest,
{
    if forest.len() == 0 {
        0
    } else {
        forest_size(forest.drop_last()) + tree_size(forest.last())
    }
}

/// The entries of a series of objects.
pub open spec fn entries(nodes: Seq<Tree>) -> Seq<EntryView> {
    Seq::new(nodes.len(), |i: int| nodes[i].entry)
}

/// The paths of a series of objects.
pub open spec fn paths(nodes: Seq<Tree>) -> Seq<Seq<char>> {
    Seq::new(nodes.len(), |i: int| nodes[i].entry.path)
}

/// Those of a series of children that are put on the queue: the admitted
/// directories, in order.
pub open spec fn queued(request: RequestView, children: Seq<Tree>) -> Seq<Tree>
    decreases children.len(),
{
    if children.len() == 0 {
        Seq::empty()
    } else if request.enqueues(children.last().entry) {
        queued(request, children.drop_last()).push(children.last())
    } else {
        queued(request, children.drop_last())
    }
}

proof fn forest_size_concat(a: Seq<Tree>, b: Seq<Tree>)
    ensures
        forest_size(a + b) == forest_size(a) + forest_size(b),
    decreases b.len(),
{
    if b.len() == 0 {
        assert(a + b =~= a);
    } else {
        assert((a + b).drop_last() =~= a + b.drop_last());
        forest_size_concat(a, b.drop_last());
    }
}

proof fn forest_size_first(forest: Seq<Tree>)
    requires
        forest.len() > 0,
    ensures
        forest_size(forest) == tree_size(forest.first()) + forest_size(forest.drop_first()),
{
    let one = seq![forest.first()];
    assert(forest =~= one + forest.drop_first());
    forest_size_concat(one, forest.drop_first());
    assert(one.drop_last() =~= Seq::<Tree>::empty());
    assert(forest_size(one.drop_last()) == 0);
}

proof fn queued_is_no_larger(request: RequestView, children: Seq<Tree>)
    ensures
        forest_size(queued(request, children)) <= forest_size(children),
    decreases children.len(),
{
    if children.len() > 0 {
        queued_is_no_larger(request, children.drop_last());
        if request.enqueues(children.last().entry) {
            let q = queued(request, children.drop_last());
            assert(q.push(children.last()).drop_last() =~= q);
        }
    }
}

proof fn offers_are_smaller(request: RequestView, node: Tree)
    ensures
        forest_size(queued(request, node.offers(request))) < tree_size(node),
{
    queued_is_no_larger(request, node.offers(request));
    assert(forest_size(Seq::<Tree>::empty()) == 0);
}

/// Taking the first tree from the queue and queueing what it leads to leaves
/// fewer objects to go through.
pub proof fn queue_shrinks(request: RequestView, pending: Seq<Tree>)
    requires
        pending.len() > 0,
    ensures
        forest_size(pending.drop_first() + queued(request, pending.first().offers(request)))
            < forest_size(pending),
{
    let children = pending.first().offers(request);
    forest_size_first(pending);
    offers_are_smaller(request, pending.first());
    forest_size_concat(pending.drop_first(), queued(request, children));
}

/// The walk over the trees that wait in the queue, from the state `w` on: the
/// first is taken and its children are visited, which puts the admitted
/// directories among them at the end of the queue, until the queue is empty.
pub open spec fn drain(request: RequestView, pending: Seq<Tree>, w: WalkView) -> WalkView
    decreases forest_size(pending),
    via drain_terminates
{
    if pending.len() == 0 {
        w
    } else {
        let children = pending.first().offers(request);
        drain(
            request,
            pending.drop_first() + queued(request, children),
            w.advance().search(entries(children)),
        )
    }
}

#[via_fn]
proof fn drain_terminates(request: RequestView, pending: Seq<Tree>, w: WalkView) {
    if pending.len() > 0 {
        queue_shrinks(request, pending);
    }
}

/// The objects that are put on the queue in a walk that starts at `tree`: the tree
/// itself, and below every one of them that is expanded the admitted directories
/// among its children with all that they lead to in turn. The definition goes
/// depth first; it owes nothing to the order in which a walk proceeds.
pub open spec fn reached(request: RequestView, tree: Tree) -> Seq<Tree>
    decreases tree_size(tree), 0nat,
    via reached_terminates
{
    let below = queued(request, tree.offers(request));
    seq![tree] + reached_all(request, below)
}

#[via_fn]
proof fn reached_terminates(request: RequestView, tree: Tree) {
    offers_are_smaller(request, tree);
}

/// The objects that are put on the queue in a walk that starts with a series of
/// trees.
pub open spec fn reached_all(request: RequestView, forest: Seq<Tree>) -> Seq<Tree>
    decreases forest_size(forest), 1nat,
    via reached_all_terminates
{
    if forest.len() == 0 {
        Seq::empty()
    } else {
        reached_all(request, forest.drop_last()) + reached(request, forest.last())
    }
}

#[via_fn]
proof fn reached_all_terminates(request: RequestView, forest: Seq<Tree>) {
    if forest.len() > 0 {
        assert(tree_size(forest.last()) >= 1);
        assert(forest_size(forest) == forest_size(forest.drop_last()) + tree_size(
            forest.last(),
        ));
    }
}

/// The children that a walk is handed when it takes each of `nodes` from the
/// queue, with the matcher's verdict on each name.
pub open spec fn handed(request: RequestView, nodes: Seq<Tree>) -> Seq<Sighting>
    decreases nodes.len(),
{
    if nodes.len() == 0 {
        Seq::empty()
    } else {
        handed(request, nodes.drop_last()) + judged(
            request,
            entries(nodes.last().offers(request)),
        )
    }
}

/// The walk over a tree from its beginning to its end.
pub open spec fn walk_over(request: RequestView, root: Tree) -> WalkView {
    drain(request, seq![root], WalkView::start(request))
}

proof fn nothing_holds_nothing<A>(s: Seq<A>)
    requires
        s.len() == 0,
    ensures
        s.to_multiset() == Multiset::<A>::empty(),
{
    vstd::seq_lib::to_multiset_len(s);
    vstd::multiset::lemma_multiset_empty_len(s.to_multiset());
}

proof fn reached_all_concat(request: RequestView, a: Seq<Tree>, b: Seq<Tree>)
    ensures
        reached_all(request, a + b) == reached_all(request, a) + reached_all(request, b),
    decreases b.len(),
{
    if b.len() == 0 {
        assert(a + b =~= a);
        assert(reached_all(request, a) + reached_all(request, b) =~= reached_all(request, a));
    } else {
        assert((a + b).drop_last() =~= a + b.drop_last());
        reached_all_concat(request, a, b.drop_last());
        assert(reached_all(request, a + b) =~= reached_all(request, a) + reached_all(
            request,
            b,
        ));
    }
}

proof fn reached_all_first(request: RequestView, forest: Seq<Tree>)
    requires
        forest.len() > 0,
    ensures
        reached_all(request, forest) == reached(request, forest.first()) + reached_all(
            request,
            forest.drop_first(),
        ),
{
    let one = seq![forest.first()];
    assert(forest =~= one + forest.drop_first());
    reached_all_concat(request, one, forest.drop_first());
    assert(one.drop_last() =~= Seq::<Tree>::empty());
    assert(reached_all(request, one.drop_last()) =~= Seq::<Tree>::empty());
    assert(reached_all(request, one) =~= reached(request, forest.first()));
}

proof fn handed_concat(request: RequestView, a: Seq<Tree>, b: Seq<Tree>)
    ensures
        handed(request, a + b) == handed(request, a) + handed(request, b),
    decreases b.len(),
{
    if b.len() == 0 {
        assert(a + b =~= a);
        assert(handed(request, a) + handed(request, b) =~= handed(request, a));
    } else {
        assert((a + b).drop_last() =~= a + b.drop_last());
        handed_concat(request, a, b.drop_last());
        assert(handed(request, a + b) =~= handed(request, a) + handed(request, b));
    }
}

proof fn handed_single(request: RequestView, node: Tree)
    ensures
        handed(request, seq![node]) == judged(request, entries(node.offers(request))),
{
    let one = seq![node];
    assert(one.drop_last() =~= Seq::<Tree>::empty());
    assert(handed(request, one.drop_last()) =~= Seq::<Sighting>::empty());
    assert(handed(request, one) =~= judged(request, entries(node.offers(request))));
}

/// What a listing puts on the queue are the paths of its admitted directories.
proof fn queued_paths(request: RequestView, children: Seq<Tree>)
    ensures
        enqueued(request, judged(request, entries(children))) == paths(
            queued(request, children),
        ),
    decreases children.len(),
{
    let verdicts = judged(request, entries(children));
    if children.len() == 0 {
        assert(paths(queued(request, children)) =~= Seq::<Seq<char>>::empty());
    } else {
        let before = children.drop_last();
        queued_paths(request, before);
        assert(verdicts.drop_last() =~= judged(request, entries(before)));
        assert(verdicts.last().entry == children.last().entry);
        if request.enqueues(children.last().entry) {
            assert(paths(queued(request, before).push(children.last())) =~= paths(
                queued(request, before),
            ).push(children.last().entry.path));
        }
    }
}

/// The walk from any state on: it ends with an empty queue, and on the way it
/// takes from the queue what waits there and what that leads to, and is handed
/// the children of all of those, each once.
proof fn drain_accounts(request: RequestView, pending: Seq<Tree>, w: WalkView)
    requires
        w.wf(),
        w.request == request,
        w.queue == paths(pending),
    ensures
        ({
            let end = drain(request, pending, w);
            let all = reached_all(request, pending);
            &&& end.wf()
            &&& end.request == request
            &&& end.queue.len() == 0
            &&& end.taken.to_multiset() == w.taken.to_multiset().add(paths(all).to_multiset())
            &&& end.seen.to_multiset() == w.seen.to_multiset().add(
                handed(request, all).to_multiset(),
            )
        }),
    decreases forest_size(pending),
{
    broadcast use vstd::multiset::group_multiset_axioms;

    if pending.len() == 0 {
        nothing_holds_nothing(paths(reached_all(request, pending)));
        nothing_holds_nothing(handed(request, reached_all(request, pending)));
        assert(w.taken.to_multiset().add(Multiset::empty()) =~= w.taken.to_multiset());
        assert(w.seen.to_multiset().add(Multiset::empty()) =~= w.seen.to_multiset());
    } else {
        let node = pending.first();
        let rest = pending.drop_first();
        let children = node.offers(request);
        let found = queued(request, children);
        let verdicts = judged(request, entries(children));
        let w1 = w.advance();
        let w2 = w1.search(entries(children));
        let next = rest + found;

        steps_keep_the_invariant(w, node.entry, true);
        search_keeps_the_invariant(w1, entries(children));
        search_appends(w1, entries(children));
        queued_paths(request, children);
        assert(w1.queue =~= paths(rest));
        assert(w2.queue =~= paths(next));

        queue_shrinks(request, pending);
        drain_accounts(request, next, w2);

        let end = drain(request, pending, w);
        assert(end == drain(request, next, w2));
        let deep = reached_all(request, found);
        let wide = reached_all(request, rest);
        reached_all_first(request, pending);
        reached_all_concat(request, rest, found);
        assert(reached_all(request, pending) == (seq![node] + deep) + wide);
        assert(reached_all(request, next) == wide + deep);

        // The directories taken.
        assert(w2.taken == w.taken.push(node.entry.path));
        assert(paths((seq![node] + deep) + wide) =~= (seq![node.entry.path] + paths(deep))
            + paths(wide));
        assert(paths(wide + deep) =~= paths(wide) + paths(deep));
        lemma_multiset_commutative(seq![node.entry.path] + paths(deep), paths(wide));
        lemma_multiset_commutative(seq![node.entry.path], paths(deep));
        lemma_multiset_commutative(paths(wide), paths(deep));
        vstd::seq_lib::to_multiset_build(w.taken, node.entry.path);
        vstd::seq_lib::to_multiset_build(Seq::<Seq<char>>::empty(), node.entry.path);
        assert(Seq::<Seq<char>>::empty().push(node.entry.path) =~= seq![node.entry.path]);
        nothing_holds_nothing(Seq::<Seq<char>>::empty());
        assert(end.taken.to_multiset() =~= w.taken.to_multiset().add(
            paths(reached_all(request, pending)).to_multiset(),
        ));

        // The children handed over.
        assert(w2.seen == w.seen + verdicts);
        handed_concat(request, seq![node] + deep, wide);
        handed_concat(request, seq![node], deep);
        handed_single(request, node);
        handed_concat(request, wide, deep);
        let h_deep = handed(request, deep);
        let h_wide = handed(request, wide);
        lemma_multiset_commutative(w.seen, verdicts);
        lemma_multiset_commutative(verdicts + h_deep, h_wide);
        lemma_multiset_commutative(verdicts, h_deep);
        lemma_multiset_commutative(h_wide, h_deep);
        assert(end.seen.to_multiset() =~= w.seen.to_multiset().add(
            handed(request, reached_all(request, pending)).to_multiset(),
        ));
    }
}

/// The children still to be handed over when a tree waits at the front of the
/// queue are those that it offers, and those still to be handed over once they
/// were.
pub proof fn handed_by_step(request: RequestView, pending: Seq<Tree>)
    requires
        pending.len() > 0,
    ensures
        ({
            let children = pending.first().offers(request);
            let next = pending.drop_first() + queued(request, children);
            handed(request, reached_all(request, pending)).len() == children.len() + handed(
                request,
                reached_all(request, next),
            ).len()
        }),
{
    let node = pending.first();
    let rest = pending.drop_first();
    let found = queued(request, node.offers(request));
    let deep = reached_all(request, found);
    let wide = reached_all(request, rest);
    reached_all_first(request, pending);
    reached_all_concat(request, rest, found);
    handed_concat(request, seq![node] + deep, wide);
    handed_concat(request, seq![node], deep);
    handed_single(request, node);
    handed_concat(request, wide, deep);
}

/// The children to be handed over in a walk that starts with one tree are those
/// of the walk over that tree.
pub proof fn reached_all_single(request: RequestView, tree: Tree)
    ensures
        reached_all(request, seq![tree]) == reached(request, tree),
{
    reached_all_first(request, seq![tree]);
    assert(seq![tree].drop_first() =~= Seq::<Tree>::empty());
    assert(reached_all(request, seq![tree]) =~= reached(request, tree));
}

/// A walk over any tree ends with an empty queue, and by then it has taken from
/// the queue the root and every admitted directory below an expanded one, each
/// exactly once, and has been handed the children of each of those exactly once.
pub proof fn walk_takes_each_directory_once(request: RequestView, root: Tree)
    requires
        root.entry.path == request.root,
    ensures
        ({
            let end = walk_over(request, root);
            let all = reached(request, root);
            &&& end.wf()
            &&& end.request == request
            &&& end.queue.len() == 0
            &&& end.taken.to_multiset() == paths(all).to_multiset()
            &&& end.taken.len() == all.len()
            &&& end.seen.to_multiset() == handed(request, all).to_multiset()
            &&& end.seen.len() == handed(request, all).len()
        }),
{
    broadcast use vstd::multiset::group_multiset_axioms;

    let start = WalkView::start(request);
    let end = walk_over(request, root);
    let all = reached(request, root);
    steps_keep_the_invariant(start, root.entry, true);
    assert(start.queue =~= paths(seq![root]));
    drain_accounts(request, seq![root], start);
    reached_all_first(request, seq![root]);
    assert(seq![root].drop_first() =~= Seq::<Tree>::empty());
    assert(reached_all(request, seq![root]) =~= all);
    nothing_holds_nothing(start.taken);
    nothing_holds_nothing(start.seen);
    assert(end.taken.to_multiset() =~= paths(all).to_multiset());
    assert(end.seen.to_multiset() =~= handed(request, all).to_multiset());
    vstd::seq_lib::to_multiset_len(end.taken);
    vstd::seq_lib::to_multiset_len(paths(all));
    vstd::seq_lib::to_multiset_len(end.seen);
    vstd::seq_lib::to_multiset_len(handed(request, all));
}

/// Where no two of the objects reached bear the same path, as on disk, no path is
/// taken from the queue twice.
pub proof fn walk_takes_no_path_twice(request: RequestView, root: Tree)
    requires
        root.entry.path == request.root,
        paths(reached(request, root)).no_duplicates(),
    ensures
        walk_over(request, root).taken.no_duplicates(),
{
    walk_takes_each_directory_once(request, root);
    paths(reached(request, root)).lemma_multiset_has_no_duplicates();
    walk_over(request, root).taken.lemma_multiset_has_no_duplicates_conv();
}

/// What the counters hold at the end of a walk over any tree: the count of the
/// children of all directories reached, in whatever order they were met; and as
/// directories pushed the root and one for each admitted directory found below.
pub proof fn walk_counts_what_it_reached(request: RequestView, root: Tree)
    requires
        root.entry.path == request.root,
    ensures
        ({
            let end = walk_over(request, root);
            let all = reached(request, root);
            let below = reached_all(request, queued(request, root.offers(request)));
            &&& end.results == seeded().plus(tally(request, handed(request, all)))
            &&& end.results.directories_pushed == 1 + below.len()
            &&& end.results.directories_pushed == 1 + enqueued(request, end.seen).len()
            &&& request.files_only ==> end.results.directories_matched == 0
        }),
{
    let end = walk_over(request, root);
    let all = reached(request, root);
    walk_takes_each_directory_once(request, root);
    tally_ignores_order(request, end.seen, handed(request, all));
    tally_is_sound(request, end.seen);
    pushed_is_root_plus_found(end);
}

proof fn queued_is_local(a: RequestView, b: RequestView, children: Seq<Tree>)
    requires
        a.include_hidden == b.include_hidden,
        a.reserved == b.reserved,
    ensures
        queued(a, children) == queued(b, children),
    decreases children.len(),
{
    if children.len() > 0 {
        queued_is_local(a, b, children.drop_last());
    }
}

proof fn reached_is_local(a: RequestView, b: RequestView, tree: Tree)
    requires
        a.include_hidden == b.include_hidden,
        a.reserved == b.reserved,
    ensures
        reached(a, tree) == reached(b, tree),
    decreases tree_size(tree), 0nat,
{
    queued_is_local(a, b, tree.offers(a));
    offers_are_smaller(a, tree);
    reached_all_is_local(a, b, queued(a, tree.offers(a)));
}

proof fn reached_all_is_local(a: RequestView, b: RequestView, forest: Seq<Tree>)
    requires
        a.include_hidden == b.include_hidden,
        a.reserved == b.reserved,
    ensures
        reached_all(a, forest) == reached_all(b, forest),
    decreases forest_size(forest), 1nat,
{
    if forest.len() > 0 {
        assert(tree_size(forest.last()) >= 1);
        reached_all_is_local(a, b, forest.drop_last());
        reached_is_local(a, b, forest.last());
    }
}

/// Which directories a walk takes, and how many it counts as pushed, is the same
/// for two requests that agree on the hidden flag and the reserved names: the
/// pattern and files-only mode do not change it.
pub proof fn pattern_and_files_only_spare_the_queue(a: RequestView, b: RequestView, root: Tree)
    requires
        root.entry.path == a.root,
        root.entry.path == b.root,
        a.include_hidden == b.include_hidden,
        a.reserved == b.reserved,
    ensures
        walk_over(a, root).taken.to_multiset() == walk_over(b, root).taken.to_multiset(),
        walk_over(a, root).results.directories_pushed == walk_over(
            b,
            root,
        ).results.directories_pushed,
{
    walk_takes_each_directory_once(a, root);
    walk_takes_each_directory_once(b, root);
    walk_counts_what_it_reached(a, root);
    walk_counts_what_it_reached(b, root);
    reached_is_local(a, b, root);
    queued_is_local(a, b, root.offers(a));
    reached_all_is_local(a, b, queued(a, root.offers(a)));
}

} // verus!
