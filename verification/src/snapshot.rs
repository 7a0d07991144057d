//! A directory tree held in memory, and the walk over it from beginning to end.

use crate::entry::{Entry, Kind};
use crate::laws::tally_is_sound;
use crate::model::{
    drain, entries, forest_size, handed, handed_by_step, paths, queue_shrinks, queued, reached,
    reached_all, reached_all_single, walk_over, Tree,
};
use crate::request::{RequestView, TraversalRequest};
use crate::text::same_text;
use crate::walk::{lines, Walk};
use std::collections::VecDeque;
use vstd::prelude::*;

verus! {

/// An object together with everything below it, as it was found on disk at some
/// moment or as a caller made it up.
pub struct Snapshot {
    /// The object as the listing of its parent shows it.
    pub entry: Entry,
    /// What a stat that does not follow links says of the object; `None` where
    /// the stat fails.
    pub stat: Option<Kind>,
    /// Whether the object can be read as a directory.
    pub readable: bool,
    /// What reading it yields, in order.
    pub listing: Vec<Snapshot>,
}

/// The tree that a snapshot stands for.
pub open spec fn tree_of(snapshot: Snapshot) -> Tree
    decreases snapshot,
{
    Tree {
        entry: snapshot.entry@,
        stat: snapshot.stat,
        readable: snapshot.readable,
        listing: trees_of(snapshot.listing@),
    }
}

/// The trees that the children of a snapshot stand for.
pub open spec fn trees_of(children: Seq<Snapshot>) -> Seq<Tree>
    decreases children,
{
    if children.len() == 0 {
        Seq::empty()
    } else {
        trees_of(children.drop_last()).push(tree_of(children.last()))
    }
}

impl View for Snapshot {
    type V = Tree;

    open spec fn view(&self) -> Tree {
        tree_of(*self)
    }
}

/// The children of a tree are the trees of the snapshot's children, one for one.
pub proof fn trees_of_children(children: Seq<Snapshot>)
    ensures
        trees_of(children).len() == children.len(),
        forall|i: int| 0 <= i < children.len() ==> trees_of(children)[i] == tree_of(children[i]),
    decreases children.len(),
{
    if children.len() > 0 {
        trees_of_children(children.drop_last());
    }
}

/// The trees that a series of snapshots stands for.
pub open spec fn trees(snapshots: Seq<&Snapshot>) -> Seq<Tree> {
    Seq::new(snapshots.len(), |i: int| snapshots[i]@)
}

/// Whether a tree can be walked for a request: the tree is the request's root,
/// and the children that the walk is handed can be counted.
pub open spec fn walkable(request: RequestView, root: Tree) -> bool {
    &&& root.entry.path == request.root
    &&& handed(request, reached(request, root)).len() < u64::MAX
}

/// Walks a tree held in memory from beginning to end, breadth first, and returns
/// the walk in its last state together with the lines that it printed, in order.
/// The result is that of taking directories from the queue and visiting the
/// children of each, until the queue is empty.
pub fn run(root: &Snapshot, request: TraversalRequest) -> (r: Option<(Walk, Vec<String>)>)
    ensures
        r is Some <==> walkable(request@, root@),
        r matches Some(done) ==> {
            &&& done.0.wf()
            &&& done.0@ == walk_over(request@, root@)
            &&& done.1.deep_view() == lines(request@, done.0@.seen)
        },
{
    if !same_text(request.root(), root.entry.path.as_str()) {
        return None;
    }
    let ghost req = request@;
    let ghost total = handed(req, reached(req, root@)).len();
    let mut walk = Walk::new(request);
    let mut pending: VecDeque<&Snapshot> = VecDeque::new();
    pending.push_back(root);
    let mut printed: Vec<String> = Vec::new();
    let mut count: u64 = 0;
    proof {
        assert(trees(pending@) =~= seq![root@]);
        assert(walk@.queue =~= paths(trees(pending@)));
        reached_all_single(req, root@);
        assert(printed.deep_view() =~= lines(req, walk@.seen));
    }
    while pending.len() > 0
        invariant
            req == request@,
            walk.wf(),
            walk@.request == req,
            walk@.queue == paths(trees(pending@)),
            drain(req, trees(pending@), walk@) == walk_over(req, root@),
            printed.deep_view() == lines(req, walk@.seen),
            count == walk@.seen.len(),
            count < u64::MAX,
            count + handed(req, reached_all(req, trees(pending@))).len() == total,
            total == handed(req, reached(req, root@)).len(),
            root@.entry.path == req.root,
        decreases forest_size(trees(pending@)),
    {
        let ghost before = trees(pending@);
        let ghost w0 = walk@;
        let node = pending.pop_front().unwrap();
        walk.next_directory();
        let width = if walk.expands(node.stat) && node.readable {
            node.listing.len()
        } else {
            0
        };
        let ghost children = node@.offers(req);
        let ghost rest = before.drop_first();
        let ghost w1 = walk@;
        proof {
            trees_of_children(node.listing@);
            assert(before.first() == node@);
            assert(trees(pending@) =~= rest);
            assert(children.len() == width);
            handed_by_step(req, before);
            queue_shrinks(req, before);
            assert(w1 == w0.advance());
            assert(children.take(0) =~= Seq::<Tree>::empty());
            assert(entries(children.take(0)) =~= Seq::empty());
            assert(trees(pending@) =~= rest + queued(req, children.take(0)));
        }
        if width as u64 > u64::MAX - 1 - count {
            return None;
        }
        let ghost counted = count;
        let mut j: usize = 0;
        while j < width
            invariant
                j <= width,
                count == counted + j,
                width <= node.listing.len(),
                width == children.len(),
                children == node@.offers(req),
                walk.wf(),
                walk@.request == req,
                walk@ == w1.search(entries(children.take(j as int))),
                walk@.queue == paths(trees(pending@)),
                trees(pending@) == rest + queued(req, children.take(j as int)),
                printed.deep_view() == lines(req, walk@.seen),
                count == walk@.seen.len(),
                count + (width - j) < u64::MAX,
            decreases width - j,
        {
            let child = &node.listing[j];
            let waiting = walk.pending();
            let ghost w = walk@;
            let ghost so_far = printed.deep_view();
            let ghost queue_so_far = trees(pending@);
            proof {
                tally_is_sound(req, w.seen);
                trees_of_children(node.listing@);
                assert(child@ == children[j as int]);
            }
            let line = walk.visit(&child.entry);
            proof {
                let upto = children.take(j + 1);
                assert(upto.drop_last() =~= children.take(j as int));
                assert(upto.last() == child@);
                assert(entries(upto).drop_last() =~= entries(children.take(j as int)));
                assert(entries(upto).last() == child@.entry);
                assert(walk@.seen.drop_last() =~= w.seen);
            }
            match line {
                Some(text) => {
                    printed.push(text);
                    assert(printed.deep_view() =~= so_far.push(text@));
                },
                None => {
                    assert(printed.deep_view() =~= so_far);
                },
            }
            if walk.pending() > waiting {
                pending.push_back(child);
                proof {
                    assert(req.enqueues(child@.entry));
                    assert(trees(pending@) =~= queue_so_far.push(child@));
                    assert(trees(pending@) =~= rest + queued(req, children.take(j + 1)));
                    assert(walk@.queue =~= paths(trees(pending@)));
                }
            } else {
                proof {
                    assert(!req.enqueues(child@.entry));
                    assert(trees(pending@) =~= rest + queued(req, children.take(j + 1)));
                }
            }
            count += 1;
            j += 1;
        }
        proof {
            assert(children.take(width as int) =~= children);
        }
    }
    Some((walk, printed))
}

} // verus!
