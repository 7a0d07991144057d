//! The breadth-first walk: a queue of directories that wait to be expanded, the
//! running counters, and the steps that move both.
//!
//! The walk performs no input or output. Its caller takes the next directory from
//! the queue, reads it from disk, and hands every child to the walk, which counts
//! it, queues it if it is a directory worth expanding, and gives back the line to
//! print if its name matched.

use crate::classifier::{ignore, ignored};
use crate::entry::{views, Entry, EntryView, Kind};
use crate::presenter::{render, rendered};
use crate::request::{RequestView, TraversalRequest};
use crate::results::{SearchResults, Tally};
use std::collections::VecDeque;
use vstd::prelude::*;

verus! {

impl RequestView {
    /// A child is admitted unless the rule for passing over says otherwise. No
    /// directory is required of a child. A child that is not admitted counts for
    /// nothing: it is not scanned, not queued and not reported.
    pub open spec fn admits(self, entry: EntryView) -> bool {
        !ignored(Some(entry.kind), Some(entry.name), false, self.include_hidden, self.reserved)
    }

    /// Admitted directories are queued for expansion, whatever the other flags say.
    pub open spec fn enqueues(self, entry: EntryView) -> bool {
        self.admits(entry) && entry.kind is Directory
    }

    /// Admitted children are scanned, but for directories in files-only mode, which
    /// are left out of the scanned count altogether and not only out of the matches.
    pub open spec fn scans(self, entry: EntryView) -> bool {
        self.admits(entry) && !(self.files_only && entry.kind is Directory)
    }

    /// A child is reported when it is scanned and its name matched.
    pub open spec fn reports(self, entry: EntryView, matched: bool) -> bool {
        self.scans(entry) && matched
    }

    /// What one child adds to the counters.
    pub open spec fn contribution(self, entry: EntryView, matched: bool) -> Tally {
        Tally {
            directories_matched: if self.reports(entry, matched) && entry.kind is Directory {
                1
            } else {
                0
            },
            files_matched: if self.reports(entry, matched) && !(entry.kind is Directory) {
                1
            } else {
                0
            },
            objects_scanned: if self.scans(entry) {
                1
            } else {
                0
            },
            directories_pushed: if self.enqueues(entry) {
                1
            } else {
                0
            },
        }
    }

    /// The line to print for one child, if any: its path as given, styled by kind.
    pub open spec fn line(self, entry: EntryView, matched: bool) -> Option<Seq<char>> {
        if self.reports(entry, matched) {
            Some(rendered(entry, false))
        } else {
            None
        }
    }

    /// Whether a directory taken from the queue is expanded, given what a stat
    /// that does not follow links says of it now. Its name plays no part: names are
    /// judged when a child is found, and the root is visited whatever its name.
    pub open spec fn expands(self, stat: Option<Kind>) -> bool {
        !ignored(stat, None, true, self.include_hidden, self.reserved)
    }
}

/// One child as the walk met it: the entry, and whether its name matched.
pub struct Sighting {
    pub entry: EntryView,
    pub matched: bool,
}

/// What a series of children adds to the counters.
pub open spec fn tally(request: RequestView, seen: Seq<Sighting>) -> Tally
    decreases seen.len(),
{
    if seen.len() == 0 {
        Tally::zero()
    } else {
        tally(request, seen.drop_last()).plus(
            request.contribution(seen.last().entry, seen.last().matched),
        )
    }
}

/// The paths that a series of children puts on the queue, in order.
pub open spec fn enqueued(request: RequestView, seen: Seq<Sighting>) -> Seq<Seq<char>>
    decreases seen.len(),
{
    if seen.len() == 0 {
        Seq::empty()
    } else if request.enqueues(seen.last().entry) {
        enqueued(request, seen.drop_last()).push(seen.last().entry.path)
    } else {
        enqueued(request, seen.drop_last())
    }
}

/// The lines that a series of children prints, in order.
pub open spec fn lines(request: RequestView, seen: Seq<Sighting>) -> Seq<Seq<char>>
    decreases seen.len(),
{
    if seen.len() == 0 {
        Seq::empty()
    } else if request.reports(seen.last().entry, seen.last().matched) {
        lines(request, seen.drop_last()).push(rendered(seen.last().entry, false))
    } else {
        lines(request, seen.drop_last())
    }
}

/// The children of a listing with the matcher's verdict on each name.
pub open spec fn judged(request: RequestView, listing: Seq<EntryView>) -> Seq<Sighting> {
    Seq::new(
        listing.len(),
        |i: int| Sighting { entry: listing[i], matched: request.pattern.accepts(listing[i].name) },
    )
}

/// The counters before any child was seen: nothing but the root, which is queued.
pub open spec fn seeded() -> Tally {
    Tally { directories_matched: 0, files_matched: 0, objects_scanned: 0, directories_pushed: 1 }
}

/// The state of a walk as plain values.
pub struct WalkView {
    /// The configuration, which never changes.
    pub request: RequestView,
    /// The directories that wait to be expanded, the next one first.
    pub queue: Seq<Seq<char>>,
    /// The running counters.
    pub results: Tally,
    /// Every child handed to the walk so far, in order.
    pub seen: Seq<Sighting>,
    /// Every directory taken from the queue so far, in order.
    pub taken: Seq<Seq<char>>,
}

impl WalkView {
    /// The state in which a walk begins.
    pub open spec fn start(request: RequestView) -> WalkView {
        WalkView {
            request,
            queue: seq![request.root],
            results: seeded(),
            seen: Seq::empty(),
            taken: Seq::empty(),
        }
    }

    /// What holds of every state of a walk: the counters are the seed plus what
    /// the children seen so far added, and the directories taken so far, followed
    /// by those still waiting, are the root and then the queued children, each
    /// once and in the order of discovery.
    pub open spec fn wf(self) -> bool {
        &&& self.results == seeded().plus(tally(self.request, self.seen))
        &&& self.results.consistent()
        &&& self.taken + self.queue == seq![self.request.root] + enqueued(
            self.request,
            self.seen,
        )
    }

    /// Whether the counters can take `n` more children.
    pub open spec fn has_room(self, n: nat) -> bool {
        &&& self.results.objects_scanned + n <= u64::MAX
        &&& self.results.directories_pushed + n <= u64::MAX
    }

    /// The state after the next directory was taken from the queue.
    pub open spec fn advance(self) -> WalkView
        recommends
            self.queue.len() > 0,
    {
        WalkView { queue: self.queue.drop_first(), taken: self.taken.push(self.queue[0]), ..self }
    }

    /// The state after one child was handed over with the verdict on its name.
    pub open spec fn record(self, entry: EntryView, matched: bool) -> WalkView {
        WalkView {
            queue: if self.request.enqueues(entry) {
                self.queue.push(entry.path)
            } else {
                self.queue
            },
            results: self.results.plus(self.request.contribution(entry, matched)),
            seen: self.seen.push(Sighting { entry, matched }),
            ..self
        }
    }

    /// The state after one child was handed over and its name tested.
    pub open spec fn visit(self, entry: EntryView) -> WalkView {
        self.record(entry, self.request.pattern.accepts(entry.name))
    }

    /// The state after one child was found whose kind may not be known: a child
    /// whose metadata cannot be had is passed over and changes nothing, any other
    /// is visited.
    pub open spec fn visit_found(
        self,
        path: Seq<char>,
        name: Seq<char>,
        kind: Option<Kind>,
    ) -> WalkView {
        match kind {
            Some(kind) => self.visit(EntryView { path, name, kind }),
            None => self,
        }
    }

    /// The state after the children of one directory were visited in order.
    pub open spec fn search(self, listing: Seq<EntryView>) -> WalkView
        decreases listing.len(),
    {
        if listing.len() == 0 {
            self
        } else {
            self.search(listing.drop_last()).visit(listing.last())
        }
    }
}

/// The characters of a line that may be absent.
pub open spec fn line_view(line: Option<String>) -> Option<Seq<char>> {
    match line {
        Some(text) => Some(text@),
        None => None,
    }
}

/// A walk in progress.
pub struct Walk {
    request: TraversalRequest,
    queue: VecDeque<String>,
    results: SearchResults,
    seen: Ghost<Seq<Sighting>>,
    taken: Ghost<Seq<Seq<char>>>,
}

impl View for Walk {
    type V = WalkView;

    closed spec fn view(&self) -> WalkView {
        WalkView {
            request: self.request@,
            queue: self.queue.deep_view(),
            results: self.results@,
            seen: self.seen@,
            taken: self.taken@,
        }
    }
}

impl Walk {
    /// The invariant of a walk.
    pub open spec fn wf(&self) -> bool {
        self@.wf()
    }

    /// Begins a walk: the queue holds the root, which counts as pushed.
    pub fn new(request: TraversalRequest) -> (walk: Walk)
        ensures
            walk@ == WalkView::start(request@),
            walk.wf(),
    {
        let mut queue: VecDeque<String> = VecDeque::new();
        queue.push_back(request.root().to_owned());
        let results = SearchResults::from_counts(0, 0, 0, 1).unwrap();
        let walk = Walk {
            request,
            queue,
            results,
            seen: Ghost(Seq::empty()),
            taken: Ghost(Seq::empty()),
        };
        proof {
            assert(walk@.queue =~= seq![request@.root]);
            assert(walk@.taken + walk@.queue =~= seq![request@.root] + enqueued(
                request@,
                walk@.seen,
            ));
        }
        walk
    }

    /// The configuration of the walk.
    pub fn request(&self) -> (request: &TraversalRequest)
        ensures
            request@ == self@.request,
    {
        &self.request
    }

    /// The counters as they stand.
    pub fn results(&self) -> (results: &SearchResults)
        ensures
            results@ == self@.results,
            self.wf() ==> results.wf(),
    {
        &self.results
    }

    /// How many directories wait to be expanded.
    pub fn pending(&self) -> (n: usize)
        ensures
            n == self@.queue.len(),
    {
        self.queue.len()
    }

    /// Whether the counters can take `n` more children.
    pub fn has_room(&self, n: usize) -> (ok: bool)
        ensures
            ok == self@.has_room(n as nat),
    {
        let n = n as u64;
        self.results.objects_scanned() <= u64::MAX - n && self.results.directories_pushed()
            <= u64::MAX - n
    }

    /// Takes the next directory to expand from the front of the queue. `None`
    /// means that the queue is empty and the walk is over.
    pub fn next_directory(&mut self) -> (next: Option<String>)
        requires
            old(self).wf(),
        ensures
            final(self).wf(),
            old(self)@.queue.len() == 0 ==> next is None && final(self)@ == old(self)@,
            old(self)@.queue.len() > 0 ==> next is Some && next.unwrap()@ == old(self)@.queue[0]
                && final(self)@ == old(self)@.advance(),
    {
        let next = self.queue.pop_front();
        proof {
            if next is Some {
                let before = old(self)@;
                self.taken@ = self.taken@.push(before.queue[0]);
                assert(self@.queue =~= before.queue.drop_first());
                assert(self@.taken + self@.queue =~= before.taken + before.queue);
            } else {
                assert(self@.queue =~= old(self)@.queue);
            }
        }
        next
    }

    /// Decides whether a directory taken from the queue is expanded. `stat` is what
    /// a stat that does not follow links says of it, `None` where the stat failed.
    /// A directory that is not expanded adds nothing to the counters.
    pub fn expands(&self, stat: Option<Kind>) -> (go: bool)
        ensures
            go == self@.request.expands(stat),
    {
        !ignore(stat, None, true, &self.request)
    }

    /// Takes one child of the directory in expansion, with the verdict on its name
    /// already given: counts it, queues it if it is an admitted directory, and
    /// returns the line to print if it is reported.
    pub fn record(&mut self, entry: &Entry, matched: bool) -> (line: Option<String>)
        requires
            old(self).wf(),
            old(self)@.has_room(1),
        ensures
            final(self).wf(),
            final(self)@ == old(self)@.record(entry@, matched),
            line_view(line) == old(self)@.request.line(entry@, matched),
    {
        let ghost before = self@;
        proof {
            self.seen@ = self.seen@.push(Sighting { entry: entry@, matched });
            assert(self@.seen.drop_last() =~= before.seen);
        }
        if ignore(Some(entry.kind), Some(entry.name.as_str()), false, &self.request) {
            proof {
                assert(before.results.plus(before.request.contribution(entry@, matched))
                    == before.results);
            }
            return None;
        }
        let directory = entry.kind.is_directory();
        let scanned = !(directory && self.request.files_only());
        let reported = scanned && matched;
        let contribution = SearchResults::from_counts(
            if reported && directory { 1 } else { 0 },
            if reported && !directory { 1 } else { 0 },
            if scanned { 1 } else { 0 },
            if directory { 1 } else { 0 },
        ).unwrap();
        assert(contribution@ == before.request.contribution(entry@, matched));
        proof {
            self.results.view_fits();
        }
        self.results = self.results.merge(&contribution);
        if directory {
            self.queue.push_back(entry.path.clone());
            proof {
                assert(self@.queue =~= before.queue.push(entry@.path));
                assert(self@.taken + self@.queue =~= (before.taken + before.queue).push(
                    entry@.path,
                ));
            }
        } else {
            proof {
                assert(self@.queue =~= before.queue);
            }
        }
        if reported {
            Some(render(entry, false))
        } else {
            None
        }
    }

    /// Takes one child of the directory in expansion: tests its name, then does as
    /// `record` does with the verdict.
    pub fn visit(&mut self, entry: &Entry) -> (line: Option<String>)
        requires
            old(self).wf(),
            old(self)@.has_room(1),
        ensures
            final(self).wf(),
            final(self)@ == old(self)@.visit(entry@),
            line_view(line) == old(self)@.request.line(
                entry@,
                old(self)@.request.pattern.accepts(entry@.name),
            ),
    {
        let matched = self.request.pattern().matches(entry.name.as_str());
        self.record(entry, matched)
    }

    /// Takes one child as it was found on disk, where reading its kind may have
    /// failed. A child without a kind is passed over: nothing changes and nothing
    /// is printed, and the walk goes on with its siblings. Any other child is
    /// visited as `visit` does.
    pub fn visit_found(&mut self, path: &str, name: &str, kind: Option<Kind>) -> (line: Option<
        String,
    >)
        requires
            old(self).wf(),
            old(self)@.has_room(1),
        ensures
            final(self).wf(),
            final(self)@ == old(self)@.visit_found(path@, name@, kind),
            kind is None ==> line is None,
            kind matches Some(k) ==> line_view(line) == old(self)@.request.line(
                EntryView { path: path@, name: name@, kind: k },
                old(self)@.request.pattern.accepts(name@),
            ),
    {
        match kind {
            Some(kind) => {
                let entry = Entry::new(path, name, kind);
                self.visit(&entry)
            },
            None => None,
        }
    }

    /// Takes the children of one directory, in the order in which the directory
    /// lists them, and returns the lines to print, in that order.
    pub fn search(&mut self, listing: &Vec<Entry>) -> (printed: Vec<String>)
        requires
            old(self).wf(),
            old(self)@.has_room(listing.len() as nat),
        ensures
            final(self).wf(),
            final(self)@ == old(self)@.search(views(listing@)),
            printed.deep_view() == lines(
                old(self)@.request,
                judged(old(self)@.request, views(listing@)),
            ),
    {
        let ghost before = self@;
        let ghost all = views(listing@);
        let mut printed: Vec<String> = Vec::new();
        let mut i: usize = 0;
        proof {
            assert(all.take(0) =~= Seq::<EntryView>::empty());
            assert(judged(before.request, all.take(0)) =~= Seq::<Sighting>::empty());
            assert(printed.deep_view() =~= Seq::<Seq<char>>::empty());
        }
        while i < listing.len()
            invariant
                i <= listing.len(),
                all == views(listing@),
                self.wf(),
                self@ == before.search(all.take(i as int)),
                self@.request == before.request,
                before.has_room(listing.len() as nat),
                self@.results.objects_scanned <= before.results.objects_scanned + i,
                self@.results.directories_pushed <= before.results.directories_pushed + i,
                printed.deep_view() == lines(
                    before.request,
                    judged(before.request, all.take(i as int)),
                ),
            decreases listing.len() - i,
        {
            let ghost so_far = printed.deep_view();
            let line = self.visit(&listing[i]);
            proof {
                let next = all.take(i + 1);
                assert(next.drop_last() =~= all.take(i as int));
                assert(next.last() == listing[i as int]@);
                let verdicts = judged(before.request, next);
                assert(verdicts.drop_last() =~= judged(before.request, all.take(i as int)));
            }
            match line {
                Some(text) => {
                    printed.push(text);
                    assert(printed.deep_view() =~= so_far.push(text@));
                },
                None => {
                    assert(printed.deep_view() =~= so_far);
                },
            }
            i += 1;
        }
        proof {
            assert(all.take(listing.len() as int) =~= all);
        }
        printed
    }
}

} // verus!
