//! The four counters of a search, and how the counts of separate expansions add up.

use vstd::prelude::*;

verus! {

/// The counters as natural numbers.
pub struct Tally {
    /// Directories whose name matched.
    pub directories_matched: nat,
    /// Other entries whose name matched.
    pub files_matched: nat,
    /// Entries whose name was tested.
    pub objects_scanned: nat,
    /// Directories ever put on the queue, the root among them.
    pub directories_pushed: nat,
}

impl Tally {
    /// All counters at zero.
    pub open spec fn zero() -> Tally {
        Tally { directories_matched: 0, files_matched: 0, objects_scanned: 0, directories_pushed: 0 }
    }

    /// Counter by counter, the sum of two tallies.
    pub open spec fn plus(self, other: Tally) -> Tally {
        Tally {
            directories_matched: self.directories_matched + other.directories_matched,
            files_matched: self.files_matched + other.files_matched,
            objects_scanned: self.objects_scanned + other.objects_scanned,
            directories_pushed: self.directories_pushed + other.directories_pushed,
        }
    }

    /// Nothing is counted as a match that was not scanned.
    pub open spec fn consistent(self) -> bool {
        self.objects_scanned >= self.directories_matched + self.files_matched
    }

    /// Every counter fits the machine's counter width.
    pub open spec fn fits(self) -> bool {
        &&& self.directories_matched <= u64::MAX
        &&& self.files_matched <= u64::MAX
        &&& self.objects_scanned <= u64::MAX
        &&& self.directories_pushed <= u64::MAX
    }
}

/// Merging is commutative.
pub proof fn plus_commutes(a: Tally, b: Tally)
    ensures
        a.plus(b) == b.plus(a),
{
}

/// Merging is associative.
pub proof fn plus_associates(a: Tally, b: Tally, c: Tally)
    ensures
        a.plus(b).plus(c) == a.plus(b.plus(c)),
{
}

/// The zero tally is neutral for merging.
pub proof fn plus_zero(a: Tally)
    ensures
        a.plus(Tally::zero()) == a,
        Tally::zero().plus(a) == a,
{
}

/// Merging keeps the scanned count at or above the matches.
pub proof fn plus_consistent(a: Tally, b: Tally)
    requires
        a.consistent(),
        b.consistent(),
    ensures
        a.plus(b).consistent(),
{
}

/// Running totals of a search.
#[derive(Clone, Copy, Debug)]
pub struct SearchResults {
    directories_matched: u64,
    files_matched: u64,
    objects_scanned: u64,
    directories_pushed: u64,
}

impl View for SearchResults {
    type V = Tally;

    closed spec fn view(&self) -> Tally {
        Tally {
            directories_matched: self.directories_matched as nat,
            files_matched: self.files_matched as nat,
            objects_scanned: self.objects_scanned as nat,
            directories_pushed: self.directories_pushed as nat,
        }
    }
}

impl SearchResults {
    /// The invariant of the counters: matches never exceed what was scanned.
    pub open spec fn wf(&self) -> bool {
        self@.consistent()
    }

    /// Whatever the counters hold fits a `u64`.
    pub proof fn view_fits(&self)
        ensures
            self@.fits(),
    {
    }

    /// Fresh counters, all zero.
    pub fn new() -> (r: SearchResults)
        ensures
            r@ == Tally::zero(),
            r.wf(),
    {
        SearchResults {
            directories_matched: 0,
            files_matched: 0,
            objects_scanned: 0,
            directories_pushed: 0,
        }
    }

    /// Counters with the given values, if the matches do not exceed the scanned count.
    pub fn from_counts(
        directories_matched: u64,
        files_matched: u64,
        objects_scanned: u64,
        directories_pushed: u64,
    ) -> (r: Option<SearchResults>)
        ensures
            directories_matched + files_matched <= objects_scanned <==> r is Some,
            r matches Some(c) ==> c.wf() && c@ == (Tally {
                directories_matched: directories_matched as nat,
                files_matched: files_matched as nat,
                objects_scanned: objects_scanned as nat,
                directories_pushed: directories_pushed as nat,
            }),
    {
        if directories_matched <= objects_scanned && files_matched <= objects_scanned
            - directories_matched {
            Some(
                SearchResults {
                    directories_matched,
                    files_matched,
                    objects_scanned,
                    directories_pushed,
                },
            )
        } else {
            None
        }
    }

    /// Whether the sum of the two fits the counters.
    pub fn can_merge(&self, other: &SearchResults) -> (ok: bool)
        ensures
            ok == self@.plus(other@).fits(),
    {
        self.directories_matched <= u64::MAX - other.directories_matched && self.files_matched
            <= u64::MAX - other.files_matched && self.objects_scanned <= u64::MAX
            - other.objects_scanned && self.directories_pushed <= u64::MAX
            - other.directories_pushed
    }

    /// The sum of two sets of counters, as the counts of two expansions add up.
    pub fn merge(&self, other: &SearchResults) -> (sum: SearchResults)
        requires
            self.wf(),
            other.wf(),
            self@.plus(other@).fits(),
        ensures
            sum@ == self@.plus(other@),
            sum.wf(),
    {
        SearchResults {
            directories_matched: self.directories_matched + other.directories_matched,
            files_matched: self.files_matched + other.files_matched,
            objects_scanned: self.objects_scanned + other.objects_scanned,
            directories_pushed: self.directories_pushed + other.directories_pushed,
        }
    }

    /// Directories whose name matched.
    pub fn directories_matched(&self) -> (n: u64)
        ensures
            n == self@.directories_matched,
    {
        self.directories_matched
    }

    /// Other entries whose name matched.
    pub fn files_matched(&self) -> (n: u64)
        ensures
            n == self@.files_matched,
    {
        self.files_matched
    }

    /// Entries whose name was tested.
    pub fn objects_scanned(&self) -> (n: u64)
        ensures
            n == self@.objects_scanned,
    {
        self.objects_scanned
    }

    /// Directories ever put on the queue.
    pub fn directories_pushed(&self) -> (n: u64)
        ensures
            n == self@.directories_pushed,
    {
        self.directories_pushed
    }
}

} // verus!
