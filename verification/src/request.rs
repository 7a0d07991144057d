//! The configuration of one search, fixed before the walk begins.

use crate::pattern::{Matcher, MatcherView};
use vstd::prelude::*;

verus! {

/// The configuration as plain values.
pub struct RequestView {
    /// Where the walk starts.
    pub root: Seq<char>,
    /// How names are tested.
    pub pattern: MatcherView,
    /// Whether names that begin with a dot are visited and reported.
    pub include_hidden: bool,
    /// Whether directories are left out of scanning and matching.
    pub files_only: bool,
    /// Names that are never visited nor reported.
    pub reserved: Seq<Seq<char>>,
}

/// What to search for, where, and under which flags.
pub struct TraversalRequest {
    root: String,
    pattern: Matcher,
    include_hidden: bool,
    files_only: bool,
    reserved: Vec<String>,
}

impl View for TraversalRequest {
    type V = RequestView;

    closed spec fn view(&self) -> RequestView {
        RequestView {
            root: self.root@,
            pattern: self.pattern@,
            include_hidden: self.include_hidden,
            files_only: self.files_only,
            reserved: self.reserved.deep_view(),
        }
    }
}

/// Why a search cannot start.
#[derive(Clone, Copy, Debug, PartialEq, Eq, Structural)]
pub enum PathError {
    /// A root was named and does not exist.
    InvalidPath,
}

/// The root of a search: the current directory where no path was given, else the
/// path, which must exist.
pub open spec fn resolved_root(path: Seq<char>, exists: bool) -> Result<Seq<char>, PathError> {
    if path.len() == 0 {
        Ok(seq!['.'])
    } else if exists {
        Ok(path)
    } else {
        Err(PathError::InvalidPath)
    }
}

/// Settles where the walk starts. `exists` tells whether `path` names something on
/// disk; it is not consulted for an empty path.
pub fn resolve_root(path: &str, exists: bool) -> (r: Result<String, PathError>)
    ensures
        match resolved_root(path@, exists) {
            Ok(root) => r is Ok && r.unwrap()@ == root,
            Err(e) => r == Err::<String, PathError>(e),
        },
{
    if path.is_empty() {
        let root = ".".to_owned();
        proof {
            reveal_strlit(".");
            assert(root@ =~= seq!['.']);
        }
        Ok(root)
    } else if exists {
        Ok(path.to_owned())
    } else {
        Err(PathError::InvalidPath)
    }
}

/// The names that a search passes over by default: the metadata directory of the
/// version control system.
pub fn default_reserved() -> (names: Vec<String>)
    ensures
        names.deep_view() == seq![".git"@],
{
    let mut names: Vec<String> = Vec::new();
    names.push(".git".to_owned());
    assert(names.deep_view() =~= seq![".git"@]);
    names
}

impl TraversalRequest {
    /// A request from its parts.
    pub fn new(
        root: String,
        pattern: Matcher,
        include_hidden: bool,
        files_only: bool,
        reserved: Vec<String>,
    ) -> (request: TraversalRequest)
        ensures
            request@ == (RequestView {
                root: root@,
                pattern: pattern@,
                include_hidden,
                files_only,
                reserved: reserved.deep_view(),
            }),
    {
        TraversalRequest { root, pattern, include_hidden, files_only, reserved }
    }

    /// Where the walk starts.
    pub fn root(&self) -> (root: &str)
        ensures
            root@ == self@.root,
    {
        self.root.as_str()
    }

    /// How names are tested.
    pub fn pattern(&self) -> (pattern: &Matcher)
        ensures
            pattern@ == self@.pattern,
    {
        &self.pattern
    }

    /// Whether names that begin with a dot are visited and reported.
    pub fn include_hidden(&self) -> (flag: bool)
        ensures
            flag == self@.include_hidden,
    {
        self.include_hidden
    }

    /// Whether directories are left out of scanning and matching.
    pub fn files_only(&self) -> (flag: bool)
        ensures
            flag == self@.files_only,
    {
        self.files_only
    }

    /// The names that are never visited nor reported.
    pub fn reserved(&self) -> (names: &Vec<String>)
        ensures
            names.deep_view() == self@.reserved,
    {
        &self.reserved
    }
}

} // verus!
