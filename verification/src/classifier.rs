//! Which objects the walk passes over.

use crate::entry::Kind;
use crate::request::TraversalRequest;
use crate::text::{is_dotted, same_text, starts_with_dot};
use vstd::prelude::*;

verus! {

/// The characters of a name that may be absent.
pub open spec fn name_view(name: Option<&str>) -> Option<Seq<char>> {
    match name {
        Some(n) => Some(n@),
        None => None,
    }
}

/// The rule for passing over an object. `stat` is what a stat that does not follow
/// links found, `None` where it failed; `name` is the base name, `None` for an
/// object that is visited whatever it is called, as the root of the walk is.
///
/// An object is passed over when its metadata cannot be had, when it is a link, a
/// device, a FIFO or a socket, when a directory is required and it is none, when
/// its name is reserved, or when its name begins with a dot and hidden names are
/// not included.
pub open spec fn ignored(
    stat: Option<Kind>,
    name: Option<Seq<char>>,
    directory_required: bool,
    include_hidden: bool,
    reserved: Seq<Seq<char>>,
) -> bool {
    match stat {
        None => true,
        Some(kind) => {
            ||| kind.is_special()
            ||| directory_required && !(kind is Directory)
            ||| name matches Some(n) && reserved.contains(n)
            ||| name matches Some(n) && !include_hidden && is_dotted(n)
        },
    }
}

/// Whether a name is among the reserved ones.
pub fn is_reserved(name: &str, reserved: &Vec<String>) -> (found: bool)
    ensures
        found == reserved.deep_view().contains(name@),
{
    let mut i: usize = 0;
    while i < reserved.len()
        invariant
            i <= reserved.len(),
            forall|k: int| 0 <= k < i ==> reserved.deep_view()[k] != name@,
        decreases reserved.len() - i,
    {
        if same_text(reserved[i].as_str(), name) {
            assert(reserved.deep_view()[i as int] == name@);
            return true;
        }
        i += 1;
    }
    false
}

/// Decides whether an object is passed over. The answer depends on the object's
/// own metadata and name and on the request's flags and reserved names, on nothing
/// else.
pub fn ignore(
    stat: Option<Kind>,
    name: Option<&str>,
    directory_required: bool,
    request: &TraversalRequest,
) -> (skip: bool)
    ensures
        skip == ignored(
            stat,
            name_view(name),
            directory_required,
            request@.include_hidden,
            request@.reserved,
        ),
{
    let kind = match stat {
        None => {
            return true;
        },
        Some(kind) => kind,
    };
    match kind {
        Kind::Symlink | Kind::BlockDevice | Kind::CharDevice | Kind::Fifo | Kind::Socket => {
            return true;
        },
        _ => {},
    }
    if directory_required && !kind.is_directory() {
        return true;
    }
    match name {
        None => false,
        Some(n) => {
            if is_reserved(n, request.reserved()) {
                true
            } else if request.include_hidden() {
                false
            } else {
                starts_with_dot(n)
            }
        },
    }
}

} // verus!
