//! File system entries as the walk sees them: a path, a base name and a kind.

use vstd::prelude::*;

verus! {

/// What sort of object an entry is, as a stat that does not follow links reports it.
#[derive(Clone, Copy, Debug, PartialEq, Eq, Structural)]
pub enum Kind {
    Directory,
    RegularFile,
    Symlink,
    BlockDevice,
    CharDevice,
    Fifo,
    Socket,
    Other,
}

impl Kind {
    /// Links, device nodes, FIFOs and sockets: never expanded, never reported.
    pub open spec fn is_special(self) -> bool {
        self is Symlink || self is BlockDevice || self is CharDevice || self is Fifo
            || self is Socket
    }

    /// The kind that a set of file type answers stands for. A link wins over
    /// everything else, so that a link to a directory is never taken for one.
    pub open spec fn of_file_type(
        is_dir: bool,
        is_file: bool,
        is_symlink: bool,
        is_block_device: bool,
        is_char_device: bool,
        is_fifo: bool,
        is_socket: bool,
    ) -> Kind {
        if is_symlink {
            Kind::Symlink
        } else if is_dir {
            Kind::Directory
        } else if is_file {
            Kind::RegularFile
        } else if is_block_device {
            Kind::BlockDevice
        } else if is_char_device {
            Kind::CharDevice
        } else if is_fifo {
            Kind::Fifo
        } else if is_socket {
            Kind::Socket
        } else {
            Kind::Other
        }
    }

    /// Classifies an object from the answers of its file type.
    pub fn classify(
        is_dir: bool,
        is_file: bool,
        is_symlink: bool,
        is_block_device: bool,
        is_char_device: bool,
        is_fifo: bool,
        is_socket: bool,
    ) -> (kind: Kind)
        ensures
            kind == Kind::of_file_type(
                is_dir,
                is_file,
                is_symlink,
                is_block_device,
                is_char_device,
                is_fifo,
                is_socket,
            ),
    {
        if is_symlink {
            Kind::Symlink
        } else if is_dir {
            Kind::Directory
        } else if is_file {
            Kind::RegularFile
        } else if is_block_device {
            Kind::BlockDevice
        } else if is_char_device {
            Kind::CharDevice
        } else if is_fifo {
            Kind::Fifo
        } else if is_socket {
            Kind::Socket
        } else {
            Kind::Other
        }
    }

    /// Whether this is the kind of a directory.
    pub fn is_directory(self) -> (b: bool)
        ensures
            b == (self is Directory),
    {
        match self {
            Kind::Directory => true,
            _ => false,
        }
    }
}

/// One object found in a directory.
#[derive(Debug)]
pub struct Entry {
    /// The path under which the object was found, as it is shown.
    pub path: String,
    /// The last component of the path: the name that is matched.
    pub name: String,
    /// What the object is.
    pub kind: Kind,
}

/// An entry as plain values.
pub struct EntryView {
    pub path: Seq<char>,
    pub name: Seq<char>,
    pub kind: Kind,
}

impl View for Entry {
    type V = EntryView;

    open spec fn view(&self) -> EntryView {
        EntryView { path: self.path@, name: self.name@, kind: self.kind }
    }
}

impl Clone for Entry {
    fn clone(&self) -> (copy: Entry)
        ensures
            copy@ == self@,
    {
        Entry { path: self.path.clone(), name: self.name.clone(), kind: self.kind }
    }
}

impl Entry {
    /// An entry with the given path, base name and kind.
    pub fn new(path: &str, name: &str, kind: Kind) -> (entry: Entry)
        ensures
            entry@ == (EntryView { path: path@, name: name@, kind }),
    {
        Entry { path: path.to_owned(), name: name.to_owned(), kind }
    }
}

/// The views of a listing's entries, in the listing's order.
pub open spec fn views(listing: Seq<Entry>) -> Seq<EntryView> {
    Seq::new(listing.len(), |i: int| listing[i]@)
}

} // verus!
