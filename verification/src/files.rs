//! Plain values for what the search reads of a file system.
//!
//! `P` stands for the platform's own paths. The search carries such a path
//! through and hands it back; it never looks inside.
use vstd::prelude::*;

verus! {

/// Where a path starts.
pub enum Anchor<P> {
    /// The user's directory for data of this machine.
    Local,
    /// The user's directory for data that roams between machines.
    Roaming,
    /// An entry that a listing named.
    Found(P),
}

/// A path: its anchor, and the names joined to it one after the other.
pub struct Location<P> {
    pub anchor: Anchor<P>,
    pub tail: Vec<String>,
}

/// The model of a `Location`.
#[verifier::ext_equal]
pub struct LocationView<P> {
    pub anchor: Anchor<P>,
    pub tail: Seq<Seq<char>>,
}

impl<P> View for Location<P> {
    type V = LocationView<P>;

    open spec fn view(&self) -> LocationView<P> {
        LocationView {
            anchor: self.anchor,
            tail: Seq::new(self.tail@.len(), |i: int| self.tail@[i]@),
        }
    }
}

/// What a directory entry is.
#[derive(Clone, Copy, PartialEq, Eq, Structural, Debug)]
pub struct FileKind {
    pub is_dir: bool,
    pub is_symlink: bool,
    pub is_file: bool,
}

/// One entry of a directory listing.
pub struct DirEntry<P> {
    /// What it is, unless that could not be read.
    pub kind: Option<FileKind>,
    /// Its name, as text.
    pub name: String,
    /// Its full path.
    pub path: P,
    /// Its full path, as text.
    pub path_text: String,
}

/// The model of a `DirEntry`.
pub struct EntryView<P> {
    pub kind: Option<FileKind>,
    pub name: Seq<char>,
    pub path: P,
    pub path_text: Seq<char>,
}

impl<P> View for DirEntry<P> {
    type V = EntryView<P>;

    open spec fn view(&self) -> EntryView<P> {
        EntryView {
            kind: self.kind,
            name: self.name@,
            path: self.path,
            path_text: self.path_text@,
        }
    }
}

/// The models of the entries of a listing, in its order.
pub open spec fn entry_views<P>(entries: Seq<DirEntry<P>>) -> Seq<EntryView<P>> {
    Seq::new(entries.len(), |i: int| entries[i]@)
}

/// The metadata of a path.
#[derive(Clone, Copy, PartialEq, Eq, Structural, Debug)]
pub struct FileMeta {
    pub is_file: bool,
    /// When the file was last modified, in nanoseconds since the Unix epoch,
    /// unless the platform does not say.
    pub modified: Option<i128>,
}

impl FileMeta {
    /// The time of modification; the epoch where the platform does not say.
    pub open spec fn modified_at(self) -> int {
        match self.modified {
            Some(t) => t as int,
            None => 0,
        }
    }
}

/// The path that the anchor itself is.
pub open spec fn anchored<P>(anchor: Anchor<P>) -> LocationView<P> {
    LocationView { anchor, tail: Seq::empty() }
}

/// `a` with the name `b` joined to it.
pub open spec fn joined<P>(a: LocationView<P>, b: Seq<char>) -> LocationView<P> {
    LocationView { anchor: a.anchor, tail: a.tail.push(b) }
}

/// The path that the anchor itself is.
pub fn anchored_at<P>(anchor: Anchor<P>) -> (r: Location<P>)
    ensures
        r@ == anchored(anchor),
{
    let r = Location { anchor, tail: Vec::new() };
    assert(r@.tail =~= Seq::empty());
    r
}

/// `a` with the name `b` joined to it.
pub fn build_path<P>(a: Location<P>, b: &str) -> (r: Location<P>)
    ensures
        r@ == joined(a@, b@),
{
    let ghost before = a@;
    let Location { anchor, mut tail } = a;
    tail.push(b.to_owned());
    let r = Location { anchor, tail };
    assert(r@.tail =~= before.tail.push(b@));
    r
}

} // verus!
