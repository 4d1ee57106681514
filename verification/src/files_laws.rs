//! What paths and metadata come to, said of their fields.
use crate::files::{anchored_at, build_path, Anchor, DirEntry, FileMeta, Location};
use vstd::prelude::*;

verus! {

// ---------------------------------------------------------------------------
// Laws
// ---------------------------------------------------------------------------

/// A joined name comes last, after the names that were there, and the anchor
/// stays; an anchor by itself has no names.
pub proof fn joined_name_comes_last<P>(
    a: Location<P>,
    b: &str,
    r: Location<P>,
    anchor: Anchor<P>,
    bare: Location<P>,
)
    requires
        call_ensures(build_path::<P>, (a, b), r),
        call_ensures(anchored_at::<P>, (anchor,), bare),
    ensures
        r.anchor == a.anchor,
        r.tail@.len() == a.tail@.len() + 1,
        forall|i: int| 0 <= i < a.tail@.len() ==> (#[trigger] r.tail@[i])@ == a.tail@[i]@,
        r.tail@[a.tail@.len() as int]@ == b@,
        bare.anchor == anchor,
        bare.tail@.len() == 0,
{
    assert(r@.tail.len() == r.tail@.len());
    assert(a@.tail.len() == a.tail@.len());
    assert(bare@.tail.len() == bare.tail@.len());
    assert forall|i: int| 0 <= i < a.tail@.len() implies (#[trigger] r.tail@[i])@
        == a.tail@[i]@ by {
        assert(r@.tail[i] == a@.tail[i]);
    }
    assert(r@.tail[a.tail@.len() as int] == b@);
}

/// A file was modified when the platform says, and at the epoch where it does
/// not.
pub proof fn file_is_as_old_as_reported(meta: FileMeta)
    ensures
        meta.modified matches Some(t) ==> meta.modified_at() == t,
        meta.modified is None ==> meta.modified_at() == 0,
{
}

/// The model of an entry or of a path holds what it holds, each under its own
/// name.
pub proof fn models_hold_what_is_there<P>(entry: DirEntry<P>, path: Location<P>)
    ensures
        entry@.kind == entry.kind,
        entry@.name == entry.name@,
        entry@.path == entry.path,
        entry@.path_text == entry.path_text@,
        path@.anchor == path.anchor,
        path@.tail.len() == path.tail@.len(),
        forall|i: int| 0 <= i < path.tail@.len() ==> #[trigger] path@.tail[i] == path.tail@[i]@,
{
}

} // verus!
