//! The cursor positioning tool: when the host's cursor is moved to the pointer.

use vstd::prelude::*;

verus! {

/// Whether the host's cursor is moved to the pointer during an update: only while some
/// positioning tool is active, and only once the pointer or its character has moved.
pub fn snap_needed(active_count: usize, pointer_changed: bool, character_changed: bool) -> (r:
    bool)
    ensures
        r == (active_count > 0 && (pointer_changed || character_changed)),
{
    if active_count == 0 {
        return false;
    }
    pointer_changed || character_changed
}

/// Whether more positioning tools are active than should be (at most one should be).
pub fn too_many_active(active_count: usize) -> (r: bool)
    ensures
        r == (active_count > 1),
{
    active_count > 1
}

} // verus!
