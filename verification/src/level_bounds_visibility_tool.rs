//! The level bounds visibility tool: showing and hiding the play area.

use vstd::prelude::*;

verus! {

/// Whether something is drawn.
#[derive(Clone, Copy, Debug, PartialEq, Eq, Structural)]
pub enum Visibility {
    Visible,
    Hidden,
    Inherited,
}

/// The visibility after switching `v`: shown things are hidden, and hidden or inherited
/// ones are shown.
pub open spec fn switched(v: Visibility) -> Visibility {
    match v {
        Visibility::Visible => Visibility::Hidden,
        Visibility::Hidden => Visibility::Visible,
        Visibility::Inherited => Visibility::Visible,
    }
}

/// The visibility after switching `v` (see `switched`).
pub fn switch_visibility(v: Visibility) -> (r: Visibility)
    ensures
        r == switched(v),
{
    match v {
        Visibility::Visible => Visibility::Hidden,
        Visibility::Hidden => Visibility::Visible,
        Visibility::Inherited => Visibility::Visible,
    }
}

/// Law: switching never leaves the visibility inherited, and switching twice gives back
/// any visibility that is not inherited.
pub proof fn lemma_switch_twice(v: Visibility)
    ensures
        switched(v) != Visibility::Inherited,
        v != Visibility::Inherited ==> switched(switched(v)) == v,
        switched(v) != v,
{
}

} // verus!
