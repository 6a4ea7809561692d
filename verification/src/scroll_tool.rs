//! The scroll tool: which way its held buttons scroll.

use vstd::prelude::*;

verus! {

/// A direction of scrolling.
#[derive(Clone, Copy, Debug, PartialEq, Eq, Structural)]
pub enum ScrollDirection {
    Up,
    Down,
}

/// Which way to scroll while the up and down buttons are held as given: down wins when
/// both are held.
pub fn scroll_direction(up_pressed: bool, down_pressed: bool) -> (r: Option<ScrollDirection>)
    ensures
        down_pressed ==> r == Some(ScrollDirection::Down),
        !down_pressed && up_pressed ==> r == Some(ScrollDirection::Up),
        !down_pressed && !up_pressed ==> r is None,
{
    let mut r = None;
    if up_pressed {
        r = Some(ScrollDirection::Up);
    }
    if down_pressed {
        r = Some(ScrollDirection::Down);
    }
    r
}

} // verus!
