//! The taskbar: the name and bounds of each of its entries.

use vstd::prelude::*;

use crate::element_info::IRect;

verus! {

/// An entry of the taskbar.
#[derive(Debug)]
pub struct TaskbarEntry {
    pub name: String,
    pub bounds: IRect,
}

/// The taskbar's entries, in order.
#[derive(Debug)]
pub struct Taskbar {
    pub entries: Vec<TaskbarEntry>,
}

impl TaskbarEntry {
    /// The entry with the name and bounds that were read (`None` where reading failed):
    /// an empty name and an all-zero rectangle stand for what could not be read.
    pub fn new(name: Option<String>, bounds: Option<IRect>) -> (r: TaskbarEntry)
        ensures
            name matches Some(n) ==> r.name == n,
            name is None ==> r.name@ == Seq::<char>::empty(),
            bounds matches Some(b) ==> r.bounds == b,
            bounds is None ==> r.bounds == (IRect { min_x: 0, min_y: 0, max_x: 0, max_y: 0 }),
    {
        let name = match name {
            Some(n) => n,
            None => String::new(),
        };
        let bounds = match bounds {
            Some(b) => b,
            None => IRect { min_x: 0, min_y: 0, max_x: 0, max_y: 0 },
        };
        TaskbarEntry { name, bounds }
    }
}

} // verus!
