//! The window record and the window-listing operation.

use vstd::prelude::*;

verus! {

/// A top-level window on screen: its position, its size and its title.
///
/// The record is purely descriptive: it carries no identity and no
/// invariant beyond its fields, is built only to answer a query, and
/// is never mutated afterwards.
pub struct WindowRect {
    pub x: i32,
    pub y: i32,
    pub width: i32,
    pub height: i32,
    pub title: String,
}

/// List the open top-level windows.
///
/// Window detection is platform-specific and deliberately not
/// implemented: whatever windows the operating system has open, the
/// answer is the empty sequence. The signature records the interface
/// a platform back end would fill in; the contract records the stub.
pub fn get_open_windows() -> (r: Vec<WindowRect>)
    ensures
        r@ == Seq::<WindowRect>::empty(),
{
    Vec::new()
}

} // verus!
