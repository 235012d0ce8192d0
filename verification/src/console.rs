//! The terminal control sequence the rendering collaborator emits before
//! drawing a fresh frame.

use vstd::prelude::*;

verus! {

/// The control sequence that clears the screen and moves the cursor to
/// position (1,1).
pub open spec fn clear_screen_text() -> Seq<char> {
    "\x1b[2J\x1b[1;1H"@
}

/// Clear the screen and move the cursor to position (1,1).
pub fn clear_screen() -> (r: String)
    ensures
        r@ == clear_screen_text(),
{
    String::from_str("\x1b[2J\x1b[1;1H")
}

} // verus!
