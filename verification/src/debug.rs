use vstd::prelude::*;

verus! {

/// Whether collider outlines (and axes) are drawn.
#[derive(Clone, Copy, Debug, PartialEq, Eq, Structural)]
pub struct DebugColliders(pub bool);

/// The H key switches the collider outlines on and off.
pub fn toggle_debug_colliders(debug: &mut DebugColliders, h_just_pressed: bool)
    ensures
        final(debug).0 == (if h_just_pressed { !old(debug).0 } else { old(debug).0 }),
{
    if h_just_pressed {
        debug.0 = !debug.0;
    }
}

} // verus!
