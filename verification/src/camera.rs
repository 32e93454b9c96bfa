//! Input decisions of the editor camera: which mode the pressed buttons select
//! and which movements they ask for. The floating-point motion itself is done
//! by the engine side.
use vstd::prelude::*;

verus! {

/// How the editor camera reacts to input.
#[derive(PartialEq, Eq, Structural, Clone, Copy, Debug)]
pub enum CameraMode {
    Orbit,
    Fly,
    Pan,
}

/// Mouse buttons and modifier keys held during a frame.
#[derive(PartialEq, Eq, Structural, Clone, Copy, Debug)]
pub struct CameraButtons {
    pub right: bool,
    pub middle: bool,
    pub left: bool,
    pub alt: bool,
    pub ctrl: bool,
    pub shift: bool,
}

/// Movement keys held during a frame.
#[derive(PartialEq, Eq, Structural, Clone, Copy, Debug)]
pub struct FlyKeys {
    pub w: bool,
    pub s: bool,
    pub a: bool,
    pub d: bool,
    pub e: bool,
    pub space: bool,
    pub q: bool,
}

/// Direction of fly movement along the camera's forward, right and up axes,
/// each -1, 0 or 1.
#[derive(PartialEq, Eq, Structural, Clone, Copy, Debug)]
pub struct MoveAxes {
    pub forward: i8,
    pub right: i8,
    pub up: i8,
}

/// The camera mode that the held buttons select: right button flies, or orbits
/// when Alt is held; middle button pans; otherwise the camera orbits.
pub open spec fn mode_for(b: CameraButtons) -> CameraMode {
    if b.right && !b.alt {
        CameraMode::Fly
    } else if b.right {
        CameraMode::Orbit
    } else if b.middle {
        CameraMode::Pan
    } else {
        CameraMode::Orbit
    }
}

/// The mode and flying flag for this frame, given the previous ones.
pub fn next_camera_mode(current: CameraMode, flying: bool, b: CameraButtons) -> (r: (CameraMode, bool))
    ensures
        r.0 == mode_for(b),
        r.1 == (mode_for(b) == CameraMode::Fly),
{
    if b.right && !b.alt {
        (CameraMode::Fly, true)
    } else if b.right && b.alt {
        (CameraMode::Orbit, false)
    } else if b.middle {
        (CameraMode::Pan, false)
    } else if !b.right && !b.middle {
        (CameraMode::Orbit, false)
    } else {
        (current, flying)
    }
}

/// In orbit mode, whether the mouse turns the camera: right button, or Alt with left button.
pub fn orbit_turns(b: CameraButtons) -> (r: bool)
    ensures
        r == (b.right || (b.alt && b.left)),
{
    b.right || (b.alt && b.left)
}

/// In orbit mode, whether vertical mouse motion zooms: Ctrl with right button.
pub fn orbit_drag_zooms(b: CameraButtons) -> (r: bool)
    ensures
        r == (b.ctrl && b.right),
{
    b.ctrl && b.right
}

/// One axis from a positive and a negative key.
pub open spec fn axis(plus: bool, minus: bool) -> int {
    (if plus { 1int } else { 0int }) - (if minus { 1int } else { 0int })
}

fn axis_value(plus: bool, minus: bool) -> (r: i8)
    ensures
        r == axis(plus, minus),
{
    let mut v: i8 = 0;
    if plus {
        v = v + 1;
    }
    if minus {
        v = v - 1;
    }
    v
}

/// Fly direction from the movement keys: W/S forward and back, D/A right and
/// left, E or Space up, Q down.
pub fn fly_axes(k: FlyKeys) -> (r: MoveAxes)
    ensures
        r.forward == axis(k.w, k.s),
        r.right == axis(k.d, k.a),
        r.up == axis(k.e || k.space, k.q),
{
    MoveAxes {
        forward: axis_value(k.w, k.s),
        right: axis_value(k.d, k.a),
        up: axis_value(k.e || k.space, k.q),
    }
}

/// The camera flies exactly when the right button is held without Alt, and pans
/// exactly when the middle button is held without the right one.
pub proof fn law_fly_and_pan_modes(b: CameraButtons)
    ensures
        mode_for(b) == CameraMode::Fly <==> (b.right && !b.alt),
        mode_for(b) == CameraMode::Pan <==> (!b.right && b.middle),
{
}

/// Opposite keys held together cancel out.
pub proof fn law_opposite_keys_cancel(k: FlyKeys)
    requires
        k.w && k.s,
        k.a && k.d,
    ensures
        axis(k.w, k.s) == 0,
        axis(k.d, k.a) == 0,
{
}

/// An axis moves only while exactly one of its keys is held, and swapping the
/// keys reverses it: holding neither key, or both, leaves it at rest.
pub proof fn law_axis_moves_only_on_one_key(plus: bool, minus: bool)
    ensures
        axis(plus, minus) == -axis(minus, plus),
        axis(plus, minus) != 0 <==> plus != minus,
        plus ==> axis(plus, minus) >= 0,
        minus ==> axis(plus, minus) <= 0,
        -1 <= axis(plus, minus) <= 1,
{
}

/// With no movement key held the fly direction is zero on every axis.
pub proof fn law_no_keys_no_motion(k: FlyKeys)
    requires
        !k.w && !k.s && !k.a && !k.d && !k.e && !k.space && !k.q,
    ensures
        axis(k.w, k.s) == 0,
        axis(k.d, k.a) == 0,
        axis(k.e || k.space, k.q) == 0,
{
}

} // verus!
