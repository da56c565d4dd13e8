//! The input state of one player: a two-axis joystick and four buttons.

use vstd::prelude::*;

verus! {

/// Bit pattern of the binary32 value `1.0`.
pub const ONE_BITS: u32 = 0x3f80_0000;

/// Sign bit of a binary32 value.
pub const SIGN_BIT: u32 = 0x8000_0000;

/// Every bit of a binary32 value but the sign.
pub const MAGNITUDE_MASK: u32 = 0x7fff_ffff;

/// The absolute value of an axis, as a bit pattern. For finite values and
/// infinities this order agrees with the order of the numbers; every NaN
/// lies above the infinity.
pub open spec fn magnitude(bits: u32) -> u32 {
    bits & MAGNITUDE_MASK
}

/// The axis value lies in `[-1.0, 1.0]` (and is no NaN).
pub open spec fn axis_in_range(bits: u32) -> bool {
    magnitude(bits) <= ONE_BITS
}

/// An axis clamped into `[-1.0, 1.0]`: values inside are kept, values
/// outside go to the bound on their side.
pub open spec fn clamp_axis_spec(bits: u32) -> u32 {
    if axis_in_range(bits) {
        bits
    } else {
        (bits & SIGN_BIT) | ONE_BITS
    }
}

/// A joystick position; `x` and `y` are binary32 bit patterns.
#[derive(Clone, Copy, Debug, PartialEq, Eq, Structural)]
pub struct Vector2 {
    pub x: u32,
    pub y: u32,
}

#[derive(Clone, Copy, Debug, PartialEq, Eq, Structural)]
pub struct Buttons {
    pub a: bool,
    pub b: bool,
    pub x: bool,
    pub y: bool,
}

#[derive(Clone, Copy, Debug, PartialEq, Eq, Structural)]
pub struct GameState {
    pub joystick: Vector2,
    pub buttons: Buttons,
}

/// The state a newly registered player starts from: joystick centred,
/// no button pressed.
pub open spec fn default_state() -> GameState {
    GameState {
        joystick: Vector2 { x: 0, y: 0 },
        buttons: Buttons { a: false, b: false, x: false, y: false },
    }
}

/// Both axes of the joystick lie in `[-1.0, 1.0]`.
pub open spec fn in_range(s: GameState) -> bool {
    axis_in_range(s.joystick.x) && axis_in_range(s.joystick.y)
}

/// The state with both axes clamped; the buttons are kept.
pub open spec fn clamped(s: GameState) -> GameState {
    GameState {
        joystick: Vector2 {
            x: clamp_axis_spec(s.joystick.x),
            y: clamp_axis_spec(s.joystick.y),
        },
        buttons: s.buttons,
    }
}

/// Clamping yields a state in range, and leaves one in range as it was.
pub proof fn lemma_clamped_in_range(s: GameState)
    ensures
        in_range(clamped(s)),
        in_range(s) ==> clamped(s) == s,
{
    let x = s.joystick.x;
    let y = s.joystick.y;
    assert(((x & SIGN_BIT) | ONE_BITS) & MAGNITUDE_MASK <= ONE_BITS) by (bit_vector)
        requires SIGN_BIT == 0x8000_0000u32, ONE_BITS == 0x3f80_0000u32,
            MAGNITUDE_MASK == 0x7fff_ffffu32;
    assert(((y & SIGN_BIT) | ONE_BITS) & MAGNITUDE_MASK <= ONE_BITS) by (bit_vector)
        requires SIGN_BIT == 0x8000_0000u32, ONE_BITS == 0x3f80_0000u32,
            MAGNITUDE_MASK == 0x7fff_ffffu32;
}

/// Clamps one axis into `[-1.0, 1.0]`.
pub fn clamp_axis(bits: u32) -> (r: u32)
    ensures
        r == clamp_axis_spec(bits),
        axis_in_range(r),
{
    proof {
        assert(((bits & SIGN_BIT) | ONE_BITS) & MAGNITUDE_MASK <= ONE_BITS) by (bit_vector)
            requires SIGN_BIT == 0x8000_0000u32, ONE_BITS == 0x3f80_0000u32,
                MAGNITUDE_MASK == 0x7fff_ffffu32;
    }
    if bits & MAGNITUDE_MASK <= ONE_BITS {
        bits
    } else {
        (bits & SIGN_BIT) | ONE_BITS
    }
}

impl GameState {
    /// Create a default game state for a new player.
    pub fn new_default() -> (r: GameState)
        ensures
            r == default_state(),
    {
        GameState {
            joystick: Vector2 { x: 0, y: 0 },
            buttons: Buttons { a: false, b: false, x: false, y: false },
        }
    }
}

/// Clamps both joystick axes into `[-1.0, 1.0]`; the buttons are untouched.
pub fn update_joysticks(state: &mut GameState)
    ensures
        *final(state) == clamped(*old(state)),
        in_range(*final(state)),
{
    state.joystick.x = clamp_axis(state.joystick.x);
    state.joystick.y = clamp_axis(state.joystick.y);
}

} // verus!
