use vstd::prelude::*;

use crate::buttons::{Button, Buttons};
use crate::caps::InputLines;

verus! {

/// The levels of the eight digital input lines, sampled once for one frame.
/// `true` means the line reads high; the hardware is active-low, so a held
/// button reads `false`.
#[derive(Clone, Copy, PartialEq, Eq, Structural, Debug)]
pub struct LineLevels {
    pub w: bool,
    pub a: bool,
    pub s: bool,
    pub d: bool,
    pub i: bool,
    pub j: bool,
    pub k: bool,
    pub l: bool,
}

/// The level that one frame's sample holds for the given button's line.
pub open spec fn spec_level(levels: LineLevels, b: Button) -> bool {
    match b {
        Button::W => levels.w,
        Button::A => levels.a,
        Button::S => levels.s,
        Button::D => levels.d,
        Button::I => levels.i,
        Button::J => levels.j,
        Button::K => levels.k,
        Button::L => levels.l,
    }
}

/// The snapshot mask a frame's line levels give: one bit per button, set
/// exactly when that button's line reads low.
pub open spec fn spec_snapshot_bits(levels: LineLevels) -> u8 {
    (if !levels.w {
        1u8
    } else {
        0u8
    }) | (if !levels.a {
        2u8
    } else {
        0u8
    }) | (if !levels.s {
        4u8
    } else {
        0u8
    }) | (if !levels.d {
        8u8
    } else {
        0u8
    }) | (if !levels.i {
        16u8
    } else {
        0u8
    }) | (if !levels.j {
        32u8
    } else {
        0u8
    }) | (if !levels.k {
        64u8
    } else {
        0u8
    }) | (if !levels.l {
        128u8
    } else {
        0u8
    })
}

/// Build the Input Snapshot for one frame. The result is a pure function of
/// the levels sampled during that frame alone: a button is in the set exactly
/// when its line read low at the sampling instant. No debouncing, no edge
/// detection, no memory of earlier frames.
pub fn snapshot_from_levels(levels: LineLevels) -> (r: Buttons)
    ensures
        r@ == spec_snapshot_bits(levels),
        forall|b: Button| r.spec_contains(b) <==> !spec_level(levels, b),
{
    let b0: u8 = if !levels.w { 1 } else { 0 };
    let b1: u8 = if !levels.a { 2 } else { 0 };
    let b2: u8 = if !levels.s { 4 } else { 0 };
    let b3: u8 = if !levels.d { 8 } else { 0 };
    let b4: u8 = if !levels.i { 16 } else { 0 };
    let b5: u8 = if !levels.j { 32 } else { 0 };
    let b6: u8 = if !levels.k { 64 } else { 0 };
    let b7: u8 = if !levels.l { 128 } else { 0 };
    let bits: u8 = b0 | b1 | b2 | b3 | b4 | b5 | b6 | b7;
    let r = Buttons::from_bits(bits);
    proof {
        let m = bits;
        assert((m & 1 != 0) == (b0 == 1) && (m & 2 != 0) == (b1 == 2) && (m & 4 != 0) == (b2 == 4)
            && (m & 8 != 0) == (b3 == 8) && (m & 16 != 0) == (b4 == 16) && (m & 32 != 0) == (b5
            == 32) && (m & 64 != 0) == (b6 == 64) && (m & 128 != 0) == (b7 == 128))
            by (bit_vector)
            requires
                m == b0 | b1 | b2 | b3 | b4 | b5 | b6 | b7,
                b0 == 0 || b0 == 1,
                b1 == 0 || b1 == 2,
                b2 == 0 || b2 == 4,
                b3 == 0 || b3 == 8,
                b4 == 0 || b4 == 16,
                b5 == 0 || b5 == 32,
                b6 == 0 || b6 == 64,
                b7 == 0 || b7 == 128,
        ;
        assert forall|b: Button| r.spec_contains(b) <==> !spec_level(levels, b) by {
            match b {
                Button::W => assert(r.spec_contains(b) <==> !levels.w),
                Button::A => assert(r.spec_contains(b) <==> !levels.a),
                Button::S => assert(r.spec_contains(b) <==> !levels.s),
                Button::D => assert(r.spec_contains(b) <==> !levels.d),
                Button::I => assert(r.spec_contains(b) <==> !levels.i),
                Button::J => assert(r.spec_contains(b) <==> !levels.j),
                Button::K => assert(r.spec_contains(b) <==> !levels.k),
                Button::L => assert(r.spec_contains(b) <==> !levels.l),
            }
        }
    }
    r
}

/// A frame with no line held at its sampling instant yields the empty set,
/// whatever was pressed and released between frames: the snapshot has no
/// edge memory.
pub proof fn lemma_released_lines_empty_snapshot(levels: LineLevels)
    requires
        forall|b: Button| spec_level(levels, b),
    ensures
        spec_snapshot_bits(levels) == 0u8,
{
    assert(levels.w && levels.a && levels.s && levels.d && levels.i && levels.j && levels.k
        && levels.l) by {
        assert(spec_level(levels, Button::W));
        assert(spec_level(levels, Button::A));
        assert(spec_level(levels, Button::S));
        assert(spec_level(levels, Button::D));
        assert(spec_level(levels, Button::I));
        assert(spec_level(levels, Button::J));
        assert(spec_level(levels, Button::K));
        assert(spec_level(levels, Button::L));
    }
    assert(0u8 | 0u8 | 0u8 | 0u8 | 0u8 | 0u8 | 0u8 | 0u8 == 0u8) by (bit_vector);
}

/// Sample every configured line exactly once, in the fixed order W, A, S, D,
/// I, J, K, L, and build the frame's Input Snapshot from those levels alone.
pub fn sample<Lines: InputLines>(lines: &mut Lines) -> (r: Buttons) {
    let levels = LineLevels {
        w: lines.read_level(Button::W),
        a: lines.read_level(Button::A),
        s: lines.read_level(Button::S),
        d: lines.read_level(Button::D),
        i: lines.read_level(Button::I),
        j: lines.read_level(Button::J),
        k: lines.read_level(Button::K),
        l: lines.read_level(Button::L),
    };
    snapshot_from_levels(levels)
}

} // verus!
