use vstd::prelude::*;

verus! {

/// The eight logical buttons of the handheld, one per digital input line.
#[derive(Clone, Copy, PartialEq, Eq, Structural, Debug)]
pub enum Button {
    W,
    A,
    S,
    D,
    I,
    J,
    K,
    L,
}

impl Button {
    /// The bit that stands for this button inside a `Buttons` mask.
    pub open spec fn spec_mask(self) -> u8 {
        match self {
            Button::W => 1u8,
            Button::A => 2u8,
            Button::S => 4u8,
            Button::D => 8u8,
            Button::I => 16u8,
            Button::J => 32u8,
            Button::K => 64u8,
            Button::L => 128u8,
        }
    }

    /// The bit that stands for this button inside a `Buttons` mask.
    pub fn mask(self) -> (r: u8)
        ensures
            r == self.spec_mask(),
    {
        match self {
            Button::W => 1u8,
            Button::A => 2u8,
            Button::S => 4u8,
            Button::D => 8u8,
            Button::I => 16u8,
            Button::J => 32u8,
            Button::K => 64u8,
            Button::L => 128u8,
        }
    }
}

/// A per-frame immutable set of currently-pressed buttons, one independent
/// bit per button. It is rebuilt from scratch every frame from that frame's
/// line levels alone, never accumulated.
#[derive(Clone, Copy, PartialEq, Eq, Structural, Debug)]
pub struct Buttons {
    bits: u8,
}

impl View for Buttons {
    type V = u8;

    closed spec fn view(&self) -> u8 {
        self.bits
    }
}

impl Buttons {
    /// Whether this set holds the given button.
    pub open spec fn spec_contains(self, b: Button) -> bool {
        self@ & b.spec_mask() != 0
    }

    /// The set that holds no button.
    pub fn empty() -> (r: Buttons)
        ensures
            r@ == 0u8,
    {
        Buttons { bits: 0 }
    }

    /// The set with exactly the given mask of buttons.
    pub fn from_bits(bits: u8) -> (r: Buttons)
        ensures
            r@ == bits,
    {
        Buttons { bits }
    }

    /// Whether this set holds the given button.
    pub fn contains(self, b: Button) -> (r: bool)
        ensures
            r == self.spec_contains(b),
    {
        self.bits & b.mask() != 0
    }

    /// The union of the two sets: every button held in either.
    pub fn union(self, other: Buttons) -> (r: Buttons)
        ensures
            r@ == self@ | other@,
    {
        Buttons { bits: self.bits | other.bits }
    }

    /// The intersection of the two sets: the buttons held in both.
    pub fn intersection(self, other: Buttons) -> (r: Buttons)
        ensures
            r@ == self@ & other@,
    {
        Buttons { bits: self.bits & other.bits }
    }

    /// This set with one more button held.
    pub fn insert(self, b: Button) -> (r: Buttons)
        ensures
            r@ == self@ | b.spec_mask(),
    {
        Buttons { bits: self.bits | b.mask() }
    }

    /// Whether no button is held.
    pub fn is_empty(self) -> (r: bool)
        ensures
            r == (self@ == 0u8),
    {
        self.bits == 0
    }
}

} // verus!
