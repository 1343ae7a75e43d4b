//! Combinations of keyboard modifiers.

use vstd::prelude::*;

verus! {

/// A combination of modifiers, one bit each.
#[derive(Clone, Copy, Debug, PartialEq, Eq, Structural)]
pub struct ModifierCombination {
    pub bits: u8,
}

impl ModifierCombination {
    /// Bit of the left control key.
    pub const LCTRL: u8 = 0x01;
    /// Bit of the left shift key.
    pub const LSHIFT: u8 = 0x02;
    /// Bit of the left alt key.
    pub const LALT: u8 = 0x04;
    /// Bit of the left GUI key.
    pub const LGUI: u8 = 0x08;
    /// Bit of the right control key.
    pub const RCTRL: u8 = 0x10;
    /// Bit of the right shift key.
    pub const RSHIFT: u8 = 0x20;
    /// Bit of the right alt key.
    pub const RALT: u8 = 0x40;
    /// Bit of the right GUI key.
    pub const RGUI: u8 = 0x80;

    /// What `|` means in contracts: the modifiers of either combination.
    pub open spec fn spec_bitor(self, rhs: ModifierCombination) -> ModifierCombination {
        ModifierCombination { bits: self.bits | rhs.bits }
    }

    /// What `&` means in contracts: the modifiers that both combinations hold.
    pub open spec fn spec_bitand(self, rhs: ModifierCombination) -> ModifierCombination {
        ModifierCombination { bits: self.bits & rhs.bits }
    }

    /// The modifiers that the combination does not hold.
    pub open spec fn others(self) -> ModifierCombination {
        ModifierCombination { bits: !self.bits }
    }

    /// Whether the combination holds the modifier of one bit position.
    pub open spec fn holds(self, position: u8) -> bool {
        self.bits & (1u8 << position) != 0
    }

    /// The modifiers that the combination does not hold.
    pub fn complement(self) -> (others: ModifierCombination)
        ensures
            others == self.others(),
    {
        ModifierCombination { bits: !self.bits }
    }

    /// No modifier at all.
    pub open spec fn none() -> ModifierCombination {
        ModifierCombination { bits: 0 }
    }

    /// No modifier at all.
    pub fn new() -> (empty: ModifierCombination)
        ensures
            empty == ModifierCombination::none(),
    {
        ModifierCombination { bits: 0 }
    }

    /// The combination with the given bits.
    pub fn from_bits(bits: u8) -> (combination: ModifierCombination)
        ensures
            combination.bits == bits,
    {
        ModifierCombination { bits }
    }

    /// The bits of the combination.
    pub fn into_bits(self) -> (bits: u8)
        ensures
            bits == self.bits,
    {
        self.bits
    }
}

impl std::ops::BitOr<ModifierCombination> for ModifierCombination {
    type Output = ModifierCombination;

    fn bitor(self, rhs: ModifierCombination) -> (either: ModifierCombination) {
        ModifierCombination { bits: self.bits | rhs.bits }
    }
}

impl vstd::std_specs::ops::BitOrSpecImpl<ModifierCombination> for ModifierCombination {
    open spec fn obeys_bitor_spec() -> bool {
        true
    }

    open spec fn bitor_req(self, rhs: ModifierCombination) -> bool {
        true
    }

    open spec fn bitor_spec(self, rhs: ModifierCombination) -> ModifierCombination {
        self | rhs
    }
}

impl std::ops::BitAnd<ModifierCombination> for ModifierCombination {
    type Output = ModifierCombination;

    fn bitand(self, rhs: ModifierCombination) -> (both: ModifierCombination) {
        ModifierCombination { bits: self.bits & rhs.bits }
    }
}

impl vstd::std_specs::ops::BitAndSpecImpl<ModifierCombination> for ModifierCombination {
    open spec fn obeys_bitand_spec() -> bool {
        true
    }

    open spec fn bitand_req(self, rhs: ModifierCombination) -> bool {
        true
    }

    open spec fn bitand_spec(self, rhs: ModifierCombination) -> ModifierCombination {
        self & rhs
    }
}

/// `|` is associative, and no modifier is its neutral element on both sides.
pub proof fn lemma_union(a: ModifierCombination, b: ModifierCombination, c: ModifierCombination)
    ensures
        (a | b) | c == a | (b | c),
        a | b == b | a,
        a | a == a,
        ModifierCombination::none() | a == a,
        a | ModifierCombination::none() == a,
{
    let (x, y, z) = (a.bits, b.bits, c.bits);
    assert((x | y) | z == x | (y | z)) by (bit_vector);
    assert(x | y == y | x) by (bit_vector);
    assert(x | x == x) by (bit_vector);
    assert(0u8 | x == x) by (bit_vector);
    assert(x | 0u8 == x) by (bit_vector);
}

/// A modifier is held by `a | b` exactly where it is held by `a` or by `b`, and no modifier is held
/// by the empty combination.
pub proof fn lemma_holds(a: ModifierCombination, b: ModifierCombination, position: u8)
    requires
        position < 8,
    ensures
        (a | b).holds(position) == (a.holds(position) || b.holds(position)),
        !ModifierCombination::none().holds(position),
{
    let (x, y) = (a.bits, b.bits);
    assert((x | y) & (1u8 << position) != 0 <==> (x & (1u8 << position) != 0 || y & (1u8 << position) != 0))
        by (bit_vector);
    assert(0u8 & (1u8 << position) == 0) by (bit_vector);
}

} // verus!
