//! The period codec: 24 half-month slots in a bitmask, and the sun
//! requirement flag set.

use vstd::prelude::*;

use crate::error::StoreError;

verus! {

/// One of the two half-month slots of a calendar month.
#[derive(Clone, Copy, Debug, PartialEq, Eq, Structural)]
pub enum Half {
    Early,
    Late,
}

/// The bit index of the slot for `month` (1..=12) and `half`:
/// `(month - 1) * 2` for the early half, one more for the late half.
pub open spec fn slot_index(month: int, half: Half) -> int {
    (month - 1) * 2 + if half is Late {
        1int
    } else {
        0int
    }
}

/// Whether bit `slot` is set in `bits`.
pub open spec fn slot_set(bits: u32, slot: u32) -> bool
    recommends
        slot < 24,
{
    bits & (1u32 << slot) != 0
}

/// A 24-bit period mask: two half-month slots per calendar month.
/// Bit `2*(month-1)` stands for the first half of `month`,
/// bit `2*(month-1)+1` for the second half, for `month` in 1..=12.
#[derive(Clone, Copy, Debug, PartialEq, Eq, Structural)]
pub struct PeriodMask {
    pub bits: u32,
}

impl PeriodMask {
    /// A mask only uses the 24 slot bits.
    pub open spec fn valid(self) -> bool {
        self.bits < 0x1000000
    }

    /// The mask with no slot set.
    pub fn empty() -> (r: PeriodMask)
        ensures
            r.bits == 0,
            r.valid(),
    {
        PeriodMask { bits: 0 }
    }

    /// The mask with every slot of every month set.
    pub fn full() -> (r: PeriodMask)
        ensures
            r.valid(),
            forall|slot: u32| slot < 24 ==> slot_set(r.bits, slot),
    {
        let r = PeriodMask { bits: 0xFFFFFF };
        proof {
            assert forall|slot: u32| slot < 24 implies slot_set(r.bits, slot) by {
                assert(slot < 24 ==> 0xFFFFFFu32 & (1u32 << slot) != 0) by (bit_vector);
            }
        }
        r
    }

    /// Build a mask from its raw bits.
    pub fn from_bits(bits: u32) -> (r: PeriodMask)
        ensures
            r.bits == bits,
    {
        PeriodMask { bits }
    }

    /// Whether the slot with the given bit index is marked.
    pub fn is_set(&self, slot: u32) -> (r: bool)
        requires
            slot < 24,
        ensures
            r == slot_set(self.bits, slot),
    {
        self.bits & (1u32 << slot) != 0
    }

    /// The mask with the given slot marked in addition to the present ones.
    pub fn with_slot(self, slot: u32) -> (r: PeriodMask)
        requires
            slot < 24,
        ensures
            forall|t: u32|
                t < 24 ==> (slot_set(r.bits, t) <==> (t == slot || slot_set(self.bits, t))),
            self.valid() ==> r.valid(),
    {
        let r = PeriodMask { bits: self.bits | (1u32 << slot) };
        proof {
            assert forall|t: u32| t < 24 implies (slot_set(r.bits, t) <==> (t == slot || slot_set(
                self.bits,
                t,
            ))) by {
                let b = self.bits;
                let s = slot;
                assert(((b | (1u32 << s)) & (1u32 << t) != 0) <==> (t == s || (b & (1u32 << t)
                    != 0))) by (bit_vector)
                    requires
                        s < 24u32 && t < 24u32,
                ;
            }
            let b = self.bits;
            let s = slot;
            assert(b < 0x1000000 && s < 24 ==> (b | (1u32 << s)) < 0x1000000) by (bit_vector);
        }
        r
    }
}

/// The bit index of the given month and half.
/// Returns `DomainError` exactly when `month` lies outside 1..=12.
pub fn month_slot(month: u32, half: Half) -> (r: Result<u32, StoreError>)
    ensures
        match r {
            Ok(slot) => 1 <= month <= 12 && slot == slot_index(month as int, half) && slot < 24,
            Err(e) => e is Domain && !(1 <= month <= 12),
        },
{
    if month < 1 || month > 12 {
        Err(StoreError::Domain)
    } else {
        let base = (month - 1) * 2;
        if matches!(half, Half::Late) {
            Ok(base + 1)
        } else {
            Ok(base)
        }
    }
}

/// Whether the mask marks the given month and half.
/// Returns `DomainError` exactly when `month` lies outside 1..=12.
pub fn is_active(mask: PeriodMask, month: u32, half: Half) -> (r: Result<bool, StoreError>)
    ensures
        match r {
            Ok(b) => 1 <= month <= 12 && b == slot_set(
                mask.bits,
                slot_index(month as int, half) as u32,
            ),
            Err(e) => e is Domain && !(1 <= month <= 12),
        },
{
    let slot = month_slot(month, half)?;
    Ok(mask.is_set(slot))
}

/// The two slots of a month are distinct, adjacent bit indices, and over
/// the twelve months the slot indices cover exactly 0..24, each one once.
pub proof fn lemma_month_slots_partition()
    ensures
        forall|m: int|
            1 <= m <= 12 ==> #[trigger] slot_index(m, Half::Late) == slot_index(m, Half::Early)
                + 1,
        forall|m: int, h: Half| 1 <= m <= 12 ==> 0 <= #[trigger] slot_index(m, h) < 24,
        forall|m1: int, h1: Half, m2: int, h2: Half|
            1 <= m1 <= 12 && 1 <= m2 <= 12 && #[trigger] slot_index(m1, h1)
                == #[trigger] slot_index(m2, h2) ==> m1 == m2 && h1 == h2,
        forall|s: int|
            0 <= s < 24 && s % 2 == 0 ==> #[trigger] slot_index(s / 2 + 1, Half::Early) == s && 1
                <= s / 2 + 1 <= 12,
        forall|s: int|
            0 <= s < 24 && s % 2 == 1 ==> #[trigger] slot_index(s / 2 + 1, Half::Late) == s && 1
                <= s / 2 + 1 <= 12,
{
}

/// The sun-requirement flags; a plant may combine any number of them.
#[derive(Clone, Copy, Debug, PartialEq, Eq, Structural)]
pub enum SunRequirement {
    FullSun,
    PartialShade,
    FullShade,
}

/// The flag bit of one sun requirement: full sun 1, partial shade 2, full shade 4.
pub open spec fn sun_flag_bit(f: SunRequirement) -> u32 {
    match f {
        SunRequirement::FullSun => 1,
        SunRequirement::PartialShade => 2,
        SunRequirement::FullShade => 4,
    }
}

/// The bitwise OR of the flags of a set of sun requirements.
pub open spec fn combined_sun(fs: Seq<SunRequirement>) -> u32
    decreases fs.len(),
{
    if fs.len() == 0 {
        0
    } else {
        combined_sun(fs.drop_last()) | sun_flag_bit(fs.last())
    }
}

/// Combine sun requirements into one flag set: the OR of their bits.
/// Zero, one, or several flags may be given; repeats are harmless.
pub fn combine_sun_requirements(flags: &Vec<SunRequirement>) -> (r: u32)
    ensures
        r == combined_sun(flags@),
        r < 8,
{
    let mut r: u32 = 0;
    let mut i: usize = 0;
    proof {
        lemma_combined_sun_bound(flags@);
    }
    while i < flags.len()
        invariant
            i <= flags.len(),
            r == combined_sun(flags@.subrange(0, i as int)),
            r < 8,
        decreases flags.len() - i,
    {
        let bit: u32 = match flags[i] {
            SunRequirement::FullSun => 1,
            SunRequirement::PartialShade => 2,
            SunRequirement::FullShade => 4,
        };
        proof {
            assert(flags@.subrange(0, i + 1).drop_last() =~= flags@.subrange(0, i as int));
            let a = r;
            let b = bit;
            assert(a < 8 && b < 8 ==> (a | b) < 8) by (bit_vector);
        }
        r = r | bit;
        i = i + 1;
    }
    proof {
        assert(flags@.subrange(0, flags@.len() as int) =~= flags@);
    }
    r
}

/// The combined flag set stays below 8: only the three flag bits occur.
proof fn lemma_combined_sun_bound(fs: Seq<SunRequirement>)
    ensures
        combined_sun(fs) < 8,
    decreases fs.len(),
{
    if fs.len() > 0 {
        lemma_combined_sun_bound(fs.drop_last());
        let a = combined_sun(fs.drop_last());
        let b = sun_flag_bit(fs.last());
        assert(a < 8 && b < 8 ==> (a | b) < 8) by (bit_vector);
    }
}

/// A flag's bit is set in the combination exactly when the flag was given.
pub proof fn lemma_combined_sun_membership(fs: Seq<SunRequirement>, f: SunRequirement)
    ensures
        (combined_sun(fs) & sun_flag_bit(f) != 0) <==> fs.contains(f),
    decreases fs.len(),
{
    if fs.len() == 0 {
        let b = sun_flag_bit(f);
        assert(0u32 & b == 0) by (bit_vector);
    } else {
        lemma_combined_sun_membership(fs.drop_last(), f);
        let a = combined_sun(fs.drop_last());
        let b = sun_flag_bit(fs.last());
        let c = sun_flag_bit(f);
        assert((a | b) & c != 0 <==> (a & c != 0 || b & c != 0)) by (bit_vector);
        if fs.last() == f {
            assert(b & c != 0) by (bit_vector)
                requires
                    b == c && (b == 1u32 || b == 2u32 || b == 4u32),
            ;
            assert(fs.contains(f)) by {
                assert(fs[fs.len() - 1] == f);
            }
        } else {
            assert(b & c == 0) by (bit_vector)
                requires
                    b != c && (b == 1u32 || b == 2u32 || b == 4u32) && (c == 1u32 || c == 2u32
                        || c == 4u32),
            ;
            assert(fs.contains(f) <==> fs.drop_last().contains(f)) by {
                if fs.contains(f) {
                    let i = choose|i: int| 0 <= i < fs.len() && fs[i] == f;
                    assert(i < fs.len() - 1);
                    assert(fs.drop_last()[i] == f);
                } else if fs.drop_last().contains(f) {
                    let i = choose|i: int| 0 <= i < fs.len() - 1 && fs.drop_last()[i] == f;
                    assert(fs[i] == f);
                }
            }
        }
    }
}

} // verus!
