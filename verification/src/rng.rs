//! The deterministic pseudo-random generator that drives repeat counts and
//! variation selection: a linear-congruential generator over a 31-bit state.

use vstd::prelude::*;

verus! {

/// One step of the linear-congruential generator:
/// `state * 1103515245 + 12345 (mod 2^31)`.
pub open spec fn lcg_next(s: u32) -> u32 {
    (((s as int) * 1103515245 + 12345) % 0x8000_0000) as u32
}

/// The low 16 bits of a generator state, the value handed to callers.
pub open spec fn lcg_low16(s: u32) -> u16 {
    (s % 0x1_0000) as u16
}

/// The repeat count drawn for replay bounds `[min, max]` from the 16-bit
/// draw `u`: `min + floor((max - min) * u / 65535)`.
pub open spec fn repeats_of(min: u32, max: u32, u: u16) -> int {
    min + ((max - min) * (u as int)) / 65535
}

/// The probability threshold drawn for variation selection from the 16-bit
/// draw `u`: `u / 65535` scaled to `0x7fff` and rounded to nearest.
pub open spec fn probability_of(u: u16) -> int {
    ((u as int) * 0x7fff * 2 + 65535) / (131070 as int)
}

/// The seeded generator. Exactly one instance is owned by each manager, so
/// a fixed seed and a fixed call order reproduce every decision.
#[derive(Debug, Clone, Copy)]
pub struct LcgRng {
    pub state: u32,
}

impl LcgRng {
    pub fn new(seed: u32) -> (r: Self)
        ensures
            r.state == seed,
    {
        LcgRng { state: seed }
    }

    /// Advances the state once and returns its low 16 bits.
    pub fn next_u16(&mut self) -> (r: u16)
        ensures
            final(self).state == lcg_next(old(self).state),
            r == lcg_low16(final(self).state),
            final(self).state < 0x8000_0000,
    {
        let wide: u64 = (self.state as u64) * 1_103_515_245 + 12_345;
        let next: u64 = wide % 0x8000_0000;
        self.state = next as u32;
        (next % 0x1_0000) as u16
    }

    /// Draws the repeat count for replay bounds `[min, max]`
    /// (`min + floor((max - min) * u / 65535)` for a fresh 16-bit draw `u`).
    pub fn draw_repeats(&mut self, min: u32, max: u32) -> (r: i32)
        requires
            min <= max,
            max <= 0x7fff_ffff,
        ensures
            final(self).state == lcg_next(old(self).state),
            r == repeats_of(min, max, lcg_low16(final(self).state)),
            min <= r <= max,
    {
        let u: u16 = self.next_u16();
        let span: u64 = (max - min) as u64;
        proof {
            assert((span as int) * (u as int) <= 0x7fff_ffff * 65535) by (nonlinear_arith)
                requires span <= 0x7fff_ffff && u <= 65535,
            ;
        }
        let scaled: u64 = span * (u as u64) / 65535;
        assert((span as int) * (u as int) / 65535 <= span) by (nonlinear_arith)
            requires u <= 65535,
        ;
        (min as i32) + (scaled as i32)
    }

    /// Draws the selection threshold in `0 ..= 0x7fff`
    /// (`u / 65535` scaled to `0x7fff`, rounded to nearest).
    pub fn draw_probability(&mut self) -> (r: u16)
        ensures
            final(self).state == lcg_next(old(self).state),
            r == probability_of(lcg_low16(final(self).state)),
            r <= 0x7fff,
    {
        let u: u16 = self.next_u16();
        let num: u64 = (u as u64) * 0x7fff * 2 + 65535;
        let r: u64 = num / (2 * 65535);
        assert(((u as int) * 0x7fff * 2 + 65535) / (131070 as int) <= 0x7fff) by (nonlinear_arith)
            requires u <= 65535,
        ;
        r as u16
    }
}

} // verus!
