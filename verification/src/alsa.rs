//! Model of the audio mixer element the volume indicator drives.
//!
//! The sound-card handle itself is device I/O and lives outside this crate;
//! the shell reads the element's volume range and switch once, keeps this
//! model in step with the device, and performs the writes the verified
//! handlers decide on.  The volume is kept in device units ("raw"); the
//! normalized volume the indicator shows is `raw / (max - min)`.

use vstd::prelude::*;

verus! {

/// The playback element state: its volume range, whether it has a mute
/// switch, the current volume in device units, and the switch state.
pub struct Audio {
    pub min: i64,
    pub max: i64,
    pub has_switch: bool,
    pub raw: i64,
    pub unmuted: bool,
}

/// `num / den` clamped into `[0, 1]`, kept as a numerator over `den`.
pub open spec fn spec_clamp(num: int, den: int) -> int {
    if num < 0 {
        0
    } else if num > den {
        den
    } else {
        num
    }
}

/// The device volume that setting the normalized volume `num / den` yields:
/// the fraction is clamped into `[0, 1]` and scaled onto the range, rounding
/// down.
pub open spec fn spec_scaled_volume(num: int, den: int, range: int) -> int {
    spec_clamp(num, den) * range / den
}

/// `a` after one wheel-up step: the normalized volume `raw / range` raised
/// by `1/20`, clamped into `[0, 1]` and scaled back onto the range.
pub open spec fn spec_volume_up(a: Audio) -> Audio {
    Audio {
        min: a.min,
        max: a.max,
        has_switch: a.has_switch,
        raw: spec_scaled_volume(20 * a.raw + a.range(), 20 * a.range(), a.range()) as i64,
        unmuted: a.unmuted,
    }
}

/// `a` after one wheel-down step: the normalized volume lowered by `1/20`,
/// clamped into `[0, 1]` and scaled back onto the range.
pub open spec fn spec_volume_down(a: Audio) -> Audio {
    Audio {
        min: a.min,
        max: a.max,
        has_switch: a.has_switch,
        raw: spec_scaled_volume(20 * a.raw - a.range(), 20 * a.range(), a.range()) as i64,
        unmuted: a.unmuted,
    }
}

/// `a` with its mute switch flipped.
pub open spec fn spec_toggled(a: Audio) -> Audio {
    Audio {
        min: a.min,
        max: a.max,
        has_switch: a.has_switch,
        raw: a.raw,
        unmuted: !a.unmuted,
    }
}

impl Audio {
    /// A well-formed mixer model: a non-empty volume range small enough for
    /// the stepping arithmetic, and a current volume within the range.
    pub open spec fn wf(self) -> bool {
        &&& self.min < self.max
        &&& self.max - self.min <= 0x1_0000_0000
        &&& 0 <= self.raw <= self.max - self.min
    }

    /// The width of the volume range in device units.
    pub open spec fn range(self) -> int {
        self.max - self.min
    }

    /// Builds the model from the values read off the device: the playback
    /// volume range, the presence of a playback switch, the current volume
    /// and the current switch state.
    pub fn new(min: i64, max: i64, has_switch: bool, raw: i64, unmuted: bool) -> (r: Audio)
        requires
            min < max,
            max - min <= 0x1_0000_0000,
            0 <= raw <= max - min,
        ensures
            r == (Audio { min, max, has_switch, raw, unmuted }),
            r.wf(),
    {
        Audio { min, max, has_switch, raw, unmuted }
    }

    /// Whether the element is currently unmuted.
    pub fn is_unmuted(&self) -> (r: bool)
        ensures
            r == self.unmuted,
    {
        self.unmuted
    }

    /// Flips the mute switch; nothing else changes.
    pub fn toggle_mute(&mut self)
        ensures
            *final(self) == spec_toggled(*old(self)),
    {
        self.unmuted = !self.unmuted;
    }

    /// Sets the volume to the normalized value `num / den`, clamped into
    /// `[0, 1]` and scaled onto the device range, rounding down.
    pub fn set_volume_scaled(&mut self, num: i64, den: i64)
        requires
            old(self).wf(),
            den > 0,
        ensures
            final(self).wf(),
            final(self).min == old(self).min,
            final(self).max == old(self).max,
            final(self).has_switch == old(self).has_switch,
            final(self).unmuted == old(self).unmuted,
            final(self).raw == spec_scaled_volume(num as int, den as int, old(self).range()),
    {
        let clamped: i64 = if num < 0 {
            0
        } else if num > den {
            den
        } else {
            num
        };
        let range: i64 = self.max - self.min;
        proof {
            assert((clamped as int) * (range as int) <= 0x7fff_ffff_ffff_ffff * 0x1_0000_0000int)
                by (nonlinear_arith)
                requires
                    0 <= clamped <= 0x7fff_ffff_ffff_ffff,
                    0 <= range <= 0x1_0000_0000,
            ;
        }
        let prod: i128 = (clamped as i128) * (range as i128);
        let scaled_wide: i128 = prod / (den as i128);
        proof {
            lemma_scaled_volume_in_range(num as int, den as int, self.range());
            assert(scaled_wide == spec_scaled_volume(num as int, den as int, self.range()));
        }
        self.raw = scaled_wide as i64;
    }

    /// One wheel-up step: the normalized volume raised by `1/20` and clamped
    /// at 1, then scaled back onto the device range.
    pub fn volume_up(&mut self)
        requires
            old(self).wf(),
        ensures
            final(self).wf(),
            *final(self) == spec_volume_up(*old(self)),
    {
        let range: i64 = self.max - self.min;
        let num: i64 = 20 * self.raw + range;
        let den: i64 = 20 * range;
        self.set_volume_scaled(num, den);
        proof {
            lemma_scaled_volume_in_range(num as int, den as int, self.range());
        }
    }

    /// One wheel-down step: the normalized volume lowered by `1/20` and
    /// clamped at 0, then scaled back onto the device range.
    pub fn volume_down(&mut self)
        requires
            old(self).wf(),
        ensures
            final(self).wf(),
            *final(self) == spec_volume_down(*old(self)),
    {
        let range: i64 = self.max - self.min;
        let num: i64 = 20 * self.raw - range;
        let den: i64 = 20 * range;
        self.set_volume_scaled(num, den);
        proof {
            lemma_scaled_volume_in_range(num as int, den as int, self.range());
        }
    }
}

/// The scaled volume stays within the device range.
pub proof fn lemma_scaled_volume_in_range(num: int, den: int, range: int)
    requires
        den > 0,
        range >= 0,
    ensures
        0 <= spec_scaled_volume(num, den, range) <= range,
{
    let c = spec_clamp(num, den);
    assert(0 <= c <= den);
    assert(0 <= c * range <= den * range) by (nonlinear_arith)
        requires
            0 <= c <= den,
            range >= 0,
    ;
    assert(0 <= c * range / den <= range) by (nonlinear_arith)
        requires
            den > 0,
            range >= 0,
            0 <= c * range <= den * range,
    ;
}

/// After a set, the observable volume equals the requested normalized value,
/// clamped into `[0, 1]`, to within one device step: scaled back up by the
/// denominator, the device volume is below the clamped request by less than
/// one denominator unit.
pub proof fn lemma_set_volume_within_step(num: int, den: int, range: int)
    requires
        den > 0,
        range > 0,
    ensures
        0 <= spec_scaled_volume(num, den, range) <= range,
        0 <= spec_clamp(num, den) * range - spec_scaled_volume(num, den, range) * den < den,
{
    lemma_scaled_volume_in_range(num, den, range);
    let c = spec_clamp(num, den);
    let q = c * range / den;
    let r = c * range % den;
    vstd::arithmetic::div_mod::lemma_fundamental_div_mod(c * range, den);
    assert(c * range == den * q + r);
    vstd::arithmetic::div_mod::lemma_mod_division_less_than_divisor(c * range, den);
    assert(0 <= r < den);
    assert(c * range - q * den == r) by (nonlinear_arith)
        requires
            c * range == den * q + r,
    ;
}

/// Toggling the mute switch twice restores the state exactly.
pub proof fn lemma_toggle_mute_round_trip(a: Audio)
    ensures
        spec_toggled(spec_toggled(a)) == a,
{
}

/// Informational hook on the mixer module's public surface; it does
/// nothing.
pub fn get_info() {
}

} // verus!
