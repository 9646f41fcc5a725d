//! Harmonic parameters: the solfeggio table and the safety limits that
//! the tone synthesiser must respect.
//!
//! Audio playback itself happens outside this crate; what is verified
//! here is every decision that shapes a tone: which solfeggio frequency
//! an index selects, the fixed listening-safe amplitude and fade, and
//! the clamp of a derived frequency into the human hearing range.
//! Amplitude is held in thousandths of full scale and frequencies in
//! millihertz, so the values are exact integers.

use vstd::prelude::*;

verus! {

/// How many solfeggio frequencies the table holds.
pub const SOLFEGGIO_COUNT: usize = 9;

/// Listening-safe amplitude, in thousandths of full scale (0.15).
pub const ND_SAFE_AMPLITUDE_MILLI: u32 = 150;

/// Listening-safe fade duration, in milliseconds (0.3 s).
pub const ND_SAFE_FADE_MS: u32 = 300;

/// The nine solfeggio frequencies, in Hz, ascending.
pub open spec fn solfeggio_spec() -> Seq<u32> {
    seq![174u32, 285u32, 396u32, 417u32, 528u32, 639u32, 741u32, 852u32, 963u32]
}

/// The solfeggio table as a vector.
pub fn solfeggio_frequencies() -> (v: Vec<u32>)
    ensures
        v@ == solfeggio_spec(),
{
    let mut v: Vec<u32> = Vec::new();
    v.push(174);
    v.push(285);
    v.push(396);
    v.push(417);
    v.push(528);
    v.push(639);
    v.push(741);
    v.push(852);
    v.push(963);
    proof {
        assert(v@ =~= solfeggio_spec());
    }
    v
}

/// The frequency a solfeggio index selects: defined exactly for the nine
/// valid indices, nothing for any other.
pub fn solfeggio_frequency(index: usize) -> (r: Option<u32>)
    ensures
        r is Some <==> index < 9,
        r matches Some(f) ==> f == solfeggio_spec()[index as int],
{
    let table = solfeggio_frequencies();
    if index < SOLFEGGIO_COUNT && index < table.len() {
        Some(table[index])
    } else {
        None
    }
}

/// A frequency clamped into the human hearing range, in millihertz:
/// between 20 Hz and 20 kHz.
pub open spec fn clamped_hearing_millihz(f: int) -> int {
    if f < 20000 {
        20000
    } else if f > 20000000 {
        20000000
    } else {
        f
    }
}

/// Clamps a derived tone frequency (millihertz) into the hearing range.
pub fn clamp_to_hearing_range(f: i64) -> (r: u32)
    ensures
        r == clamped_hearing_millihz(f as int),
{
    if f < 20000 {
        20000
    } else if f > 20000000 {
        20000000
    } else {
        f as u32
    }
}

} // verus!
