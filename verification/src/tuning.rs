//! Twelve-tone equal temperament, referenced to A4 = 440 Hz.
//!
//! Frequencies are fixed-point numbers with 16 fractional bits: one hertz is
//! [`FREQUENCY_ONE`]. The twelve notes of the highest octave are tabulated;
//! every other note is an octave shift of one of them.

use vstd::prelude::*;
use vstd::arithmetic::power2::pow2;
use crate::temperament::{is_tempered, lemma_frequency_tempered};

verus! {

/// One hertz.
pub const FREQUENCY_ONE: u64 = 65536;

/// The note number of A4.
pub const A4_NOTE: u8 = 69;

/// The frequency of A4.
pub const A4_FREQUENCY: u64 = 28835840;

/// The lowest note of the tabulated octave.
pub const TOP_OCTAVE_START: u8 = 244;

/// Frequency of note `244 + semitone`, rounded down.
pub open spec fn top_octave(semitone: int) -> int {
    if semitone == 0 {
        707869788400
    } else if semitone == 1 {
        749961916422
    } else if semitone == 2 {
        794556972624
    } else if semitone == 3 {
        841803788861
    } else if semitone == 4 {
        891860046990
    } else if semitone == 5 {
        944892805120
    } else if semitone == 6 {
        1001079055150
    } else if semitone == 7 {
        1060606313467
    } else if semitone == 8 {
        1123673246763
    } else if semitone == 9 {
        1190490335064
    } else if semitone == 10 {
        1261280574192
    } else {
        1336280219989
    }
}

/// How many octaves `note` lies below its counterpart in the top octave.
pub open spec fn octaves_below_top(note: int) -> int {
    (255 - note) / 12
}

/// The position of `note` within its octave, counted from note 244.
pub open spec fn semitone_in_top(note: int) -> int {
    11 - (255 - note) % 12
}

/// Frequency of `note`: its top-octave counterpart halved once per octave.
pub open spec fn frequency(note: int) -> int {
    top_octave(semitone_in_top(note)) / (pow2(octaves_below_top(note) as nat) as int)
}

/// Every note sounds above 5 Hz and below 20.4 MHz.
pub proof fn lemma_frequency_bounds(note: int)
    requires
        0 <= note <= 255,
    ensures
        337538 <= frequency(note) <= 1336280219989,
{
    let octaves = octaves_below_top(note) as nat;
    let top = top_octave(semitone_in_top(note));
    vstd::arithmetic::power2::lemma2_to64();
    vstd::arithmetic::power2::lemma_pow2_pos(octaves);
    if octaves < 21 {
        vstd::arithmetic::power2::lemma_pow2_strictly_increases(octaves, 21);
    }
    vstd::arithmetic::div_mod::lemma_div_is_ordered_by_denominator(
        top,
        pow2(octaves) as int,
        2097152,
    );
    vstd::arithmetic::div_mod::lemma_div_is_ordered_by_denominator(top, 1, pow2(octaves) as int);
}

fn top_octave_entry(semitone: u8) -> (f: u64)
    requires
        semitone < 12,
    ensures
        f == top_octave(semitone as int),
{
    if semitone == 0 {
        707869788400
    } else if semitone == 1 {
        749961916422
    } else if semitone == 2 {
        794556972624
    } else if semitone == 3 {
        841803788861
    } else if semitone == 4 {
        891860046990
    } else if semitone == 5 {
        944892805120
    } else if semitone == 6 {
        1001079055150
    } else if semitone == 7 {
        1060606313467
    } else if semitone == 8 {
        1123673246763
    } else if semitone == 9 {
        1190490335064
    } else if semitone == 10 {
        1261280574192
    } else {
        1336280219989
    }
}

/// The frequency of a note in equal temperament, rounded down to a
/// multiple of 1/65536 Hz.
pub fn note_frequency(note: u8) -> (f: u64)
    ensures
        f == frequency(note as int),
        is_tempered(note as int, f as int),
        337538 <= f <= 1336280219989,
{
    proof {
        lemma_frequency_tempered(note as int);
        lemma_frequency_bounds(note as int);
    }
    let below: u8 = 255 - note;
    let octaves: u8 = below / 12;
    let semitone: u8 = 11 - below % 12;
    let top: u64 = top_octave_entry(semitone);
    proof {
        vstd::bits::lemma_u64_shr_is_div(top, octaves as u64);
        vstd::arithmetic::power2::lemma_pow2_pos(octaves as nat);
        vstd::arithmetic::div_mod::lemma_div_is_ordered_by_denominator(
            top as int,
            1,
            pow2(octaves as nat) as int,
        );
    }
    top >> octaves
}

} // verus!
