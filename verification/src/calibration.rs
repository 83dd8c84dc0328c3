//! The calibration lookup: which entry of the scale table serves a
//! wavelength.

use crate::schema::SLMCalibScaling;
use vstd::prelude::*;

verus! {

/// The absolute difference of two wavelengths.
pub open spec fn distance(a: u32, b: u32) -> int {
    if a <= b {
        b - a
    } else {
        a - b
    }
}

/// `i` is the entry of `known` that serves `wavelength`: no entry lies
/// closer, and every earlier entry lies strictly farther. An entry equal to
/// the wavelength has distance zero, so the first such entry is the one.
pub open spec fn is_closest(known: Seq<u32>, wavelength: u32, i: int) -> bool {
    &&& 0 <= i < known.len()
    &&& forall|j: int|
        0 <= j < known.len() ==> distance(known[i], wavelength) <= distance(
            #[trigger] known[j],
            wavelength,
        )
    &&& forall|j: int|
        0 <= j < i ==> distance(known[i], wavelength) < distance(#[trigger] known[j], wavelength)
}

/// At most one entry serves a wavelength.
pub proof fn lemma_closest_unique(known: Seq<u32>, wavelength: u32, i: int, j: int)
    requires
        is_closest(known, wavelength, i),
        is_closest(known, wavelength, j),
    ensures
        i == j,
{
    if i < j {
        assert(distance(known[j], wavelength) < distance(known[i], wavelength));
    } else if j < i {
        assert(distance(known[i], wavelength) < distance(known[j], wavelength));
    }
}

/// A wavelength that the table holds is served by its first occurrence.
pub proof fn lemma_exact_match_wins(known: Seq<u32>, wavelength: u32, i: int, k: int)
    requires
        is_closest(known, wavelength, i),
        0 <= k < known.len(),
        known[k] == wavelength,
    ensures
        known[i] == wavelength,
        i <= k,
{
    assert(distance(known[k], wavelength) == 0);
}

fn abs_diff(a: u32, b: u32) -> (d: u32)
    ensures
        d == distance(a, b),
{
    if a <= b {
        b - a
    } else {
        a - b
    }
}

/// The index of the table entry that serves `wavelength`, or `None` for an
/// empty table.
pub fn scale_index(known: &Vec<u32>, wavelength: u32) -> (found: Option<usize>)
    ensures
        found is None <==> known@.len() == 0,
        found matches Some(i) ==> is_closest(known@, wavelength, i as int),
{
    if known.len() == 0 {
        return None;
    }
    let mut best: usize = 0;
    let mut best_distance: u32 = abs_diff(known[0], wavelength);
    let mut k: usize = 1;
    while k < known.len()
        invariant
            1 <= k <= known@.len(),
            best < k,
            best_distance == distance(known@[best as int], wavelength),
            forall|j: int|
                0 <= j < k ==> best_distance <= distance(#[trigger] known@[j], wavelength),
            forall|j: int|
                0 <= j < best ==> best_distance < distance(#[trigger] known@[j], wavelength),
        decreases known@.len() - k,
    {
        let d: u32 = abs_diff(known[k], wavelength);
        if d < best_distance {
            best = k;
            best_distance = d;
        }
        k += 1;
    }
    Some(best)
}

/// Why no scale factor could be chosen.
#[derive(Debug, Clone, Copy, PartialEq, Eq)]
pub enum ScaleError {
    /// The table of known wavelengths is empty.
    NoKnownWavelengths,
    /// The table holds fewer factors than wavelengths, and the entry that
    /// serves the wavelength has none.
    MissingFactor,
}

/// What `scale_factor` returns for a table and a wavelength.
pub open spec fn scale_factor_of(
    known: Seq<u32>,
    factors: Seq<u32>,
    wavelength: u32,
) -> Result<u32, ScaleError> {
    if known.len() == 0 {
        Err(ScaleError::NoKnownWavelengths)
    } else {
        let i = choose|i: int| is_closest(known, wavelength, i);
        if i < factors.len() {
            Ok(factors[i])
        } else {
            Err(ScaleError::MissingFactor)
        }
    }
}

/// The bit pattern of the scale factor for `wavelength`: that of the entry
/// equal to it where there is one, else that of the closest entry, the
/// earlier one of two that lie equally close.
pub fn scale_factor(scaling: &SLMCalibScaling, wavelength: u32) -> (factor: Result<
    u32,
    ScaleError,
>)
    ensures
        factor == scale_factor_of(
            scaling.known_wavelengths@,
            scaling.scale_factor_bits@,
            wavelength,
        ),
{
    match scale_index(&scaling.known_wavelengths, wavelength) {
        None => Err(ScaleError::NoKnownWavelengths),
        Some(i) => {
            proof {
                let c = choose|c: int| is_closest(scaling.known_wavelengths@, wavelength, c);
                lemma_closest_unique(scaling.known_wavelengths@, wavelength, i as int, c);
            }
            if i < scaling.scale_factor_bits.len() {
                Ok(scaling.scale_factor_bits[i])
            } else {
                Err(ScaleError::MissingFactor)
            }
        },
    }
}

} // verus!
