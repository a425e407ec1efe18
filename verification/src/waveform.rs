//! The closed set of waveform kinds and their evaluation.
use vstd::prelude::*;
use crate::amplitude::{Amplitude, AmplitudeView};
use crate::common::{cos, null, sawtooth_wave, saw, sin, sqr, square_wave, tri, triangle_wave};
use crate::rational::frac;
use crate::time::TimePos;

verus! {

/// Which periodic formula to evaluate.
#[derive(Clone, Copy, Debug, PartialEq, Eq)]
pub enum Waveform {
    /// `sin(2π · t · f)`.
    Sine,
    /// `sign(sin(2π · t · f))`.
    Square,
    /// A ramp between `-1` and `+1` in two straight segments per cycle.
    Triangle,
    /// `2 · (f · t − ⌊1/2 + f · t⌋)`.
    Sawtooth,
    /// `sin(π · t · f)`: a sine at half the rate, kept under this name.
    Cosine,
    /// The constant `0`.
    Null,
}

impl Waveform {
    /// The amplitude of this waveform at time `t` for frequency `f`.
    pub open spec fn amplitude(self, t: real, f: real) -> AmplitudeView {
        match self {
            Waveform::Sine => AmplitudeView::SineOf(frac(t * f)),
            Waveform::Square => AmplitudeView::Exact(square_wave(t * f)),
            Waveform::Triangle => AmplitudeView::Exact(triangle_wave(t * f)),
            Waveform::Sawtooth => AmplitudeView::Exact(sawtooth_wave(t * f)),
            Waveform::Cosine => AmplitudeView::SineOf(frac(t * f / 2real)),
            Waveform::Null => AmplitudeView::Exact(0real),
        }
    }

    /// The number of cycles `t · f` after which this waveform repeats.
    pub open spec fn cycle(self) -> real {
        match self {
            Waveform::Cosine => 2real,
            _ => 1real,
        }
    }

    /// The denominator over which this waveform's amplitudes are held when
    /// the unit interval has `count` samples.
    pub open spec fn denominator(self, count: int) -> int {
        match self {
            Waveform::Sine | Waveform::Triangle | Waveform::Sawtooth => count,
            Waveform::Cosine => 2 * count,
            Waveform::Square | Waveform::Null => 1,
        }
    }

    /// Evaluates this waveform at position `t` for frequency `f`.
    pub fn evaluate(self, t: TimePos, f: u64) -> (amp: Amplitude)
        ensures
            amp@ == self.amplitude(t@, f as real),
            amp.denominator() == self.denominator(t.count() as int),
            amp.denominator() > 0,
    {
        let mut freq = f;
        match self {
            Waveform::Sine => sin(t, &mut freq),
            Waveform::Square => sqr(t, &mut freq),
            Waveform::Triangle => tri(t, &mut freq),
            Waveform::Sawtooth => saw(t, &mut freq),
            Waveform::Cosine => cos(t, &mut freq),
            Waveform::Null => null((), ()),
        }
    }
}

} // verus!
