//! Exact amplitudes: what a waveform is worth at one time position.
use vstd::prelude::*;
use crate::rational::ratio;

verus! {

/// The rational number `num / den`.
#[derive(Clone, Copy, Debug, PartialEq, Eq)]
pub struct Ratio {
    pub num: i128,
    pub den: i128,
}

impl View for Ratio {
    type V = real;

    /// The quotient as a real number.
    open spec fn view(&self) -> real {
        ratio(self.num as int, self.den as int)
    }
}

/// One amplitude sample, held exactly.
///
/// The piecewise-linear waveforms take rational values, which are stored as
/// they are. A sinusoid takes irrational values at almost every rational
/// phase, so it is stored as the phase whose sine it is, and left to a
/// numeric layer to evaluate.
#[derive(Clone, Copy, Debug, PartialEq, Eq)]
pub enum Amplitude {
    /// The amplitude is this rational number.
    Exact(Ratio),
    /// The amplitude is `sin(2π · turn)` for this fraction of a turn.
    SineOf(Ratio),
}

/// What an [`Amplitude`] stands for.
pub enum AmplitudeView {
    /// The amplitude is this real number.
    Exact(real),
    /// The amplitude is `sin(2π · turn)` for this real number of turns.
    SineOf(real),
}

impl View for Amplitude {
    type V = AmplitudeView;

    open spec fn view(&self) -> AmplitudeView {
        match *self {
            Amplitude::Exact(value) => AmplitudeView::Exact(value@),
            Amplitude::SineOf(turn) => AmplitudeView::SineOf(turn@),
        }
    }
}

impl Amplitude {
    /// The denominator over which the amplitude is held.
    pub open spec fn denominator(self) -> int {
        match self {
            Amplitude::Exact(value) => value.den as int,
            Amplitude::SineOf(turn) => turn.den as int,
        }
    }
}

} // verus!
