//! What holds of the waveforms and of time positions, for all inputs.
use vstd::prelude::*;
use crate::amplitude::AmplitudeView;
use crate::common::{lemma_sawtooth_by_phase, lemma_triangle_by_phase, sawtooth_wave, square_wave,
    triangle_wave};
use crate::rational::{frac, half, lemma_frac_cycle, lemma_ratio_add, lemma_ratio_order,
    lemma_ratio_whole, quarter, ratio};
use crate::time::TimePos;
use crate::waveform::Waveform;

verus! {

/// The null waveform is zero at every time and for every frequency.
pub proof fn lemma_null_is_zero(t: real, f: real)
    ensures
        Waveform::Null.amplitude(t, f) == AmplitudeView::Exact(0real),
{
}

/// The square wave takes no value but `-1`, `0` and `+1`, and it is `0`
/// exactly at the crossings: where a whole number of half cycles has gone by.
pub proof fn lemma_square_levels(x: real)
    ensures
        square_wave(x) == -1real || square_wave(x) == 0real || square_wave(x) == 1real,
        square_wave(x) == 0real <==> frac(x) == 0real || frac(x) == half(),
{
}

/// Where no cycle has gone by, at time zero for one, the sine waveform is
/// the sine of zero turns.
pub proof fn lemma_sine_at_origin(t: real, f: real)
    requires
        t * f == 0real,
    ensures
        Waveform::Sine.amplitude(t, f) == AmplitudeView::SineOf(0real),
{
}

/// One more cycle changes nothing for the sawtooth wave.
pub proof fn lemma_sawtooth_cycle(x: real)
    ensures
        sawtooth_wave(x + 1real) == sawtooth_wave(x),
{
    assert((half() + (x + 1real)).floor() == (half() + x).floor() + 1);
}

/// The sawtooth wave of frequency `f` has the period `1 / f` in time: it has
/// the same value at `p` and at `p + 1 / f`.
pub proof fn lemma_sawtooth_periodic(f: real, p: real)
    requires
        f > 0real,
    ensures
        sawtooth_wave(f * (p + 1real / f)) == sawtooth_wave(f * p),
{
    let cycles = f * p;
    let later = f * (p + 1real / f);
    assert(later == cycles + 1real) by (nonlinear_arith)
        requires
            f > 0real,
            cycles == f * p,
            later == f * (p + 1real / f),
    ;
    lemma_sawtooth_cycle(cycles);
}

/// One more cycle changes nothing for the square wave.
pub proof fn lemma_square_cycle(x: real)
    ensures
        square_wave(x + 1real) == square_wave(x),
{
    lemma_frac_cycle(x);
}

/// One more cycle changes nothing for the triangle wave.
pub proof fn lemma_triangle_cycle(x: real)
    ensures
        triangle_wave(x + 1real) == triangle_wave(x),
{
    lemma_frac_cycle(x + quarter());
    assert(x + 1real + quarter() == x + quarter() + 1real);
}

/// Every waveform of frequency `f` repeats in time: after `1 / f`, and the
/// half-rate sine that goes by the name of cosine after `2 / f`.
pub proof fn lemma_waveform_periodic(kind: Waveform, f: real, p: real)
    requires
        f > 0real,
    ensures
        kind.amplitude(p + kind.cycle() / f, f) == kind.amplitude(p, f),
{
    let cycles = p * f;
    let later = (p + kind.cycle() / f) * f;
    assert(later == cycles + kind.cycle()) by (nonlinear_arith)
        requires
            f > 0real,
            cycles == p * f,
            later == (p + kind.cycle() / f) * f,
    ;
    match kind {
        Waveform::Sine => {
            lemma_frac_cycle(cycles);
        },
        Waveform::Square => {
            lemma_square_cycle(cycles);
        },
        Waveform::Triangle => {
            lemma_triangle_cycle(cycles);
        },
        Waveform::Sawtooth => {
            lemma_sawtooth_cycle(cycles);
        },
        Waveform::Cosine => {
            assert(later / 2real == cycles / 2real + 1real);
            lemma_frac_cycle(cycles / 2real);
        },
        Waveform::Null => {},
    }
}

/// The sawtooth wave stays within `-1` and `+1`, and never reaches `+1`.
pub proof fn lemma_sawtooth_range(x: real)
    ensures
        -1real <= sawtooth_wave(x) < 1real,
{
    lemma_sawtooth_by_phase(x);
}

/// The triangle wave stays within `-1` and `+1`. It is `+1` exactly at a
/// quarter of the cycle and `-1` exactly at three quarters.
pub proof fn lemma_triangle_range(x: real)
    ensures
        -1real <= triangle_wave(x) <= 1real,
        triangle_wave(x) == 1real <==> frac(x) == quarter(),
        triangle_wave(x) == -1real <==> frac(x) == 3real * quarter(),
{
    lemma_triangle_by_phase(x);
}

/// The first time position of a run is zero.
pub proof fn lemma_first_position(t: TimePos)
    requires
        t.index() == 0,
        t.count() > 0,
    ensures
        t@ == 0real,
{
    lemma_ratio_whole(0, t.count() as int);
}

/// From one sample to the next, the time position goes up by the constant
/// step `1 / n`, where `n` is the number of samples per unit interval.
pub proof fn lemma_position_step(t: TimePos, next: TimePos)
    requires
        t.count() > 0,
        next.count() == t.count(),
        next.index() == t.index() + 1,
    ensures
        next@ - t@ == ratio(1, t.count() as int),
        next@ > t@,
{
    let n = t.count() as int;
    lemma_ratio_add(t.index() as int, 1, n);
    lemma_ratio_order(0, 1, n);
    lemma_ratio_whole(0, n);
}

/// The time positions of a run of `n` samples lie in the unit interval,
/// from zero up to, and not reaching, one.
pub proof fn lemma_position_in_unit_interval(t: TimePos)
    requires
        t.index() < t.count(),
    ensures
        0real <= t@ < 1real,
{
    let n = t.count() as int;
    lemma_ratio_order(t.index() as int, n, n);
    lemma_ratio_order(0, t.index() as int, n);
    lemma_ratio_whole(0, n);
    lemma_ratio_whole(1, n);
}

} // verus!
