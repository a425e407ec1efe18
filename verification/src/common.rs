//! The waveforms, as amplitude functions of a time position and a frequency.
//!
//! Every waveform is a function of the number of cycles `t · f` gone by at
//! time `t` for frequency `f`. The frequency is a whole number of cycles per
//! unit interval, held in a value that the caller owns.
use vstd::prelude::*;
use crate::amplitude::{Amplitude, AmplitudeView, Ratio};
use crate::rational::{frac, half, lemma_ratio_add, lemma_ratio_floor, lemma_ratio_mul,
    lemma_ratio_whole, quarter, ratio};
use crate::time::TimePos;

verus! {

/// The square wave after `x` cycles: the sign of `sin(2π · x)`.
///
/// It is `+1` through the first half of each cycle, `-1` through the second,
/// and `0` at the two crossings between them.
pub open spec fn square_wave(x: real) -> real {
    let phase = frac(x);
    if phase == 0real || phase == half() {
        0real
    } else if phase < half() {
        1real
    } else {
        -1real
    }
}

/// The triangle wave after `x` cycles: two straight segments per cycle,
/// rising from `-1` at three quarters of a cycle to `+1` at one quarter of
/// the next, and falling back from there.
pub open spec fn triangle_wave(x: real) -> real {
    let phase = frac(x + quarter());
    if phase <= half() {
        4real * phase - 1real
    } else {
        3real - 4real * phase
    }
}

/// The sawtooth wave after `x` cycles: `2 · (x − ⌊1/2 + x⌋)`, a ramp from
/// `-1` to `+1` that jumps back at the middle of each cycle.
pub open spec fn sawtooth_wave(x: real) -> real {
    2real * (x - (half() + x).floor() as real)
}

/// The triangle wave in terms of the phase alone: up from `0` over the first
/// quarter of the cycle, down through the middle half, up again over the
/// last quarter.
pub proof fn lemma_triangle_by_phase(x: real)
    ensures
        triangle_wave(x) == if frac(x) <= quarter() {
            4real * frac(x)
        } else if frac(x) <= 3real * quarter() {
            2real - 4real * frac(x)
        } else {
            4real * frac(x) - 4real
        },
{
    let phase = frac(x);
    let base = x.floor();
    assert(x == base as real + phase);
    if phase < 3real * quarter() {
        assert((x + quarter()).floor() == base);
    } else {
        assert((x + quarter()).floor() == base + 1);
    }
}

/// The sawtooth wave in terms of the phase alone: up from `0` over the first
/// half of the cycle, and up from `-1` over the second.
pub proof fn lemma_sawtooth_by_phase(x: real)
    ensures
        sawtooth_wave(x) == if frac(x) < half() {
            2real * frac(x)
        } else {
            2real * frac(x) - 2real
        },
{
    let phase = frac(x);
    let base = x.floor();
    assert(x == base as real + phase);
    if phase < half() {
        assert((half() + x).floor() == base);
    } else {
        assert((half() + x).floor() == base + 1);
    }
}

/// Where the phase `rest / count` stands against a quarter, a half and
/// three quarters of the cycle.
proof fn lemma_phase_marks(rest: int, count: int)
    requires
        count > 0,
    ensures
        ratio(rest, count) == 0real <==> rest == 0,
        ratio(rest, count) <= quarter() <==> 4 * rest <= count,
        ratio(rest, count) < half() <==> 2 * rest < count,
        ratio(rest, count) == half() <==> 2 * rest == count,
        ratio(rest, count) <= 3real * quarter() <==> 4 * rest <= 3 * count,
{
    let phase = ratio(rest, count);
    assert(phase == 0real <==> rest == 0) by (nonlinear_arith)
        requires
            phase == rest as real / count as real,
            count > 0,
    ;
    assert(phase <= 1real / 4real <==> 4 * rest <= count) by (nonlinear_arith)
        requires
            phase == rest as real / count as real,
            count > 0,
    ;
    assert(phase < 1real / 2real <==> 2 * rest < count) by (nonlinear_arith)
        requires
            phase == rest as real / count as real,
            count > 0,
    ;
    assert(phase == 1real / 2real <==> 2 * rest == count) by (nonlinear_arith)
        requires
            phase == rest as real / count as real,
            count > 0,
    ;
    assert(phase <= 3real * (1real / 4real) <==> 4 * rest <= 3 * count) by (nonlinear_arith)
        requires
            phase == rest as real / count as real,
            count > 0,
    ;
}

/// The level of the square wave at the phase `rest / count`.
spec fn square_level(rest: int, count: int) -> int {
    if rest == 0 || 2 * rest == count {
        0
    } else if 2 * rest < count {
        1
    } else {
        -1
    }
}

/// The numerator, over `count`, of the triangle wave at the phase
/// `rest / count`.
spec fn triangle_num(rest: int, count: int) -> int {
    if 4 * rest <= count {
        4 * rest
    } else if 4 * rest <= 3 * count {
        2 * count - 4 * rest
    } else {
        4 * rest - 4 * count
    }
}

/// The numerator, over `count`, of the sawtooth wave at the phase
/// `rest / count`.
spec fn sawtooth_num(rest: int, count: int) -> int {
    if 2 * rest < count {
        2 * rest
    } else {
        2 * rest - 2 * count
    }
}

/// The square wave, where the phase of `x` is `rest / count`.
proof fn lemma_square_at_phase(x: real, rest: int, count: int)
    requires
        count > 0,
        frac(x) == ratio(rest, count),
    ensures
        square_wave(x) == ratio(square_level(rest, count), 1),
{
    lemma_phase_marks(rest, count);
    lemma_ratio_whole(square_level(rest, count), 1);
}

/// The triangle wave, where the phase of `x` is `rest / count`.
proof fn lemma_triangle_at_phase(x: real, rest: int, count: int)
    requires
        count > 0,
        frac(x) == ratio(rest, count),
    ensures
        triangle_wave(x) == ratio(triangle_num(rest, count), count),
{
    let phase = ratio(rest, count);
    lemma_triangle_by_phase(x);
    lemma_phase_marks(rest, count);
    if 4 * rest <= count {
        lemma_ratio_mul(4, rest, count);
    } else if 4 * rest <= 3 * count {
        lemma_ratio_whole(2, count);
        lemma_ratio_mul(-4, rest, count);
        lemma_ratio_add(2 * count, -4 * rest, count);
        assert(ratio(2 * count - 4 * rest, count) == 2real - 4real * phase);
    } else {
        lemma_ratio_whole(-4, count);
        lemma_ratio_mul(4, rest, count);
        lemma_ratio_add(4 * rest, -4 * count, count);
        assert(ratio(4 * rest - 4 * count, count) == 4real * phase - 4real);
    }
}

/// The sawtooth wave, where the phase of `x` is `rest / count`.
proof fn lemma_sawtooth_at_phase(x: real, rest: int, count: int)
    requires
        count > 0,
        frac(x) == ratio(rest, count),
    ensures
        sawtooth_wave(x) == ratio(sawtooth_num(rest, count), count),
{
    let phase = ratio(rest, count);
    lemma_sawtooth_by_phase(x);
    lemma_phase_marks(rest, count);
    lemma_ratio_mul(2, rest, count);
    if 2 * rest >= count {
        lemma_ratio_whole(-2, count);
        lemma_ratio_add(2 * rest, -2 * count, count);
        assert(ratio(2 * rest - 2 * count, count) == 2real * phase - 2real);
    }
}

/// The number of cycles gone by at position `t` for frequency `f`, divided
/// by `span` and reduced to a fraction of one: returns its numerator over
/// the denominator `span · count`.
fn reduce(t: TimePos, f: u64, span: u64) -> (rest: u128)
    requires
        span > 0,
    ensures
        rest < span * t.count(),
        rest == (t.index() * f) % (span * t.count()),
        frac(t@ * f as real / span as real) == ratio(rest as int, span * t.count()),
{
    let index = t.index() as u128;
    let count = t.count() as u128;
    assert(index * f <= u128::MAX && span * count <= u128::MAX && span * count > 0)
        by (nonlinear_arith)
        requires
            index <= u64::MAX,
            f <= u64::MAX,
            0 < count <= u64::MAX,
            0 < span <= u64::MAX,
    ;
    let cycles = index * (f as u128);
    let whole = (span as u128) * count;
    proof {
        let x = t@ * f as real / span as real;
        assert(x == ratio(cycles as int, whole as int)) by (nonlinear_arith)
            requires
                x == (index as real / count as real) * f as real / span as real,
                cycles == index * f,
                whole == span * count,
                count > 0,
                span > 0,
        ;
        lemma_ratio_floor(cycles as int, whole as int);
    }
    cycles % whole
}

/// The phase of the wave of frequency `f` at position `t`: returns the
/// numerator of `frac(t · f)` over the denominator `count`.
fn phase(t: TimePos, f: u64) -> (rest: i128)
    ensures
        0 <= rest < t.count(),
        frac(t@ * f as real) == ratio(rest as int, t.count() as int),
{
    let rest = reduce(t, f, 1);
    rest as i128
}

/// The sine wave `sin(2π · t · f)`, as the fraction of a turn whose sine it
/// is. The frequency is left as it was.
pub fn sin(t: TimePos, f: &mut u64) -> (amp: Amplitude)
    ensures
        *final(f) == *old(f),
        amp@ == AmplitudeView::SineOf(frac(t@ * *old(f) as real)),
        amp.denominator() == t.count(),
        amp.denominator() > 0,
{
    let rest = phase(t, *f);
    let count = t.count() as i128;
    Amplitude::SineOf(Ratio { num: rest, den: count })
}

/// The square wave `sign(sin(2π · t · f))`: exactly `-1`, `0` or `+1`, and
/// `0` only at a crossing. The frequency is left as it was.
pub fn sqr(t: TimePos, f: &mut u64) -> (amp: Amplitude)
    ensures
        *final(f) == *old(f),
        amp@ == AmplitudeView::Exact(square_wave(t@ * *old(f) as real)),
        amp.denominator() == 1,
{
    let rest = phase(t, *f);
    let count = t.count() as i128;
    let level: i128 = if rest == 0 || 2 * rest == count {
        0
    } else if 2 * rest < count {
        1
    } else {
        -1
    };
    proof {
        lemma_square_at_phase(t@ * *old(f) as real, rest as int, count as int);
    }
    Amplitude::Exact(Ratio { num: level, den: 1 })
}

/// The wave that this library calls cosine: `sin(π · t · f)`, a sine at
/// half the rate and no true cosine. It is given as the fraction of a turn
/// whose sine it is. The frequency is left as it was.
pub fn cos(t: TimePos, f: &mut u64) -> (amp: Amplitude)
    ensures
        *final(f) == *old(f),
        amp@ == AmplitudeView::SineOf(frac(t@ * *old(f) as real / 2real)),
        amp.denominator() == 2 * t.count(),
        amp.denominator() > 0,
{
    let rest = reduce(t, *f, 2);
    let count = t.count() as i128;
    Amplitude::SineOf(Ratio { num: rest as i128, den: 2 * count })
}

/// The triangle wave: a ramp between `-1` and `+1` in two straight segments
/// per cycle, `+1` at a quarter of the cycle and `-1` at three quarters.
/// The frequency is left as it was.
pub fn tri(t: TimePos, f: &mut u64) -> (amp: Amplitude)
    ensures
        *final(f) == *old(f),
        amp@ == AmplitudeView::Exact(triangle_wave(t@ * *old(f) as real)),
        amp.denominator() == t.count(),
        amp.denominator() > 0,
{
    let rest = phase(t, *f);
    let count = t.count() as i128;
    let num: i128 = if 4 * rest <= count {
        4 * rest
    } else if 4 * rest <= 3 * count {
        2 * count - 4 * rest
    } else {
        4 * rest - 4 * count
    };
    proof {
        lemma_triangle_at_phase(t@ * *old(f) as real, rest as int, count as int);
    }
    Amplitude::Exact(Ratio { num, den: count })
}

/// The sawtooth wave `2 · (t · f − ⌊1/2 + t · f⌋)`: a ramp from `-1` to
/// `+1` once per cycle. The frequency is left as it was.
pub fn saw(t: TimePos, f: &mut u64) -> (amp: Amplitude)
    ensures
        *final(f) == *old(f),
        amp@ == AmplitudeView::Exact(sawtooth_wave(t@ * *old(f) as real)),
        amp.denominator() == t.count(),
        amp.denominator() > 0,
{
    let rest = phase(t, *f);
    let count = t.count() as i128;
    let num: i128 = if 2 * rest < count {
        2 * rest
    } else {
        2 * rest - 2 * count
    };
    proof {
        lemma_sawtooth_at_phase(t@ * *old(f) as real, rest as int, count as int);
    }
    Amplitude::Exact(Ratio { num, den: count })
}

/// Silence: the amplitude zero, whatever it is given.
pub fn null(_t: (), _f: ()) -> (amp: Amplitude)
    ensures
        amp == Amplitude::Exact(Ratio { num: 0, den: 1 }),
        amp@ == AmplitudeView::Exact(0real),
{
    proof {
        lemma_ratio_whole(0, 1);
    }
    Amplitude::Exact(Ratio { num: 0, den: 1 })
}

} // verus!
