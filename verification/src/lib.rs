//! A minimal generator of periodic waveform samples.
//!
//! Given a waveform, a frequency and a number of samples, it produces the
//! amplitudes of that waveform at evenly spaced time positions over one unit
//! interval. Time positions and amplitudes are exact: a position is a
//! quotient of two whole numbers, and an amplitude is either a rational
//! number or the sine of a rational fraction of a turn.
//!
//! # Example
//! ```
//! use periodicsynth::{sin, synth};
//! let samp = synth(sin, &mut 440u64, 8000);
//! ```
use vstd::prelude::*;
use crate::rational::ratio;

pub mod amplitude;
pub mod common;
pub mod laws;
pub mod rational;
pub mod time;
pub mod waveform;

pub use amplitude::{Amplitude, AmplitudeView, Ratio};
pub use common::{cos, null, saw, sin, sqr, tri};
pub use time::TimePos;
pub use waveform::Waveform;

verus! {

/// Marks the sample number `k` in the facts that the loop of [`synth`] keeps.
spec fn nth(k: int) -> bool {
    true
}

/// Synthesizes a signal of `n` samples with a custom amplitude function.
///
/// `func` is called once for each sample, in order of time: call number `k`
/// is given the time position `k / n` and the caller's `data`, as the call
/// before it left them. The samples come back in the order of the calls.
/// With `n` zero nothing is called and `data` is left as it was.
///
/// In the contract, `calls` holds the arguments of the `n` calls in order:
/// the time position, and `data` as the call finds it and leaves it. Its
/// last clause is for an amplitude function that never changes `data`:
/// every call then finds `data` as it was at the start.
pub fn synth<A, U, F>(func: F, data: &mut U, n: usize) -> (samples: Vec<A>) where
    F: Fn(TimePos, &mut U) -> A,

    requires
        forall|t: TimePos, d: &mut U|
            t.count() == n && t.index() < n ==> call_requires(func, (t, d)),
    ensures
        samples.len() == n,
        exists|calls: Seq<(TimePos, &mut U)>|
            {
                &&& calls.len() == n
                &&& forall|k: int|
                    #![trigger calls[k]]
                    #![trigger samples[k]]
                    0 <= k < n ==> {
                        &&& call_ensures(func, calls[k], samples[k])
                        &&& calls[k].0.index() == k
                        &&& calls[k].0.count() == n
                        &&& *calls[k].1 == if k == 0 {
                            *old(data)
                        } else {
                            *final(calls[k - 1].1)
                        }
                    }
                &&& *final(data) == if n == 0 {
                    *old(data)
                } else {
                    *final(calls[n - 1].1)
                }
                &&& (forall|t: TimePos, d: &mut U, a: A|
                    call_ensures(func, (t, d), a) ==> *final(d) == *d) ==> forall|k: int|
                    0 <= k < n ==> *(#[trigger] calls[k]).1 == *old(data)
            },
{
    let mut samples: Vec<A> = Vec::with_capacity(n);
    // What `data` has gone through: `states[k]` before call `k`, `states[k + 1]` after it.
    let ghost mut states: Seq<U> = seq![*data];
    let mut i: usize = 0;
    while i < n
        invariant
            i <= n,
            samples.len() == i,
            states.len() == i + 1,
            states[0] == *old(data),
            states[i as int] == *data,
            (forall|t: TimePos, d: &mut U, a: A| call_ensures(func, (t, d), a) ==> *final(d) == *d)
                ==> forall|k: int| 0 <= k <= i ==> #[trigger] states[k] == *old(data),
            forall|k: int|
                #![trigger nth(k)]
                nth(k) && 0 <= k < i ==> exists|t: TimePos, d: &mut U|
                    #![trigger call_ensures(func, (t, d), samples[k])]
                    {
                        &&& t.index() == k
                        &&& t.count() == n
                        &&& *d == states[k]
                        &&& *final(d) == states[k + 1]
                        &&& call_ensures(func, (t, d), samples[k])
                    },
            forall|t: TimePos, d: &mut U|
                t.count() == n && t.index() < n ==> call_requires(func, (t, d)),
        decreases n - i,
    {
        let t = TimePos::at(i, n);
        let amplitude = func(t, data);
        let ghost earlier = samples@;
        let ghost passed = states;
        samples.push(amplitude);
        i = i + 1;
        proof {
            states = states.push(*data);
            assert forall|k: int| #![trigger nth(k)] nth(k) && 0 <= k < i implies exists|
                t: TimePos,
                d: &mut U,
            |
                #![trigger call_ensures(func, (t, d), samples[k])]
                {
                    &&& t.index() == k
                    &&& t.count() == n
                    &&& *d == states[k]
                    &&& *final(d) == states[k + 1]
                    &&& call_ensures(func, (t, d), samples[k])
                } by {
                if k < i - 1 {
                    assert(samples[k] == earlier[k]);
                    assert(states[k] == passed[k] && states[k + 1] == passed[k + 1]);
                } else {
                    assert(samples[k] == amplitude);
                }
            }
        }
    }
    proof {
        let calls = Seq::new(
            n as nat,
            |k: int|
                choose|call: (TimePos, &mut U)|
                    {
                        &&& call.0.index() == k
                        &&& call.0.count() == n
                        &&& *call.1 == states[k]
                        &&& *final(call.1) == states[k + 1]
                        &&& call_ensures(func, call, samples[k])
                    },
        );
        assert forall|k: int| 0 <= k < n implies {
            &&& call_ensures(func, #[trigger] calls[k], samples[k])
            &&& calls[k].0.index() == k
            &&& calls[k].0.count() == n
            &&& *calls[k].1 == states[k]
            &&& *final(calls[k].1) == states[k + 1]
        } by {
            assert(nth(k));
            let (t, d) = choose|t: TimePos, d: &mut U|
                {
                    &&& t.index() == k
                    &&& t.count() == n
                    &&& *d == states[k]
                    &&& *final(d) == states[k + 1]
                    &&& call_ensures(func, (t, d), samples[k])
                };
            assert(call_ensures(func, (t, d), samples[k]));
        }
        assert(calls.len() == n);
    }
    samples
}

/// Synthesizes a signal of a given waveform and frequency into `samples`,
/// one sample for each element that it holds.
///
/// The time position of a sample is its index over the length of `samples`,
/// so an empty sequence is left empty and nothing is divided by zero.
pub fn synth_into(samples: &mut Vec<Amplitude>, kind: Waveform, freq: u64)
    ensures
        final(samples).len() == old(samples).len(),
        forall|k: int|
            0 <= k < old(samples).len() ==> {
                &&& (#[trigger] final(samples)[k])@ == kind.amplitude(
                    ratio(k, old(samples).len() as int),
                    freq as real,
                )
                &&& final(samples)[k].denominator() == kind.denominator(old(samples).len() as int)
                &&& final(samples)[k].denominator() > 0
            },
{
    let n = samples.len();
    let mut i: usize = 0;
    while i < n
        invariant
            i <= n,
            samples.len() == n,
            n == old(samples).len(),
            forall|k: int|
                0 <= k < i ==> {
                    &&& (#[trigger] samples[k])@ == kind.amplitude(ratio(k, n as int), freq as real)
                    &&& samples[k].denominator() == kind.denominator(n as int)
                    &&& samples[k].denominator() > 0
                },
        decreases n - i,
    {
        let t = TimePos::at(i, n);
        samples.set(i, kind.evaluate(t, freq));
        i = i + 1;
    }
}

} // verus!
