//! The moving factor: the number of 30-second steps since the epoch, as eight
//! big-endian bytes.

use vstd::arithmetic::div_mod::lemma_div_denominator;
use vstd::arithmetic::power::{lemma_pow0, lemma_pow_positive, pow};
use vstd::prelude::*;

verus! {

/// Length of one time step, in milliseconds.
pub const STEP_MILLIS: u128 = 30000;

/// The clock reported an instant before the epoch.
#[derive(Debug, Clone, Copy, PartialEq, Eq, Structural)]
pub struct ClockError;

/// Number of whole steps that have elapsed after `millis` milliseconds.
pub open spec fn step_count(millis: nat) -> nat {
    millis / 30000
}

/// Byte `i` of the counter for `steps`, byte 0 being the most significant.
/// Only the low 64 bits of `steps` are represented.
pub open spec fn counter_byte(steps: nat, i: int) -> u8 {
    ((steps as int / pow(256, (7 - i) as nat)) % 256) as u8
}

/// The eight counter bytes for `steps`, most significant first.
pub open spec fn counter_bytes(steps: nat) -> Seq<u8> {
    Seq::new(8, |i: int| counter_byte(steps, i))
}

/// Dropping the low byte of `steps / 256^k` gives `steps / 256^(k + 1)`.
proof fn lemma_next_byte(steps: nat, k: nat)
    ensures
        pow(256, k) > 0,
        (steps as int / pow(256, k)) / 256 == steps as int / pow(256, k + 1),
{
    lemma_pow_positive(256, k);
    lemma_div_denominator(steps as int, pow(256, k), 256);
    assert(pow(256, k + 1) == 256 * pow(256, k)) by {
        reveal(pow);
    }
    assert(pow(256, k) * 256 == 256 * pow(256, k)) by (nonlinear_arith);
}

/// The counter for the instant `millis` milliseconds after the epoch.
pub fn time_step_counter(millis: u128) -> (counter: [u8; 8])
    ensures
        counter@ == counter_bytes(step_count(millis as nat)),
{
    let steps: u128 = millis / STEP_MILLIS;
    let mut time: u128 = steps;
    let mut buffer: [u8; 8] = [0;8];
    proof {
        lemma_pow0(256);
    }
    for i in 0..8usize
        invariant
            time as int == steps as int / pow(256, i as nat),
            forall|j: int| 8 - i <= j < 8 ==> buffer@[j] == counter_byte(steps as nat, j),
    {
        let low: u128 = time & 0xff;
        assert(low == time % 256 && low < 256) by (bit_vector)
            requires
                low == time & 0xff,
        ;
        let rest: u128 = time >> 8;
        assert(rest == time / 256) by (bit_vector)
            requires
                rest == time >> 8,
        ;
        proof {
            lemma_next_byte(steps as nat, i as nat);
        }
        buffer[7 - i] = low as u8;
        time = rest;
    }
    assert(buffer@ =~= counter_bytes(step_count(millis as nat)));
    buffer
}

/// The outcome of one clock reading: the counter for the instant read, or
/// `ClockError` where the clock stood before the epoch (`None`).
pub fn counter_from_reading(reading: Option<u128>) -> (outcome: Result<[u8; 8], ClockError>)
    ensures
        match reading {
            Some(millis) => outcome matches Ok(counter)
                && counter@ == counter_bytes(step_count(millis as nat)),
            None => outcome == Err::<[u8; 8], ClockError>(ClockError),
        },
{
    match reading {
        Some(millis) => Ok(time_step_counter(millis)),
        None => Err(ClockError),
    }
}

/// Reads the system clock through `std::time::SystemTime::elapsed` on the Unix
/// epoch: the milliseconds elapsed since the epoch, or `None` where the clock
/// stands before it. Nothing is claimed of the value read.
#[verifier::external_body]
fn millis_since_epoch() -> (reading: Option<u128>) {
    match std::time::UNIX_EPOCH.elapsed() {
        Ok(elapsed) => Some(elapsed.as_millis()),
        Err(_) => None,
    }
}

/// The counter for `time_since_epoch`, given in milliseconds, or for the
/// current reading of the system clock where none is given.
///
/// With an explicit instant the call always succeeds. Without one it fails
/// exactly when the clock stands before the epoch.
pub fn get_time(time_since_epoch: Option<u128>) -> (outcome: Result<[u8; 8], ClockError>)
    ensures
        time_since_epoch matches Some(millis) ==> outcome matches Ok(counter)
            && counter@ == counter_bytes(step_count(millis as nat)),
        outcome matches Ok(counter) ==> exists|millis: u128|
            counter@ == counter_bytes(#[trigger] step_count(millis as nat)),
{
    match time_since_epoch {
        Some(millis) => Ok(time_step_counter(millis)),
        None => counter_from_reading(millis_since_epoch()),
    }
}

} // verus!
