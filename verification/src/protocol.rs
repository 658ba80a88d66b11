//! The shift-register protocol: which line levels reach the A6275 driver, in
//! which order, to shift a relay pattern in and to clock the latched pattern
//! out.
//!
//! A script is the sequence of requests that one step of the protocol makes
//! of the transport. The driver samples its data line on the rising edge of
//! the clock, so the order of the requests in a script carries the meaning.

use vstd::prelude::*;

use crate::ch341a;
use crate::ch341a::Command;
use crate::ch341a::Request;

verus! {

/// Output line to the latch input of the driver.
pub const LATCH: u8 = 0x01;

/// Output line to the clock input of the driver.
pub const CLK: u8 = 0x08;

/// Output line to the serial input of the driver.
pub const DATA: u8 = 0x20;

/// Input line from the serial output of the driver.
pub const READ: u8 = 0x80;

/// The request that puts `word` on the output lines.
pub open spec fn output(word: u8) -> Request {
    ch341a::write_of(Command::SetOutput(word))
}

/// The request that asks the bridge for its input lines.
pub open spec fn query() -> Request {
    ch341a::write_of(Command::GetInput)
}

/// Whether the relay that is shifted `i`-th is active in `status`. Relay 8,
/// bit 7, goes first.
pub open spec fn relay_bit(status: u8, i: u8) -> bool {
    status & (1u8 << ((7 - i) as u8)) != 0
}

/// The three requests that clock one bit into the register: the data line
/// takes its level, the clock rises while the data line holds it, the clock
/// falls.
pub open spec fn pulse(high: bool) -> Seq<Request> {
    if high {
        seq![output(DATA), output(CLK | DATA), output(DATA)]
    } else {
        seq![output(0), output(CLK), output(0)]
    }
}

/// The pulses for the first `n` relays of `status` in shifting order.
pub open spec fn pulses(status: u8, n: nat) -> Seq<Request>
    decreases n,
{
    if n == 0 {
        Seq::empty()
    } else {
        pulses(status, (n - 1) as nat) + pulse(relay_bit(status, (n - 1) as u8))
    }
}

/// The script that shifts `status` into the register: all lines low, eight
/// pulses, all lines low.
pub open spec fn shift_out(status: u8) -> Seq<Request> {
    seq![output(0)] + pulses(status, 8) + seq![output(0)]
}

/// The script that makes `status` the pattern of the relays: latch low,
/// `status` shifted in, latch raised alone, all lines low.
pub open spec fn latch(status: u8) -> Seq<Request> {
    seq![output(0)] + shift_out(status) + seq![output(LATCH), output(0)]
}

/// The four requests that take one sample: ask for the input lines, fetch
/// the answer, and pulse the clock to bring the next bit to the serial
/// output.
pub open spec fn sample() -> Seq<Request> {
    seq![query(), ch341a::read_of(), output(CLK), output(0)]
}

/// The requests for `n` samples in a row.
pub open spec fn samples(n: nat) -> Seq<Request>
    decreases n,
{
    if n == 0 {
        Seq::empty()
    } else {
        samples((n - 1) as nat) + sample()
    }
}

/// The script that clocks the register out: all lines low, then eight
/// samples.
pub open spec fn sampling() -> Seq<Request> {
    seq![output(0)] + samples(8)
}

/// What `result` becomes when the `i`-th sample reads `input`: the bit of
/// the relay that is shifted `i`-th is set if the serial output is high.
pub open spec fn recorded(result: u8, i: u8, input: u8) -> u8 {
    if input & READ != 0 {
        result | (1u8 << ((7 - i) as u8))
    } else {
        result
    }
}

/// The pulses lie in the script three by three, in shifting order.
pub proof fn lemma_pulses(status: u8, n: nat)
    requires
        n <= 8,
    ensures
        pulses(status, n).len() == 3 * n,
        forall|k: int|
            0 <= k < 3 * n ==> #[trigger] pulses(status, n)[k] == pulse(
                relay_bit(status, (k / 3) as u8),
            )[k % 3],
    decreases n,
{
    if n > 0 {
        lemma_pulses(status, (n - 1) as nat);
        let head = pulses(status, (n - 1) as nat);
        let tail = pulse(relay_bit(status, (n - 1) as u8));
        assert(tail.len() == 3);
        assert forall|k: int| 0 <= k < 3 * n implies #[trigger] pulses(status, n)[k] == pulse(
            relay_bit(status, (k / 3) as u8),
        )[k % 3] by {
            if k < 3 * (n - 1) {
                assert(pulses(status, n)[k] == head[k]);
            } else {
                assert(pulses(status, n)[k] == tail[k - 3 * (n - 1)]);
                assert(k / 3 == n - 1);
                assert(k % 3 == k - 3 * (n - 1));
            }
        }
    }
}

/// The samples lie in the script four by four.
pub proof fn lemma_samples(n: nat)
    ensures
        samples(n).len() == 4 * n,
        forall|k: int| 0 <= k < 4 * n ==> #[trigger] samples(n)[k] == sample()[k % 4],
    decreases n,
{
    if n > 0 {
        lemma_samples((n - 1) as nat);
        let head = samples((n - 1) as nat);
        assert(sample().len() == 4);
        assert forall|k: int| 0 <= k < 4 * n implies #[trigger] samples(n)[k] == sample()[k
            % 4] by {
            if k < 4 * (n - 1) {
                assert(samples(n)[k] == head[k]);
            } else {
                assert(samples(n)[k] == sample()[k - 4 * (n - 1)]);
                assert(k % 4 == k - 4 * (n - 1));
            }
        }
    }
}

/// The layout of the script that shifts a pattern in: twenty-six writes.
pub proof fn lemma_shift_out(status: u8)
    ensures
        shift_out(status).len() == 26,
        shift_out(status)[0] == output(0),
        shift_out(status)[25] == output(0),
        forall|k: int|
            0 <= k < 24 ==> #[trigger] shift_out(status)[1 + k] == pulse(
                relay_bit(status, (k / 3) as u8),
            )[k % 3],
        forall|k: int| 0 <= k < 26 ==> (#[trigger] shift_out(status)[k]) is Write,
{
    lemma_pulses(status, 8);
    let script = shift_out(status);
    assert forall|k: int| 0 <= k < 24 implies #[trigger] script[1 + k] == pulse(
        relay_bit(status, (k / 3) as u8),
    )[k % 3] by {
        assert(script[1 + k] == pulses(status, 8)[k]);
    }
    assert forall|k: int| 0 <= k < 26 implies (#[trigger] script[k]) is Write by {
        if 1 <= k < 25 {
            let j = k - 1;
            assert(script[1 + j] == pulse(relay_bit(status, (j / 3) as u8))[j % 3]);
        }
    }
}

/// The layout of the script that latches a pattern: twenty-nine writes.
pub proof fn lemma_latch(status: u8)
    ensures
        latch(status).len() == 29,
        latch(status)[0] == output(0),
        forall|k: int| 0 <= k < 26 ==> #[trigger] latch(status)[1 + k] == shift_out(status)[k],
        latch(status)[27] == output(LATCH),
        latch(status)[28] == output(0),
        forall|k: int| 0 <= k < 29 ==> (#[trigger] latch(status)[k]) is Write,
{
    lemma_shift_out(status);
    let script = latch(status);
    assert forall|k: int| 0 <= k < 29 implies (#[trigger] script[k]) is Write by {
        if 1 <= k < 27 {
            assert(script[1 + (k - 1)] == shift_out(status)[k - 1]);
        }
    }
}

/// The layout of the script that clocks the register out: thirty-three
/// requests, of which those at 2, 6, .., 30 are the reads.
pub proof fn lemma_sampling()
    ensures
        sampling().len() == 33,
        sampling()[0] == output(0),
        forall|k: int| 0 <= k < 32 ==> #[trigger] sampling()[1 + k] == sample()[k % 4],
        forall|k: int| 0 <= k < 33 ==> ((#[trigger] sampling()[k]) is Read <==> k % 4 == 2),
{
    lemma_samples(8);
    let script = sampling();
    assert forall|k: int| 0 <= k < 32 implies #[trigger] script[1 + k] == sample()[k % 4] by {
        assert(script[1 + k] == samples(8)[k]);
    }
    assert forall|k: int| 0 <= k < 33 implies ((#[trigger] script[k]) is Read <==> k % 4
        == 2) by {
        if 1 <= k {
            let j = k - 1;
            assert(script[1 + j] == sample()[j % 4]);
        }
    }
}

/// Appends the request that puts `word` on the output lines.
pub fn set_lines(script: &mut Vec<Request>, word: u8)
    ensures
        final(script)@ == old(script)@.push(output(word)),
{
    script.push(ch341a::write(Command::SetOutput(word)));
}

/// Appends the script that shifts `status` into the register, relay 8 first.
pub fn shift_out_bits(script: &mut Vec<Request>, status: u8)
    ensures
        final(script)@ == old(script)@ + shift_out(status),
{
    set_lines(script, 0);  // all lines low
    let mut i: u8 = 0;
    while i < 8
        invariant
            i <= 8,
            script@ == old(script)@ + seq![output(0)] + pulses(status, i as nat),
        decreases 8 - i,
    {
        let ghost before = script@;
        if status & (1u8 << (7 - i)) != 0 {
            // relay on
            set_lines(script, DATA);  // data high
            set_lines(script, CLK | DATA);  // clock high
            set_lines(script, DATA);  // clock low
        } else {
            // relay off
            set_lines(script, 0);  // data low
            set_lines(script, CLK);  // clock high
            set_lines(script, 0);  // clock low
        }
        assert(script@ =~= before + pulse(relay_bit(status, i)));
        i += 1;
        assert(script@ =~= old(script)@ + seq![output(0)] + pulses(status, i as nat));
    }
    set_lines(script, 0);  // all lines low
    assert(script@ =~= old(script)@ + shift_out(status));
}

/// The script that makes `status` the pattern of the relays.
pub fn latch_script(status: u8) -> (script: Vec<Request>)
    ensures
        script@ == latch(status),
{
    let mut script: Vec<Request> = Vec::new();
    set_lines(&mut script, 0);  // latch low
    shift_out_bits(&mut script, status);
    set_lines(&mut script, LATCH);  // latch high
    set_lines(&mut script, 0);  // all lines low
    assert(script@ =~= latch(status));
    script
}

/// The script that shifts `status` into the register.
pub fn shift_out_script(status: u8) -> (script: Vec<Request>)
    ensures
        script@ == shift_out(status),
{
    let mut script: Vec<Request> = Vec::new();
    shift_out_bits(&mut script, status);
    assert(script@ =~= shift_out(status));
    script
}

/// The script that clocks the register out.
pub fn sampling_script() -> (script: Vec<Request>)
    ensures
        script@ == sampling(),
{
    let mut script: Vec<Request> = Vec::new();
    set_lines(&mut script, 0);  // all lines low
    let mut i: u8 = 0;
    while i < 8
        invariant
            i <= 8,
            script@ == seq![output(0)] + samples(i as nat),
        decreases 8 - i,
    {
        let ghost before = script@;
        script.push(ch341a::write(Command::GetInput));
        script.push(ch341a::read());
        set_lines(&mut script, CLK);  // clock high
        set_lines(&mut script, 0);  // clock low
        assert(script@ =~= before + sample());
        i += 1;
        assert(script@ =~= seq![output(0)] + samples(i as nat));
    }
    script
}

/// Records the `i`-th sample in `result`.
pub fn record_sample(result: u8, i: u8, input_state: u8) -> (updated: u8)
    requires
        i < 8,
    ensures
        updated == recorded(result, i, input_state),
{
    if (input_state & READ) != 0 {
        result | (1u8 << (7 - i))
    } else {
        result
    }
}

} // verus!
