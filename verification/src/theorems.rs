//! What sessions do to a board: the protocol shifts in what it is given,
//! reads back what the register holds, and leaves the relays alone while it
//! reads.

use vstd::prelude::*;

use crate::board::Board;
use crate::ch341a;
use crate::ch341a::Command;
use crate::ch341a::Request;
use crate::errors::Error;
use crate::errors::UsbError;
use crate::protocol;
use crate::session::Action;
use crate::session::Phase;
use crate::session::State;

verus! {

/// The register after the pulses for the first `n` relays of `status` have
/// been clocked into `shift`.
spec fn clocked(shift: u8, status: u8, n: nat) -> u8
    decreases n,
{
    if n == 0 {
        shift
    } else {
        let prior = clocked(shift, status, (n - 1) as nat);
        if protocol::relay_bit(status, (n - 1) as u8) {
            (prior << 1) | 1
        } else {
            prior << 1
        }
    }
}

/// The register after `n` clock pulses with the data line low.
spec fn drained(shift: u8, n: nat) -> u8
    decreases n,
{
    if n == 0 {
        shift
    } else {
        drained(shift, (n - 1) as nat) << 1
    }
}

/// The faults to come after `n` reads.
spec fn worn(glitches: u16, n: nat) -> u16
    decreases n,
{
    if n == 0 {
        glitches
    } else {
        worn(glitches, (n - 1) as nat) << 1
    }
}

/// The level of the read line when the register holds `shift`.
spec fn serial(shift: u8, glitches: u16) -> u8 {
    (shift ^ Board::faults(glitches)) & protocol::READ
}

/// The bits that `n` samples assemble from a register that held `shift`.
spec fn gathered(shift: u8, glitches: u16, n: nat) -> u8
    decreases n,
{
    if n == 0 {
        0
    } else {
        protocol::recorded(
            gathered(shift, glitches, (n - 1) as nat),
            (n - 1) as u8,
            serial(drained(shift, (n - 1) as nat), worn(glitches, (n - 1) as nat)),
        )
    }
}

/// Eight pulses replace the register by the pattern, and eight samples
/// read the register as it was, but for the faults, and empty it.
proof fn lemma_eight(shift: u8, status: u8, glitches: u16)
    ensures
        clocked(shift, status, 8) == status,
        drained(shift, 8) == 0,
        worn(glitches, 8) == glitches << 8,
        gathered(shift, glitches, 8) == shift ^ Board::faults(glitches),
{
    assert(clocked(shift, status, 8) == status) by (bit_vector);
    assert(drained(shift, 8) == 0) by (bit_vector);
    assert(worn(glitches, 8) == glitches << 8) by (bit_vector);
    assert(gathered(shift, glitches, 8) == shift ^ Board::faults(glitches)) by (bit_vector);
}

/// Which lines the words of the protocol raise.
proof fn lemma_lines()
    by (bit_vector)
    ensures
        0u8 & protocol::CLK == 0,
        0u8 & protocol::DATA == 0,
        0u8 & protocol::LATCH == 0,
        protocol::DATA & protocol::CLK == 0,
        protocol::DATA & protocol::DATA != 0,
        protocol::DATA & protocol::LATCH == 0,
        protocol::CLK & protocol::CLK != 0,
        protocol::CLK & protocol::DATA == 0,
        protocol::CLK & protocol::LATCH == 0,
        (protocol::CLK | protocol::DATA) & protocol::CLK != 0,
        (protocol::CLK | protocol::DATA) & protocol::DATA != 0,
        (protocol::CLK | protocol::DATA) & protocol::LATCH == 0,
        protocol::LATCH & protocol::CLK == 0,
        protocol::LATCH & protocol::DATA == 0,
        protocol::LATCH & protocol::LATCH != 0,
{
}

/// Only the read line of the input counts for a sample.
proof fn lemma_read_line(result: u8, i: u8, lines: u8, shift: u8, glitches: u16)
    ensures
        protocol::recorded(
            result,
            i,
            (Board { shift, latch: 0, lines, glitches }).input(),
        ) == protocol::recorded(result, i, serial(shift, glitches)),
{
    let x = shift ^ Board::faults(glitches);
    assert((((lines & !0x80u8) | (x & 0x80u8)) & 0x80u8 != 0) == ((x & 0x80u8) & 0x80u8 != 0))
        by (bit_vector);
}

/// Playing two scripts in a row is playing the one and then the other.
pub proof fn lemma_play_concat(board: Board, head: Seq<Request>, tail: Seq<Request>)
    ensures
        board.play(head + tail) == board.play(head).play(tail),
    decreases head.len(),
{
    if head.len() == 0 {
        assert(head + tail =~= tail);
    } else {
        assert((head + tail).skip(1) =~= head.skip(1) + tail);
        lemma_play_concat(board.served(head[0]), head.skip(1), tail);
    }
}

/// Playing a script of one request serves that request.
proof fn lemma_play_one(board: Board, request: Request)
    ensures
        board.play(seq![request]) == board.served(request),
{
    let script = seq![request];
    assert(script.skip(1).len() == 0);
    assert(board.served(script[0]).play(script.skip(1)) == board.served(request));
}

/// One pulse clocks one bit into the register and leaves the clock low.
proof fn lemma_play_pulse(board: Board, high: bool)
    requires
        board.lines & protocol::CLK == 0,
    ensures
        board.play(protocol::pulse(high)) == (Board {
            shift: if high {
                (board.shift << 1) | 1
            } else {
                board.shift << 1
            },
            latch: board.latch,
            lines: if high {
                protocol::DATA
            } else {
                0
            },
            glitches: board.glitches,
        }),
{
    lemma_lines();
    let script = protocol::pulse(high);
    let first = seq![script[0]];
    let second = seq![script[1]];
    let third = seq![script[2]];
    assert(script =~= first + second + third);
    lemma_play_concat(board, first + second, third);
    lemma_play_concat(board, first, second);
    lemma_play_one(board, script[0]);
    lemma_play_one(board.served(script[0]), script[1]);
    lemma_play_one(board.served(script[0]).served(script[1]), script[2]);
}

/// The pulses for the first `n` relays clock their bits into the register.
proof fn lemma_play_pulses(board: Board, status: u8, n: nat)
    requires
        board.lines & protocol::CLK == 0,
    ensures
        ({
            let after = board.play(protocol::pulses(status, n));
            &&& after.shift == clocked(board.shift, status, n)
            &&& after.latch == board.latch
            &&& after.glitches == board.glitches
            &&& after.lines & protocol::CLK == 0
        }),
    decreases n,
{
    if n == 0 {
        assert(protocol::pulses(status, n).len() == 0);
    } else {
        let head = protocol::pulses(status, (n - 1) as nat);
        let high = protocol::relay_bit(status, (n - 1) as u8);
        lemma_play_pulses(board, status, (n - 1) as nat);
        lemma_play_concat(board, head, protocol::pulse(high));
        lemma_play_pulse(board.play(head), high);
        lemma_lines();
    }
}

/// Shifting a pattern out puts it into the register, whatever the register
/// held and wherever the lines stood. The relays stay as they are.
pub proof fn shift_out_fills_register(board: Board, status: u8)
    ensures
        board.play(protocol::shift_out(status)) == (Board {
            shift: status,
            latch: board.latch,
            lines: 0,
            glitches: board.glitches,
        }),
{
    lemma_lines();
    lemma_eight(board.shift, status, board.glitches);
    let low = seq![protocol::output(0)];
    let pulses = protocol::pulses(status, 8);
    lemma_play_concat(board, low + pulses, low);
    lemma_play_concat(board, low, pulses);
    lemma_play_one(board, protocol::output(0));
    lemma_play_pulses(board.driven(0), status, 8);
    lemma_play_one(board.play(low).play(pulses), protocol::output(0));
}

/// Latching a pattern puts it into the register and onto the relays.
pub proof fn latch_sets_relays(board: Board, status: u8)
    ensures
        board.play(protocol::latch(status)) == (Board {
            shift: status,
            latch: status,
            lines: 0,
            glitches: board.glitches,
        }),
{
    lemma_lines();
    let low = seq![protocol::output(0)];
    let shift = protocol::shift_out(status);
    let strobe = seq![protocol::output(protocol::LATCH)];
    assert(protocol::latch(status) =~= low + shift + strobe + low);
    lemma_play_concat(board, low + shift + strobe, low);
    lemma_play_concat(board, low + shift, strobe);
    lemma_play_concat(board, low, shift);
    lemma_play_one(board, protocol::output(0));
    shift_out_fills_register(board.driven(0), status);
    lemma_play_one(board.play(low).play(shift), protocol::output(protocol::LATCH));
    lemma_play_one(board.play(low).play(shift).play(strobe), protocol::output(0));
}

/// The lengths of the scripts, and where their reads lie, for every phase.
proof fn lemma_scripts(state: State)
    ensures
        state.script().len() <= 33,
        state.phase.samples() ==> state.script() == protocol::sampling(),
        !state.phase.samples() ==> forall|k: int|
            0 <= k < state.script().len() ==> !((#[trigger] state.script()[k]) is Read),
{
    protocol::lemma_sampling();
    protocol::lemma_shift_out(state.bits);
    match state.phase {
        Phase::Latching { status, .. } => protocol::lemma_latch(status),
        Phase::Inverting { old } => protocol::lemma_shift_out(!old),
        Phase::Reverting { old } => protocol::lemma_shift_out(old),
        _ => {},
    }
}

/// A phase that only writes plays the rest of its script to the board and
/// turns to the next phase.
proof fn lemma_writes(state: State, board: Board)
    requires
        !(state.phase is Finished),
        !state.phase.samples(),
        state.cursor < state.script().len(),
    ensures
        board.run(state) == board.play(state.script().skip(state.cursor as int)).run(
            state.turn(),
        ),
    decreases state.script().len() - state.cursor,
{
    lemma_scripts(state);
    let script = state.script();
    let request = script[state.cursor as int];
    let rest = script.skip(state.cursor as int);
    assert(rest[0] == request);
    assert(rest.skip(1) =~= script.skip(state.cursor + 1));
    let next = state.next(Ok(Board::count(request)), board.input());
    assert(next == state.advance());
    assert(board.run(state) == board.served(request).run(next));
    assert(rest.len() > 0);
    assert(board.play(rest) == board.served(request).play(rest.skip(1)));
    if state.cursor + 1 < script.len() {
        assert(next.turn() == state.turn());
        assert(next.script() == script);
        lemma_writes(next, board.served(request));
    } else {
        assert(rest.skip(1).len() == 0);
        assert(board.served(request).play(rest.skip(1)) == board.served(request));
        assert(next == state.turn());
    }
}

/// From its `i`-th sample on, a clocking-out assembles what the register
/// held, but for the faults, empties the register and turns to the next
/// phase.
proof fn lemma_samples_run(state: State, board: Board, shift: u8, glitches: u16, i: nat)
    requires
        state.phase.samples(),
        i < 8,
        state.cursor == 1 + 4 * i,
        state.bits == gathered(shift, glitches, i),
        board.shift == drained(shift, i),
        board.glitches == worn(glitches, i),
        board.lines & protocol::CLK == 0,
    ensures
        board.run(state) == (Board {
            shift: drained(shift, 8),
            latch: board.latch,
            lines: 0,
            glitches: worn(glitches, 8),
        }).run(
            (State { phase: state.phase, cursor: 0, bits: gathered(shift, glitches, 8) }).turn(),
        ),
    decreases 8 - i,
{
    lemma_lines();
    lemma_scripts(state);
    protocol::lemma_sampling();
    let script = state.script();
    let c = state.cursor as int;
    let k: int = 4 * (i as int);
    let j: nat = i + 1;
    assert(script[1 + k] == protocol::sample()[k % 4]);
    assert(script[1 + (k + 1)] == protocol::sample()[(k + 1) % 4]);
    assert(script[1 + (k + 2)] == protocol::sample()[(k + 2) % 4]);
    assert(script[1 + (k + 3)] == protocol::sample()[(k + 3) % 4]);
    // the query
    let s1 = state.next(Ok(Board::count(script[c])), board.input());
    let b1 = board.served(script[c]);
    assert(board.run(state) == b1.run(s1));
    assert(s1 == (State { phase: state.phase, cursor: (c + 1) as usize, bits: state.bits }));
    assert(b1 == board);
    // the read
    let s2 = s1.next(Ok(Board::count(script[c + 1])), b1.input());
    let b2 = b1.served(script[c + 1]);
    assert(b1.run(s1) == b2.run(s2));
    assert(State::sample_index(s1.cursor) == i);
    lemma_read_line(state.bits, i as u8, board.lines, board.shift, board.glitches);
    assert(s2 == (State {
        phase: state.phase,
        cursor: (c + 2) as usize,
        bits: gathered(shift, glitches, j),
    }));
    // the clock rises
    let s3 = s2.next(Ok(Board::count(script[c + 2])), b2.input());
    let b3 = b2.served(script[c + 2]);
    assert(b2.run(s2) == b3.run(s3));
    assert(s3 == (State { phase: state.phase, cursor: (c + 3) as usize, bits: s2.bits }));
    assert(b3 == (Board {
        shift: drained(shift, j),
        latch: board.latch,
        lines: protocol::CLK,
        glitches: worn(glitches, j),
    }));
    // the clock falls
    let s4 = s3.next(Ok(Board::count(script[c + 3])), b3.input());
    let b4 = b3.served(script[c + 3]);
    assert(b3.run(s3) == b4.run(s4));
    assert(b4 == (Board {
        shift: drained(shift, j),
        latch: board.latch,
        lines: 0,
        glitches: worn(glitches, j),
    }));
    if i < 7 {
        assert(s4 == (State { phase: state.phase, cursor: (c + 4) as usize, bits: s2.bits }));
        lemma_samples_run(s4, b4, shift, glitches, j);
    } else {
        assert(s4 == s3.turn());
    }
}

/// A clocking-out reads the register as it is, but for the faults, and
/// leaves it empty.
proof fn lemma_clock_out(state: State, board: Board)
    requires
        state.phase.samples(),
        state.cursor == 0,
        state.bits == 0,
    ensures
        board.run(state) == (Board {
            shift: 0,
            latch: board.latch,
            lines: 0,
            glitches: board.glitches << 8,
        }).run(
            (State {
                phase: state.phase,
                cursor: 0,
                bits: board.shift ^ Board::faults(board.glitches),
            }).turn(),
        ),
{
    lemma_lines();
    lemma_scripts(state);
    protocol::lemma_sampling();
    lemma_eight(board.shift, 0, board.glitches);
    let request = state.script()[0];
    let s1 = state.next(Ok(Board::count(request)), board.input());
    let b1 = board.served(request);
    assert(board.run(state) == b1.run(s1));
    assert(s1 == (State { phase: state.phase, cursor: 1, bits: 0 }));
    lemma_samples_run(s1, b1, board.shift, board.glitches, 0);
}

/// A phase that shifts a pattern out leaves it in the register and turns
/// to the next phase.
proof fn lemma_shift_phase(state: State, board: Board, status: u8)
    requires
        !(state.phase is Finished),
        !state.phase.samples(),
        state.cursor == 0,
        state.script() == protocol::shift_out(status),
    ensures
        board.run(state) == (Board {
            shift: status,
            latch: board.latch,
            lines: 0,
            glitches: board.glitches,
        }).run(state.turn()),
{
    protocol::lemma_shift_out(status);
    lemma_writes(state, board);
    assert(state.script().skip(0) =~= state.script());
    shift_out_fills_register(board, status);
}

/// What the faults do to patterns.
proof fn lemma_faults(pattern: u8, glitches: u16)
    ensures
        Board::faults(0) == 0,
        0u16 << 8 == 0,
        Board::faults(glitches) == 0 ==> pattern ^ Board::faults(glitches) == pattern,
        Board::faults(glitches) != 0 ==> pattern ^ Board::faults(glitches) != pattern,
        (glitches << 8) << 8 == 0,
{
    assert(((0u16 >> 8) as u8) == 0) by (bit_vector);
    assert(0u16 << 8 == 0) by (bit_vector);
    let f = Board::faults(glitches);
    assert(f == 0 ==> pattern ^ f == pattern) by (bit_vector);
    assert(f != 0 ==> pattern ^ f != pattern) by (bit_vector);
    assert((glitches << 8) << 8 == 0) by (bit_vector);
}

/// Setting the relays, on any board.
///
/// The pattern always reaches the relays. Without verification the
/// operation succeeds. With verification it succeeds if no fault falls
/// into the eight samples, and fails with `VerificationFailed` if one does;
/// the register is left with what was read.
pub proof fn set_status_runs(board: Board, status: u8, verify: bool)
    ensures
        board.run(State::set_status(status, verify)) == (
            if !verify || Board::faults(board.glitches) == 0 {
                Ok::<Option<u8>, Error>(None)
            } else {
                Err::<Option<u8>, Error>(Error::VerificationFailed)
            },
            Board {
                shift: if verify {
                    status ^ Board::faults(board.glitches)
                } else {
                    status
                },
                latch: status,
                lines: 0,
                glitches: if verify {
                    board.glitches << 8
                } else {
                    board.glitches
                },
            },
        ),
{
    let begun = State::set_status(status, verify);
    protocol::lemma_latch(status);
    lemma_writes(begun, board);
    assert(begun.script().skip(0) =~= begun.script());
    latch_sets_relays(board, status);
    let latched = Board { shift: status, latch: status, lines: 0, glitches: board.glitches };
    assert(board.run(begun) == latched.run(begun.turn()));
    if verify {
        let verifying = begun.turn();
        lemma_clock_out(verifying, latched);
        let read = status ^ Board::faults(board.glitches);
        let settling = State { phase: Phase::Settling { status }, cursor: 0, bits: read };
        let emptied = Board { shift: 0, latch: status, lines: 0, glitches: board.glitches << 8 };
        assert(latched.run(verifying) == emptied.run(settling));
        lemma_shift_phase(settling, emptied, read);
        lemma_faults(status, board.glitches);
    }
}

/// Reading the relays, on any board.
///
/// The relays stay as they are. The pattern read is the register, but for
/// the faults that fall into the first eight samples, and it is what the
/// register holds in the end. The operation fails with `BadDevice` if a
/// fault falls into the second eight samples.
pub proof fn get_status_runs(board: Board)
    ensures
        board.run(State::get_status()) == (
            if Board::late_faults(board.glitches) == 0 {
                Ok::<Option<u8>, Error>(Some(board.shift ^ Board::faults(board.glitches)))
            } else {
                Err::<Option<u8>, Error>(Error::BadDevice)
            },
            Board {
                shift: board.shift ^ Board::faults(board.glitches),
                latch: board.latch,
                lines: 0,
                glitches: 0,
            },
        ),
{
    let old = board.shift ^ Board::faults(board.glitches);
    let latch = board.latch;
    let later = board.glitches << 8;
    // the register is clocked out
    let reading = State::get_status();
    lemma_clock_out(reading, board);
    let restoring = State { phase: Phase::Restoring, cursor: 0, bits: old };
    let b1 = Board { shift: 0, latch, lines: 0, glitches: later };
    assert(board.run(reading) == b1.run(restoring));
    // and shifted back in
    lemma_shift_phase(restoring, b1, old);
    let inverting = State { phase: Phase::Inverting { old }, cursor: 0, bits: old };
    let b2 = Board { shift: old, latch, lines: 0, glitches: later };
    assert(b1.run(restoring) == b2.run(inverting));
    // the complement is shifted in
    lemma_shift_phase(inverting, b2, !old);
    let rereading = State { phase: Phase::Rereading { old }, cursor: 0, bits: 0 };
    let b3 = Board { shift: !old, latch, lines: 0, glitches: later };
    assert(b2.run(inverting) == b3.run(rereading));
    // clocked out
    lemma_clock_out(rereading, b3);
    lemma_faults(old, board.glitches);
    lemma_faults(!old, later);
    let second = !old ^ Board::faults(later);
    let rerestoring = State { phase: Phase::Rerestoring { old }, cursor: 0, bits: second };
    let b4 = Board { shift: 0, latch, lines: 0, glitches: 0 };
    assert(b3.run(rereading) == b4.run(rerestoring));
    // and shifted back in
    lemma_shift_phase(rerestoring, b4, second);
    let reverting = State { phase: Phase::Reverting { old }, cursor: 0, bits: second };
    let b5 = Board { shift: second, latch, lines: 0, glitches: 0 };
    assert(b4.run(rerestoring) == b5.run(reverting));
    // the first pattern is shifted in again
    lemma_shift_phase(reverting, b5, old);
}

/// Resetting the device succeeds and leaves the model as it is.
pub proof fn reset_runs(board: Board)
    ensures
        board.run(State::reset()) == (Ok::<Option<u8>, Error>(None), board),
{
    let begun = State::reset();
    let next = begun.next(Ok(Board::count(Request::Reset)), board.input());
    assert(begun.script()[0] == Request::Reset);
    assert(board.run(begun) == board.run(next));
}

/// What is shifted out is what is read back: on a sound board, reading the
/// relays right after `status` has been shifted out gives `status`.
pub proof fn shift_out_then_read_back(board: Board, status: u8)
    requires
        board.sound(),
    ensures
        board.play(protocol::shift_out(status)).run(State::get_status()).0 == Ok::<
            Option<u8>,
            Error,
        >(Some(status)),
{
    shift_out_fills_register(board, status);
    get_status_runs(board.play(protocol::shift_out(status)));
    lemma_faults(status, 0);
}

/// Setting the relays with verification succeeds exactly if the board reads
/// back what was written; it fails with `VerificationFailed` otherwise.
pub proof fn set_status_succeeds_iff_read_back(board: Board, status: u8)
    ensures
        ({
            let (outcome, after) = board.run(State::set_status(status, true));
            &&& after.latch == status
            &&& outcome is Ok <==> after.shift == status
            &&& outcome is Err ==> outcome == Err::<Option<u8>, Error>(Error::VerificationFailed)
        }),
{
    set_status_runs(board, status, true);
    lemma_faults(status, board.glitches);
}

/// Reading the relays leaves the relays as they are, on any board, and the
/// register as it is on a sound one.
pub proof fn get_status_keeps_relays(board: Board)
    ensures
        board.run(State::get_status()).1.latch == board.latch,
        board.sound() ==> board.run(State::get_status()) == (
            Ok::<Option<u8>, Error>(Some(board.shift)),
            Board { shift: board.shift, latch: board.latch, lines: 0, glitches: 0 },
        ),
{
    get_status_runs(board);
    lemma_faults(board.shift, board.glitches);
}

/// On a sound board, the relays that were set are the relays that are read.
pub proof fn set_then_get(board: Board, status: u8, verify: bool)
    requires
        board.sound(),
    ensures
        ({
            let (set, after) = board.run(State::set_status(status, verify));
            let (got, last) = after.run(State::get_status());
            &&& set == Ok::<Option<u8>, Error>(None)
            &&& got == Ok::<Option<u8>, Error>(Some(status))
            &&& last.latch == status
        }),
{
    set_status_runs(board, status, verify);
    lemma_faults(status, 0);
    let after = board.run(State::set_status(status, verify)).1;
    get_status_runs(after);
}

/// A failed transfer ends a session with the error of the transport,
/// whatever the request was.
pub proof fn failed_transfer_ends_session(state: State, err: UsbError, first: u8)
    requires
        !(state.phase is Finished),
    ensures
        state.next(Err(err), first).action() == Action::Done(Err(Error::Usb(err))),
{
}

/// A read that reports more bytes than the buffer holds ends a session with
/// `UnsafeRead`, whatever the buffer holds.
pub proof fn oversized_read_ends_session(state: State, len: usize, first: u8)
    requires
        state.action() matches Action::Request(request) && request is Read,
        len > ch341a::READ_BUF_SIZE,
    ensures
        state.next(Ok(len), first).action() == Action::Done(Err(Error::UnsafeRead)),
{
}

/// A session that is over takes no more answers.
pub proof fn finished_session_stays(state: State, result: Result<usize, UsbError>, first: u8)
    requires
        state.phase is Finished,
    ensures
        state.next(result, first) == state,
{
}

/// The words that the protocol puts on the output lines: all lines low, the
/// data line, the clock with or without the data line, and the latch alone.
pub open spec fn protocol_word(word: u8) -> bool {
    ||| word == 0
    ||| word == protocol::DATA
    ||| word == protocol::CLK | protocol::DATA
    ||| word == protocol::CLK
    ||| word == protocol::LATCH
}

/// Every request of every phase is one of the protocol: a write of a
/// protocol word or of the query, to the bulk-out endpoint; the read from
/// the bulk-in endpoint; or the reset, which only a reset asks for.
pub proof fn sessions_keep_to_the_protocol(state: State, k: int)
    requires
        0 <= k < state.script().len(),
    ensures
        match state.script()[k] {
            Request::Write { command: Command::SetOutput(word), .. } => state.script()[k]
                == protocol::output(word) && protocol_word(word),
            Request::Write { command: Command::GetInput, .. } => state.script()[k]
                == protocol::query(),
            Request::Read { .. } => state.script()[k] == ch341a::read_of(),
            Request::Reset => state.phase is Resetting,
        },
{
    protocol::lemma_sampling();
    match state.phase {
        Phase::Latching { status, .. } => {
            protocol::lemma_latch(status);
            if 1 <= k < 27 {
                lemma_shift_out_words(status, k - 1);
                assert(protocol::latch(status)[1 + (k - 1)] == protocol::shift_out(status)[k - 1]);
            }
        },
        Phase::Settling { .. } | Phase::Restoring | Phase::Rerestoring { .. } => {
            protocol::lemma_shift_out(state.bits);
            lemma_shift_out_words(state.bits, k);
        },
        Phase::Inverting { old } => {
            protocol::lemma_shift_out(!old);
            lemma_shift_out_words(!old, k);
        },
        Phase::Reverting { old } => {
            protocol::lemma_shift_out(old);
            lemma_shift_out_words(old, k);
        },
        Phase::Verifying { .. } | Phase::Reading | Phase::Rereading { .. } => {
            if 1 <= k {
                assert(protocol::sampling()[1 + (k - 1)] == protocol::sample()[(k - 1) % 4]);
            }
        },
        Phase::Resetting => {},
        Phase::Finished(_) => {},
    }
}

/// Shifting a pattern out writes protocol words only.
proof fn lemma_shift_out_words(status: u8, k: int)
    requires
        0 <= k < 26,
    ensures
        protocol::shift_out(status).len() == 26,
        exists|word: u8|
            protocol::shift_out(status)[k] == protocol::output(word) && protocol_word(word),
{
    protocol::lemma_shift_out(status);
    let script = protocol::shift_out(status);
    if 1 <= k < 25 {
        let j = k - 1;
        let pulse = protocol::pulse(protocol::relay_bit(status, (j / 3) as u8));
        assert(script[1 + j] == pulse[j % 3]);
        if protocol::relay_bit(status, (j / 3) as u8) {
            if j % 3 == 1 {
                assert(script[k] == protocol::output(protocol::CLK | protocol::DATA));
            } else {
                assert(script[k] == protocol::output(protocol::DATA));
            }
        } else {
            if j % 3 == 1 {
                assert(script[k] == protocol::output(protocol::CLK));
            } else {
                assert(script[k] == protocol::output(0));
            }
        }
    } else {
        assert(script[k] == protocol::output(0));
    }
}

} // verus!
