//! One operation on an open board, run as a state machine.
//!
//! A session performs no I/O. It names the next request to make of the USB
//! transport, takes what the transport answered, and moves on; the first
//! failed transfer ends it with that failure. The caller owns the handle and
//! makes the transfers.

use vstd::prelude::*;

use crate::ch341a;
use crate::ch341a::Request;
use crate::ch341a::READ_BUF_SIZE;
use crate::errors::Error;
use crate::errors::UsbError;
use crate::protocol;

verus! {

/// Where an operation stands.
#[derive(Debug, Clone, Copy, PartialEq, Eq)]
pub enum Phase {
    /// Setting the relays: `status` is shifted in and latched.
    Latching { status: u8, verify: bool },
    /// Setting the relays: the register is clocked out to check `status`.
    Verifying { status: u8 },
    /// Setting the relays: what was clocked out is shifted back in.
    Settling { status: u8 },
    /// Reading the relays: the register is clocked out.
    Reading,
    /// Reading the relays: what was clocked out is shifted back in.
    Restoring,
    /// Self-test: the complement of `old`, the pattern read, is shifted in.
    Inverting { old: u8 },
    /// Self-test: the register is clocked out again.
    Rereading { old: u8 },
    /// Self-test: what was clocked out is shifted back in.
    Rerestoring { old: u8 },
    /// Self-test: `old` is shifted back in.
    Reverting { old: u8 },
    /// Resetting the device.
    Resetting,
    /// The operation is over, with this outcome.
    Finished(Result<Option<u8>, Error>),
}

/// What the caller of a session does next.
#[derive(Debug, Clone, Copy, PartialEq, Eq)]
pub enum Action {
    /// Make this request of the transport and hand the answer to the session.
    Request(Request),
    /// Stop: the operation is over, with this outcome. Reading the relays
    /// gives their pattern; the other operations give `None`.
    Done(Result<Option<u8>, Error>),
}

/// The state of a session: the phase, the place in the script of the phase,
/// and the bits of the sample in progress.
#[derive(Debug, Clone, Copy, PartialEq, Eq)]
pub struct State {
    /// The phase the operation is in.
    pub phase: Phase,
    /// The index, in the script of the phase, of the request that is out.
    pub cursor: usize,
    /// The pattern that the latest clocking-out has assembled so far.
    pub bits: u8,
}

impl Phase {
    /// How many phases can still follow this one.
    pub open spec fn rank(self) -> nat {
        match self {
            Phase::Latching { .. } => 3,
            Phase::Verifying { .. } => 2,
            Phase::Settling { .. } => 1,
            Phase::Reading => 6,
            Phase::Restoring => 5,
            Phase::Inverting { .. } => 4,
            Phase::Rereading { .. } => 3,
            Phase::Rerestoring { .. } => 2,
            Phase::Reverting { .. } => 1,
            Phase::Resetting => 1,
            Phase::Finished(_) => 0,
        }
    }

    /// Whether the phase clocks the register out.
    pub open spec fn samples(self) -> bool {
        self is Verifying || self is Reading || self is Rereading
    }
}

impl State {
    /// The state in which setting the relays to `status` begins.
    pub open spec fn set_status(status: u8, verify: bool) -> State {
        State { phase: Phase::Latching { status, verify }, cursor: 0, bits: 0 }
    }

    /// The state in which reading the relays begins.
    pub open spec fn get_status() -> State {
        State { phase: Phase::Reading, cursor: 0, bits: 0 }
    }

    /// The state in which resetting the device begins.
    pub open spec fn reset() -> State {
        State { phase: Phase::Resetting, cursor: 0, bits: 0 }
    }

    /// The requests of the current phase, in order.
    pub open spec fn script(self) -> Seq<Request> {
        match self.phase {
            Phase::Latching { status, .. } => protocol::latch(status),
            Phase::Verifying { .. } => protocol::sampling(),
            Phase::Settling { .. } => protocol::shift_out(self.bits),
            Phase::Reading => protocol::sampling(),
            Phase::Restoring => protocol::shift_out(self.bits),
            Phase::Inverting { old } => protocol::shift_out(!old),
            Phase::Rereading { .. } => protocol::sampling(),
            Phase::Rerestoring { .. } => protocol::shift_out(self.bits),
            Phase::Reverting { old } => protocol::shift_out(old),
            Phase::Resetting => seq![Request::Reset],
            Phase::Finished(_) => Seq::empty(),
        }
    }

    /// What the caller does next in this state.
    pub open spec fn action(self) -> Action {
        match self.phase {
            Phase::Finished(outcome) => Action::Done(outcome),
            _ => Action::Request(self.script()[self.cursor as int]),
        }
    }

    /// Whether the request that is out exists.
    pub open spec fn wf(self) -> bool {
        !(self.phase is Finished) ==> self.cursor < self.script().len()
    }

    /// The state that begins `phase`, with the bits kept.
    pub open spec fn enter(self, phase: Phase) -> State {
        State { phase, cursor: 0, bits: self.bits }
    }

    /// The state that begins a clocking-out in `phase`.
    pub open spec fn enter_sampling(self, phase: Phase) -> State {
        State { phase, cursor: 0, bits: 0 }
    }

    /// The state in which the operation is over with `outcome`.
    pub open spec fn finish(self, outcome: Result<Option<u8>, Error>) -> State {
        State { phase: Phase::Finished(outcome), cursor: 0, bits: self.bits }
    }

    /// The state after the last request of the phase has been answered.
    ///
    /// Setting the relays ends after the latch unless verification was asked
    /// for; then it ends after the register has been clocked out and shifted
    /// back in, with `VerificationFailed` unless the bits are those written.
    /// Reading the relays clocks the register out, shifts the bits back in,
    /// shifts their complement in, clocks that out and shifts it back in,
    /// shifts the first bits in again, and only then ends: with `BadDevice`
    /// unless the second reading was the complement of the first.
    pub open spec fn turn(self) -> State {
        match self.phase {
            Phase::Latching { status, verify } => if verify {
                self.enter_sampling(Phase::Verifying { status })
            } else {
                self.finish(Ok(None))
            },
            Phase::Verifying { status } => self.enter(Phase::Settling { status }),
            Phase::Settling { status } => if self.bits == status {
                self.finish(Ok(None))
            } else {
                self.finish(Err(Error::VerificationFailed))
            },
            Phase::Reading => self.enter(Phase::Restoring),
            Phase::Restoring => self.enter(Phase::Inverting { old: self.bits }),
            Phase::Inverting { old } => self.enter_sampling(Phase::Rereading { old }),
            Phase::Rereading { old } => self.enter(Phase::Rerestoring { old }),
            Phase::Rerestoring { old } => self.enter(Phase::Reverting { old }),
            Phase::Reverting { old } => if self.bits == !old {
                self.finish(Ok(Some(old)))
            } else {
                self.finish(Err(Error::BadDevice))
            },
            Phase::Resetting => self.finish(Ok(None)),
            Phase::Finished(outcome) => self.finish(outcome),
        }
    }

    /// The state after the request that is out has succeeded.
    pub open spec fn advance(self) -> State {
        if self.cursor + 1 < self.script().len() {
            State { phase: self.phase, cursor: (self.cursor + 1) as usize, bits: self.bits }
        } else {
            self.turn()
        }
    }

    /// Which sample of a clocking-out the request at `cursor` fetches.
    pub open spec fn sample_index(cursor: usize) -> u8 {
        ((cursor - 2) / 4) as u8
    }

    /// The state with the sample that the request that is out has fetched.
    pub open spec fn sampled(self, input: u8) -> State {
        State {
            phase: self.phase,
            cursor: self.cursor,
            bits: protocol::recorded(self.bits, Self::sample_index(self.cursor), input),
        }
    }

    /// The state after the transport has answered the request that is out.
    ///
    /// `result` is what the transfer returned and `first` the first byte of
    /// the read buffer. A failed transfer ends the operation with its error,
    /// and so does a read that reports more bytes than the buffer holds.
    pub open spec fn next(self, result: Result<usize, UsbError>, first: u8) -> State {
        if self.phase is Finished {
            self
        } else {
            match result {
                Err(err) => self.finish(Err(Error::Usb(err))),
                Ok(_) => if self.script()[self.cursor as int] is Read {
                    match ch341a::input_of(result, first) {
                        Err(err) => self.finish(Err(err)),
                        Ok(input) => self.sampled(input).advance(),
                    }
                } else {
                    self.advance()
                },
            }
        }
    }
}

/// Every answer brings a session that is not over closer to its end.
pub proof fn lemma_progress(state: State, result: Result<usize, UsbError>, first: u8)
    requires
        !(state.phase is Finished),
    ensures
        ({
            let next = state.next(result, first);
            ||| next.phase.rank() < state.phase.rank()
            ||| (next.phase.rank() == state.phase.rank() && next.script().len() - next.cursor
                < state.script().len() - state.cursor)
        }),
{
    protocol::lemma_sampling();
    protocol::lemma_shift_out(state.bits);
    protocol::lemma_shift_out(state.sampled(first).bits);
    match state.phase {
        Phase::Latching { status, .. } => protocol::lemma_latch(status),
        Phase::Inverting { old } => protocol::lemma_shift_out(!old),
        Phase::Reverting { old } => protocol::lemma_shift_out(old),
        _ => {},
    }
}

/// An operation in progress on an open board.
#[derive(Debug)]
pub struct Session {
    state: State,
    script: Vec<Request>,
}

impl View for Session {
    type V = State;

    closed spec fn view(&self) -> State {
        self.state
    }
}

impl Session {
    #[verifier::type_invariant]
    spec fn inv(&self) -> bool {
        &&& self.script@ == self.state.script()
        &&& self.state.wf()
    }

    /// The session at the beginning of `phase`.
    fn begin(phase: Phase, bits: u8) -> (session: Session)
        ensures
            session@ == (State { phase, cursor: 0, bits }),
    {
        let script = match phase {
            Phase::Latching { status, .. } => protocol::latch_script(status),
            Phase::Verifying { .. } => protocol::sampling_script(),
            Phase::Settling { .. } => protocol::shift_out_script(bits),
            Phase::Reading => protocol::sampling_script(),
            Phase::Restoring => protocol::shift_out_script(bits),
            Phase::Inverting { old } => protocol::shift_out_script(!old),
            Phase::Rereading { .. } => protocol::sampling_script(),
            Phase::Rerestoring { .. } => protocol::shift_out_script(bits),
            Phase::Reverting { old } => protocol::shift_out_script(old),
            Phase::Resetting => vec![Request::Reset],
            Phase::Finished(_) => Vec::new(),
        };
        proof {
            let state = State { phase, cursor: 0, bits };
            assert(script@ =~= state.script());
            protocol::lemma_sampling();
            protocol::lemma_shift_out(bits);
            match phase {
                Phase::Latching { status, .. } => protocol::lemma_latch(status),
                Phase::Inverting { old } => protocol::lemma_shift_out(!old),
                Phase::Reverting { old } => protocol::lemma_shift_out(old),
                _ => {},
            }
        }
        Session { state: State { phase, cursor: 0, bits }, script }
    }

    /// The session after the last request of the phase of `state` has been
    /// answered.
    fn turn(state: State) -> (session: Session)
        ensures
            session@ == state.turn(),
    {
        let bits: u8 = state.bits;
        match state.phase {
            Phase::Latching { status, verify } => {
                if verify {
                    Session::begin(Phase::Verifying { status }, 0)
                } else {
                    Session::begin(Phase::Finished(Ok(None)), bits)
                }
            },
            Phase::Verifying { status } => Session::begin(Phase::Settling { status }, bits),
            Phase::Settling { status } => {
                if bits != status {
                    return Session::begin(Phase::Finished(Err(Error::VerificationFailed)), bits);
                }
                Session::begin(Phase::Finished(Ok(None)), bits)
            },
            Phase::Reading => Session::begin(Phase::Restoring, bits),
            Phase::Restoring => Session::begin(Phase::Inverting { old: bits }, bits),
            Phase::Inverting { old } => Session::begin(Phase::Rereading { old }, 0),
            Phase::Rereading { old } => Session::begin(Phase::Rerestoring { old }, bits),
            Phase::Rerestoring { old } => Session::begin(Phase::Reverting { old }, bits),
            Phase::Reverting { old } => {
                if bits != !old {
                    return Session::begin(Phase::Finished(Err(Error::BadDevice)), bits);
                }
                Session::begin(Phase::Finished(Ok(Some(old))), bits)
            },
            Phase::Resetting => Session::begin(Phase::Finished(Ok(None)), bits),
            Phase::Finished(outcome) => Session::begin(Phase::Finished(outcome), bits),
        }
    }

    /// Where the session stands.
    pub fn state(&self) -> (state: State)
        ensures
            state == self@,
    {
        self.state
    }

    /// What to do next: the request that is out, or the outcome once the
    /// operation is over.
    pub fn action(&self) -> (action: Action)
        ensures
            action == self@.action(),
    {
        proof {
            use_type_invariant(self);
        }
        match self.state.phase {
            Phase::Finished(outcome) => Action::Done(outcome),
            _ => Action::Request(self.script[self.state.cursor]),
        }
    }

    /// Takes the answer of the transport to the request that is out.
    ///
    /// `result` is what the transfer returned, the number of bytes on
    /// success, and `buffer` is the read buffer. A failure ends the session
    /// with the error of the transport. The number and the buffer count for
    /// a read only: a number beyond the buffer ends the session with
    /// `UnsafeRead`, and else the first byte is the sample. A session that
    /// is over stays as it is.
    pub fn step(&mut self, result: Result<usize, UsbError>, buffer: &[u8; READ_BUF_SIZE])
        ensures
            final(self)@ == old(self)@.next(result, buffer[0]),
    {
        proof {
            use_type_invariant(&*self);
        }
        if let Phase::Finished(_) = self.state.phase {
            return ;
        }
        let phase = self.state.phase;
        let cursor: usize = self.state.cursor;
        let mut bits: u8 = self.state.bits;
        if let Err(err) = result {
            *self = Session::begin(Phase::Finished(Err(Error::Usb(err))), bits);
            return ;
        }
        if let Request::Read { .. } = self.script[cursor] {
            proof {
                protocol::lemma_sampling();
                protocol::lemma_shift_out(bits);
                match phase {
                    Phase::Latching { status, .. } => protocol::lemma_latch(status),
                    Phase::Inverting { old } => protocol::lemma_shift_out(!old),
                    Phase::Reverting { old } => protocol::lemma_shift_out(old),
                    _ => {},
                }
            }
            match ch341a::get_input(result, buffer) {
                Err(err) => {
                    *self = Session::begin(Phase::Finished(Err(err)), bits);
                    return ;
                },
                Ok(input_state) => {
                    let i: usize = (cursor - 2) / 4;
                    bits = protocol::record_sample(bits, i as u8, input_state);
                },
            }
        }
        assert(cursor < self.script.len());
        if cursor + 1 < self.script.len() {
            self.state = State { phase, cursor: cursor + 1, bits };
        } else {
            *self = Session::turn(State { phase, cursor, bits });
        }
    }
}

/// Begins setting the relays: bit 0 to 7 of `status` stand for relay 1 to 8,
/// a set bit for an active relay. With `verify` the pattern is read back
/// and the operation fails with `VerificationFailed` if it differs.
pub fn set_status(status: u8, verify: bool) -> (session: Session)
    ensures
        session@ == State::set_status(status, verify),
{
    Session::begin(Phase::Latching { status, verify }, 0)
}

/// Begins reading the relays. The board is tested on the way: the
/// complement of what was read is shifted through it, and the operation
/// fails with `BadDevice` if it does not come back. The pattern that was
/// read is shifted in again before the operation ends, either way.
pub fn get_status() -> (session: Session)
    ensures
        session@ == State::get_status(),
{
    Session::begin(Phase::Reading, 0)
}

/// Begins resetting the device.
pub fn reset() -> (session: Session)
    ensures
        session@ == State::reset(),
{
    Session::begin(Phase::Resetting, 0)
}

} // verus!
