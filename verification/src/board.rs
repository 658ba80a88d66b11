//! A model of the relay board, to run sessions against without hardware.
//!
//! The model follows the A6275: a shift register that takes the level of the
//! data line on each rising edge of the clock, latches that copy the register
//! to the relays while the latch line is high, and a serial output that shows
//! the last stage of the register.

use vstd::prelude::*;

use crate::ch341a::Command;
use crate::ch341a::Request;
use crate::ch341a::READ_BUF_SIZE;
use crate::errors::Error;
use crate::errors::UsbError;
use crate::protocol;
use crate::session;
use crate::session::Action;
use crate::session::Session;
use crate::session::State;

verus! {

/// The number of bytes with which the board answers a read.
pub const ANSWER_LEN: usize = 8;

/// A relay board.
#[derive(Debug, Clone, Copy, PartialEq, Eq, Structural)]
pub struct Board {
    /// The shift register; bit 7 is its last stage.
    pub shift: u8,
    /// The latches: the relays that are active.
    pub latch: u8,
    /// The levels of the output lines of the bridge.
    pub lines: u8,
    /// Faults to come on the serial output: bit 15 inverts the next sample,
    /// and every read moves the bits up by one. Zero is a sound board.
    pub glitches: u16,
}

impl Board {
    /// The faults that fall into the eight samples of the next clocking-out,
    /// as a pattern of relays: a set bit is a relay that is read inverted.
    pub open spec fn faults(glitches: u16) -> u8 {
        (glitches >> 8) as u8
    }

    /// The faults that fall into the eight samples of the clocking-out after
    /// the next, as a pattern of relays.
    pub open spec fn late_faults(glitches: u16) -> u8 {
        Self::faults(glitches << 8)
    }

    /// Whether the serial output will show the register as it is.
    pub open spec fn sound(self) -> bool {
        self.glitches == 0
    }

    /// The board after the output lines have taken `word`.
    pub open spec fn driven(self, word: u8) -> Board {
        let rising = word & protocol::CLK != 0 && self.lines & protocol::CLK == 0;
        let shift = if rising {
            if word & protocol::DATA != 0 {
                (self.shift << 1) | 1
            } else {
                self.shift << 1
            }
        } else {
            self.shift
        };
        let latch = if word & protocol::LATCH != 0 {
            shift
        } else {
            self.latch
        };
        Board { shift, latch, lines: word, glitches: self.glitches }
    }

    /// The state of the input lines of the bridge: the output lines as they
    /// are driven, and the serial output of the register on the read line.
    pub open spec fn input(self) -> u8 {
        (self.lines & !protocol::READ) | ((self.shift ^ Self::faults(self.glitches))
            & protocol::READ)
    }

    /// The board after a sample has been taken.
    pub open spec fn sampled(self) -> Board {
        Board {
            shift: self.shift,
            latch: self.latch,
            lines: self.lines,
            glitches: self.glitches << 1,
        }
    }

    /// The board after it has served `request`.
    pub open spec fn served(self, request: Request) -> Board {
        match request {
            Request::Write { command: Command::SetOutput(word), .. } => self.driven(word),
            Request::Write { command: Command::GetInput, .. } => self,
            Request::Read { .. } => self.sampled(),
            Request::Reset => self,
        }
    }

    /// The number of bytes that the board reports for `request`.
    pub open spec fn count(request: Request) -> usize {
        match request {
            Request::Write { command: Command::SetOutput(_), .. } => 11,
            Request::Write { command: Command::GetInput, .. } => 1,
            Request::Read { .. } => ANSWER_LEN,
            Request::Reset => 0,
        }
    }

    /// The board after it has served the requests of `script` in order.
    pub open spec fn play(self, script: Seq<Request>) -> Board
        decreases script.len(),
    {
        if script.len() == 0 {
            self
        } else {
            self.served(script[0]).play(script.skip(1))
        }
    }

    /// The outcome of running a session from `state` against the board, and
    /// the board that the session leaves.
    pub open spec fn run(self, state: State) -> (Result<Option<u8>, Error>, Board)
        decreases state.phase.rank(), state.script().len() - state.cursor,
        via Self::run_decreases
    {
        match state.action() {
            Action::Done(outcome) => (outcome, self),
            Action::Request(request) => self.served(request).run(
                state.next(Ok(Self::count(request)), self.input()),
            ),
        }
    }

    #[via_fn]
    proof fn run_decreases(self, state: State) {
        if let Action::Request(request) = state.action() {
            session::lemma_progress(state, Ok(Self::count(request)), self.input());
        }
    }

    /// A sound board with the given relays active and all lines low.
    pub fn new(relays: u8) -> (board: Board)
        ensures
            board == (Board { shift: relays, latch: relays, lines: 0, glitches: 0 }),
    {
        Board { shift: relays, latch: relays, lines: 0, glitches: 0 }
    }

    /// The relays that are active.
    pub fn relays(&self) -> (relays: u8)
        ensures
            relays == self.latch,
    {
        self.latch
    }

    /// Serves `request`. A read puts the state of the input lines into the
    /// first byte of `buffer`. The result is the number of bytes moved; the
    /// model never fails a transfer.
    pub fn respond(&mut self, request: &Request, buffer: &mut [u8; READ_BUF_SIZE]) -> (result:
        Result<usize, UsbError>)
        ensures
            *final(self) == old(self).served(*request),
            result == Ok::<usize, UsbError>(Self::count(*request)),
            *request is Read ==> final(buffer)[0] == old(self).input(),
            !(*request is Read) ==> *final(buffer) == *old(buffer),
    {
        match *request {
            Request::Write { command: Command::SetOutput(word), .. } => {
                let rising = word & protocol::CLK != 0 && self.lines & protocol::CLK == 0;
                if rising {
                    if word & protocol::DATA != 0 {
                        self.shift = (self.shift << 1) | 1;
                    } else {
                        self.shift = self.shift << 1;
                    }
                }
                if word & protocol::LATCH != 0 {
                    self.latch = self.shift;
                }
                self.lines = word;
                Ok(11)
            },
            Request::Write { command: Command::GetInput, .. } => Ok(1),
            Request::Read { .. } => {
                let fault: u8 = (self.glitches >> 8) as u8;
                buffer[0] = (self.lines & !protocol::READ) | ((self.shift ^ fault)
                    & protocol::READ);
                self.glitches = self.glitches << 1;
                Ok(ANSWER_LEN)
            },
            Request::Reset => Ok(0),
        }
    }

    /// Runs `session` against the board until it is over.
    pub fn simulate(&mut self, session: Session) -> (outcome: Result<Option<u8>, Error>)
        ensures
            (outcome, *final(self)) == old(self).run(session@),
    {
        let mut current = session;
        let mut buffer: [u8; READ_BUF_SIZE] = [0u8;READ_BUF_SIZE];
        loop
            invariant
                self.run(current@) == old(self).run(session@),
            decreases current@.phase.rank(), current@.script().len() - current@.cursor,
        {
            match current.action() {
                Action::Done(outcome) => {
                    return outcome;
                },
                Action::Request(request) => {
                    proof {
                        session::lemma_progress(
                            current@,
                            Ok(Board::count(request)),
                            self.input(),
                        );
                    }
                    let result = self.respond(&request, &mut buffer);
                    current.step(result, &buffer);
                },
            }
        }
    }
}

} // verus!
