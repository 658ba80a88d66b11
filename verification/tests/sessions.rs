use arb::board::Board;
use arb::ch341a;
use arb::get_status;
use arb::protocol::CLK;
use arb::protocol::LATCH;
use arb::reset;
use arb::set_status;
use arb::Action;
use arb::Command;
use arb::Error;
use arb::Request;
use arb::Session;
use arb::UsbError;

/// A board whose serial output is stuck at one level, written without the
/// model of the library.
struct StuckBoard {
    high: bool,
    words: Vec<u8>,
}

impl StuckBoard {
    fn run(&mut self, mut session: Session) -> Result<Option<u8>, Error> {
        let mut buffer = [0u8; 32];
        loop {
            match session.action() {
                Action::Done(outcome) => return outcome,
                Action::Request(Request::Write { command: Command::SetOutput(word), .. }) => {
                    self.words.push(word);
                    session.step(Ok(11), &buffer);
                }
                Action::Request(Request::Write { command: Command::GetInput, .. }) => {
                    session.step(Ok(1), &buffer);
                }
                Action::Request(Request::Read { .. }) => {
                    buffer[0] = if self.high { 0x80 } else { 0x00 };
                    session.step(Ok(8), &buffer);
                }
                Action::Request(Request::Reset) => {
                    session.step(Ok(0), &buffer);
                }
            }
        }
    }
}

/// Answers every request with success until `failing` requests have been
/// made, then with `answer`; returns the outcome and the number of requests.
fn run_until(
    mut session: Session,
    failing: usize,
    answer: Result<usize, UsbError>,
) -> (Result<Option<u8>, Error>, usize) {
    let buffer = [0u8; 32];
    let mut made = 0;
    loop {
        match session.action() {
            Action::Done(outcome) => return (outcome, made),
            Action::Request(_) => {
                if made == failing {
                    session.step(answer, &buffer);
                } else {
                    session.step(Ok(1), &buffer);
                }
                made += 1;
            }
        }
    }
}

#[test]
fn verified_write_succeeds_on_a_mirroring_board() {
    let mut board = Board::new(0);
    assert_eq!(board.simulate(set_status(0b0011_0111, true)), Ok(None));
    assert_eq!(board.relays(), 0b0011_0111);
    assert_eq!(board.simulate(get_status()), Ok(Some(0b0011_0111)));
    assert_eq!(board.relays(), 0b0011_0111);
}

#[test]
fn unverified_write_latches_the_pattern() {
    let mut board = Board::new(0xff);
    assert_eq!(board.simulate(set_status(0x42, false)), Ok(None));
    assert_eq!(board, Board { shift: 0x42, latch: 0x42, lines: 0, glitches: 0 });
}

#[test]
fn zero_deactivates_all_relays() {
    let mut board = Board::new(0xff);
    assert_eq!(board.simulate(set_status(0, true)), Ok(None));
    assert_eq!(board.relays(), 0);
    assert_eq!(board.simulate(get_status()), Ok(Some(0)));
}

#[test]
fn every_pattern_round_trips() {
    for status in 0..=255u8 {
        let mut board = Board::new(!status);
        assert_eq!(board.simulate(set_status(status, true)), Ok(None));
        assert_eq!(board, Board { shift: status, latch: status, lines: 0, glitches: 0 });
        assert_eq!(board.simulate(get_status()), Ok(Some(status)));
        assert_eq!(board, Board { shift: status, latch: status, lines: 0, glitches: 0 });
    }
}

#[test]
fn shift_out_is_read_back_without_a_latch() {
    for status in [0x00u8, 0x01, 0x80, 0x37, 0xa5, 0xff] {
        let mut board = Board { shift: 0x12, latch: 0x34, lines: CLK | LATCH, glitches: 0 };
        let mut buffer = [0u8; 32];
        for request in arb::protocol::shift_out_script(status) {
            assert_eq!(board.respond(&request, &mut buffer), Ok(11));
        }
        assert_eq!(board, Board { shift: status, latch: 0x34, lines: 0, glitches: 0 });
        assert_eq!(board.simulate(get_status()), Ok(Some(status)));
        assert_eq!(board, Board { shift: status, latch: 0x34, lines: 0, glitches: 0 });
    }
}

#[test]
fn get_status_leaves_the_relays_unchanged() {
    for relays in [0x00u8, 0x37, 0xff] {
        let mut board = Board::new(relays);
        assert_eq!(board.simulate(get_status()), Ok(Some(relays)));
        assert_eq!(board.relays(), relays);
        assert_eq!(board, Board::new(relays));
    }
}

#[test]
fn get_status_reads_the_register_not_the_latches() {
    let mut board = Board { shift: 0x0f, latch: 0xf0, lines: 0, glitches: 0 };
    assert_eq!(board.simulate(get_status()), Ok(Some(0x0f)));
    assert_eq!(board, Board { shift: 0x0f, latch: 0xf0, lines: 0, glitches: 0 });
}

#[test]
fn mismatch_surfaces_as_verification_failed() {
    // the third sample will be inverted
    let mut board = Board { shift: 0, latch: 0, lines: 0, glitches: 0x2000 };
    assert_eq!(board.simulate(set_status(0b0011_0111, true)), Err(Error::VerificationFailed));
    assert_eq!(board.relays(), 0b0011_0111);
    assert_eq!(board.shift, 0b0001_0111);
}

#[test]
fn mismatch_goes_unnoticed_without_verification() {
    let mut board = Board { shift: 0, latch: 0, lines: 0, glitches: 0x2000 };
    assert_eq!(board.simulate(set_status(0b0011_0111, false)), Ok(None));
    assert_eq!(board.relays(), 0b0011_0111);
}

#[test]
fn every_single_fault_fails_the_verification() {
    for bit in 8..16 {
        let mut board = Board { shift: 0, latch: 0, lines: 0, glitches: 1 << bit };
        assert_eq!(board.simulate(set_status(0x5a, true)), Err(Error::VerificationFailed));
    }
    for bit in 0..8 {
        let mut board = Board { shift: 0, latch: 0, lines: 0, glitches: 1 << bit };
        assert_eq!(board.simulate(set_status(0x5a, true)), Ok(None));
    }
}

#[test]
fn self_test_fails_with_bad_device() {
    // a fault in the second clocking-out
    let mut board = Board { shift: 0x37, latch: 0x37, lines: 0, glitches: 0x0010 };
    assert_eq!(board.simulate(get_status()), Err(Error::BadDevice));
    // the first pattern is back in the register all the same
    assert_eq!(board, Board { shift: 0x37, latch: 0x37, lines: 0, glitches: 0 });
}

#[test]
fn stuck_serial_output_fails_the_verification() {
    let mut low = StuckBoard { high: false, words: vec![] };
    assert_eq!(low.run(set_status(0x37, true)), Err(Error::VerificationFailed));
    assert_eq!(low.run(set_status(0x00, true)), Ok(None));
    let mut high = StuckBoard { high: true, words: vec![] };
    assert_eq!(high.run(set_status(0x37, true)), Err(Error::VerificationFailed));
    assert_eq!(high.run(set_status(0xff, true)), Ok(None));
}

#[test]
fn stuck_serial_output_fails_the_self_test() {
    let mut low = StuckBoard { high: false, words: vec![] };
    assert_eq!(low.run(get_status()), Err(Error::BadDevice));
    let mut high = StuckBoard { high: true, words: vec![] };
    assert_eq!(high.run(get_status()), Err(Error::BadDevice));
}

#[test]
fn failed_self_test_still_restores_the_first_pattern() {
    let mut high = StuckBoard { high: true, words: vec![] };
    assert_eq!(high.run(get_status()), Err(Error::BadDevice));
    // the last twenty-six writes shift 0xff back in
    let tail = high.words[high.words.len() - 26..].to_vec();
    let mut expected = vec![0u8];
    for _ in 0..8 {
        expected.extend([0x20, 0x28, 0x20]);
    }
    expected.push(0);
    assert_eq!(tail, expected);
}

#[test]
fn unverified_write_makes_twenty_nine_requests() {
    let (outcome, made) = run_until(set_status(0x37, false), usize::MAX, Ok(1));
    assert_eq!(outcome, Ok(None));
    assert_eq!(made, 29);
}

#[test]
fn verified_write_reads_back_and_restores() {
    let mut board = StuckBoard { high: false, words: vec![] };
    assert_eq!(board.run(set_status(0x00, true)), Ok(None));
    // latch, clocking-out and shifting back in
    assert_eq!(board.words.len(), 29 + 17 + 26);
}

#[test]
fn session_begins_with_all_lines_low() {
    let expected = Action::Request(Request::Write {
        endpoint: 0x02,
        command: Command::SetOutput(0),
        timeout_ms: 100,
    });
    assert_eq!(set_status(0x37, true).action(), expected);
    assert_eq!(get_status().action(), expected);
    assert_eq!(reset().action(), Action::Request(Request::Reset));
}

#[test]
fn latch_is_raised_alone_once() {
    let mut board = StuckBoard { high: false, words: vec![] };
    assert_eq!(board.run(set_status(0xff, false)), Ok(None));
    let raised: Vec<usize> =
        (0..board.words.len()).filter(|&i| board.words[i] & LATCH != 0).collect();
    assert_eq!(raised, vec![27]);
    assert_eq!(board.words[27], LATCH);
}

#[test]
fn reading_never_raises_the_latch() {
    let mut board = StuckBoard { high: true, words: vec![] };
    let _ = board.run(get_status());
    assert!(board.words.iter().all(|word| word & LATCH == 0));
}

#[test]
fn failed_transfer_aborts_with_its_error() {
    for failing in [0usize, 1, 13, 28] {
        let (outcome, made) = run_until(set_status(0x37, true), failing, Err(UsbError::Timeout));
        assert_eq!(outcome, Err(Error::Usb(UsbError::Timeout)));
        assert_eq!(made, failing + 1);
    }
    let (outcome, made) = run_until(get_status(), 5, Err(UsbError::NoDevice));
    assert_eq!(outcome, Err(Error::Usb(UsbError::NoDevice)));
    assert_eq!(made, 6);
    let (outcome, made) = run_until(reset(), 0, Err(UsbError::Io));
    assert_eq!(outcome, Err(Error::Usb(UsbError::Io)));
    assert_eq!(made, 1);
}

#[test]
fn oversized_answer_aborts_with_unsafe_read() {
    // the third request of a clocking-out is its first read
    let (outcome, made) = run_until(get_status(), 2, Ok(33));
    assert_eq!(outcome, Err(Error::UnsafeRead));
    assert_eq!(made, 3);
    // the latch takes twenty-nine requests before the clocking-out
    let (outcome, made) = run_until(set_status(0x37, true), 29 + 2, Ok(usize::MAX));
    assert_eq!(outcome, Err(Error::UnsafeRead));
    assert_eq!(made, 32);
}

#[test]
fn oversized_count_of_a_write_is_no_error() {
    let (outcome, made) = run_until(set_status(0x37, false), 3, Ok(33));
    assert_eq!(outcome, Ok(None));
    assert_eq!(made, 29);
}

#[test]
fn full_buffer_is_accepted() {
    let mut session = get_status();
    let buffer = [0x80u8; 32];
    session.step(Ok(11), &buffer);
    session.step(Ok(1), &buffer);
    assert_eq!(session.action(), Action::Request(ch341a::read()));
    session.step(Ok(32), &buffer);
    assert_eq!(session.action(), Action::Request(ch341a::write(Command::SetOutput(CLK))));
}

#[test]
fn finished_session_stays_finished() {
    let mut session = reset();
    let buffer = [0u8; 32];
    session.step(Ok(0), &buffer);
    assert_eq!(session.action(), Action::Done(Ok(None)));
    session.step(Err(UsbError::Io), &buffer);
    assert_eq!(session.action(), Action::Done(Ok(None)));
    session.step(Ok(99), &buffer);
    assert_eq!(session.action(), Action::Done(Ok(None)));
}

#[test]
fn reset_makes_one_request() {
    let mut board = Board::new(0x37);
    assert_eq!(board.simulate(reset()), Ok(None));
    assert_eq!(board, Board::new(0x37));
    let (outcome, made) = run_until(reset(), usize::MAX, Ok(0));
    assert_eq!(outcome, Ok(None));
    assert_eq!(made, 1);
}

#[test]
fn board_shifts_on_the_rising_clock_edge_only() {
    let mut board = Board::new(0);
    let mut buffer = [0u8; 32];
    let set = |word: u8| ch341a::write(Command::SetOutput(word));
    assert_eq!(board.respond(&set(0x20), &mut buffer), Ok(11));
    assert_eq!(board.shift, 0);
    assert_eq!(board.respond(&set(0x28), &mut buffer), Ok(11));
    assert_eq!(board.shift, 1);
    assert_eq!(board.respond(&set(0x28), &mut buffer), Ok(11));
    assert_eq!(board.shift, 1);
    assert_eq!(board.respond(&set(0x20), &mut buffer), Ok(11));
    assert_eq!(board.shift, 1);
    assert_eq!(board.respond(&set(0x08), &mut buffer), Ok(11));
    assert_eq!(board.shift, 2);
    assert_eq!(board.relays(), 0);
    assert_eq!(board.respond(&set(0x01), &mut buffer), Ok(11));
    assert_eq!(board.relays(), 2);
}

#[test]
fn board_shows_the_last_stage_on_the_read_line() {
    let mut board = Board { shift: 0x80, latch: 0, lines: 0x28, glitches: 0 };
    let mut buffer = [0u8; 32];
    assert_eq!(board.respond(&ch341a::write(Command::GetInput), &mut buffer), Ok(1));
    assert_eq!(buffer[0], 0);
    assert_eq!(board.respond(&ch341a::read(), &mut buffer), Ok(8));
    assert_eq!(buffer[0], 0xa8);
    board.shift = 0x7f;
    assert_eq!(board.respond(&ch341a::read(), &mut buffer), Ok(8));
    assert_eq!(buffer[0], 0x28);
}
