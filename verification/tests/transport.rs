use arb::ch341a;
use arb::ch341a::ENDPOINT_IN;
use arb::ch341a::ENDPOINT_OUT;
use arb::ch341a::READ_BUF_SIZE;
use arb::ch341a::READ_TIMEOUT_MS;
use arb::ch341a::WRITE_TIMEOUT_MS;
use arb::get_input;
use arb::set_output;
use arb::Command;
use arb::Error;
use arb::Request;
use arb::UsbError;

#[test]
fn set_output_embeds_the_value_in_the_sixth_byte() {
    assert_eq!(
        set_output(0x28),
        vec![0xA1, 0x6a, 0x1f, 0x00, 0x10, 0x28, 0x3f, 0x00, 0x00, 0x00, 0x00]
    );
    assert_eq!(
        set_output(0),
        vec![0xA1, 0x6a, 0x1f, 0x00, 0x10, 0x00, 0x3f, 0x00, 0x00, 0x00, 0x00]
    );
    assert_eq!(
        set_output(0xff),
        vec![0xA1, 0x6a, 0x1f, 0x00, 0x10, 0xff, 0x3f, 0x00, 0x00, 0x00, 0x00]
    );
}

#[test]
fn set_output_is_eleven_bytes_for_every_value() {
    for value in 0..=255u8 {
        let msg = set_output(value);
        assert_eq!(msg.len(), 11);
        assert_eq!(msg[5], value);
    }
}

#[test]
fn commands_encode_to_their_wire_format() {
    assert_eq!(Command::GetInput.bytes(), vec![0xA0]);
    assert_eq!(Command::SetOutput(0x21).bytes(), set_output(0x21));
}

#[test]
fn endpoints_timeouts_and_capacity_are_fixed() {
    assert_eq!(ENDPOINT_OUT, 0x02);
    assert_eq!(ENDPOINT_IN, 0x82);
    assert_eq!(READ_BUF_SIZE, 32);
    assert_eq!(WRITE_TIMEOUT_MS, 100);
    assert_eq!(READ_TIMEOUT_MS, 10);
}

#[test]
fn write_goes_to_the_bulk_out_endpoint() {
    assert_eq!(
        ch341a::write(Command::SetOutput(8)),
        Request::Write { endpoint: 0x02, command: Command::SetOutput(8), timeout_ms: 100 }
    );
    assert_eq!(
        ch341a::write(Command::GetInput),
        Request::Write { endpoint: 0x02, command: Command::GetInput, timeout_ms: 100 }
    );
}

#[test]
fn read_comes_from_the_bulk_in_endpoint() {
    assert_eq!(ch341a::read(), Request::Read { endpoint: 0x82, capacity: 32, timeout_ms: 10 });
}

#[test]
fn get_input_returns_the_first_byte() {
    let mut buffer = [0u8; 32];
    buffer[0] = 0x80;
    buffer[1] = 0x11;
    assert_eq!(get_input(Ok(8), &buffer), Ok(0x80));
    assert_eq!(get_input(Ok(1), &buffer), Ok(0x80));
    assert_eq!(get_input(Ok(32), &buffer), Ok(0x80));
    buffer[0] = 0x5a;
    assert_eq!(get_input(Ok(6), &buffer), Ok(0x5a));
}

#[test]
fn get_input_of_an_empty_answer_is_the_first_byte_of_the_buffer() {
    let buffer = [0u8; 32];
    assert_eq!(get_input(Ok(0), &buffer), Ok(0));
}

#[test]
fn get_input_rejects_more_bytes_than_the_buffer_holds() {
    let mut buffer = [0u8; 32];
    buffer[0] = 0x80;
    assert_eq!(get_input(Ok(33), &buffer), Err(Error::UnsafeRead));
    assert_eq!(get_input(Ok(usize::MAX), &buffer), Err(Error::UnsafeRead));
}

#[test]
fn get_input_wraps_a_transport_failure() {
    let buffer = [0x80u8; 32];
    assert_eq!(get_input(Err(UsbError::Timeout), &buffer), Err(Error::Usb(UsbError::Timeout)));
    assert_eq!(get_input(Err(UsbError::NoDevice), &buffer), Err(Error::Usb(UsbError::NoDevice)));
}
