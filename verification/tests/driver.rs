use miau::driver::{Driver, DriverState};

#[test]
fn idle_driver_receives() {
    let mut d = Driver::new();
    assert_eq!(d.state(), DriverState::Idle);
    d.step_idle();
    assert_eq!(d.state(), DriverState::Receiving);
}

#[test]
fn queued_driver_sends() {
    let mut d = Driver::new();
    d.send("NICK miau".to_string());
    d.step_idle();
    assert_eq!(d.state(), DriverState::Sending);
}

#[test]
fn receiving_decodes_lines() {
    let mut d = Driver::new();
    d.step_idle();
    d.on_read(b"PING :x\r\nPARTIAL");
    assert_eq!(d.poll_line(), Some("PING :x".to_string()));
    assert_eq!(d.state(), DriverState::Idle);
    d.step_idle();
    assert_eq!(d.poll_line(), None);
    assert_eq!(d.state(), DriverState::Receiving);
    d.on_read(b"\r\n");
    assert_eq!(d.poll_line(), Some("PARTIAL".to_string()));
}

#[test]
fn eof_closes_driver() {
    let mut d = Driver::new();
    d.step_idle();
    d.on_eof();
    assert_eq!(d.state(), DriverState::Closed);
}

#[test]
fn close_is_terminal_from_any_state() {
    let mut d = Driver::new();
    d.send("QUIT".to_string());
    d.close();
    assert_eq!(d.state(), DriverState::Closed);
}

#[test]
fn partial_write_resumes_from_exact_remainder() {
    // two lines queued; the transport accepts the first line's bytes, then
    // only part of the second, blocks, and later accepts the rest
    let mut d = Driver::new();
    d.send("NICK miau".to_string());
    d.send("USER miau * * :miau".to_string());
    d.step_idle();
    assert_eq!(d.state(), DriverState::Sending);

    let mut wire: Vec<u8> = Vec::new();

    // first write: the transport takes exactly the first line
    assert!(d.step_sending());
    let n1 = {
        let chunk = d.head_chunk();
        assert_eq!(chunk.as_slice(), b"NICK miau\r\n");
        let n = chunk.len();
        wire.extend_from_slice(&chunk[..n]);
        n
    };
    d.on_wrote(n1);

    // second write: the transport takes three bytes, then would block
    assert!(d.step_sending());
    {
        let chunk = d.head_chunk();
        assert_eq!(chunk.as_slice(), b"USER miau * * :miau\r\n");
        wire.extend_from_slice(&chunk[..3]);
    }
    d.on_wrote(3);

    // ... the host parks the driver, and resumes it in Sending when the
    // transport is writable again; the head is the exact unsent remainder
    assert_eq!(d.state(), DriverState::Sending);
    assert!(d.step_sending());
    let n2 = {
        let chunk = d.head_chunk();
        assert_eq!(chunk.as_slice(), b"R miau * * :miau\r\n");
        let n = chunk.len();
        wire.extend_from_slice(&chunk[..n]);
        n
    };
    d.on_wrote(n2);

    // queue drained: on to flushing, and the wire saw every byte exactly
    // once, in order
    assert!(!d.step_sending());
    assert_eq!(d.state(), DriverState::FlushingTransport);
    assert_eq!(wire, b"NICK miau\r\nUSER miau * * :miau\r\n".to_vec());

    d.on_flushed();
    assert_eq!(d.state(), DriverState::Idle);
}

#[test]
fn unicode_lines_encode_as_utf8() {
    let mut d = Driver::new();
    d.send("PRIVMSG #c :münchen".to_string());
    d.step_idle();
    assert!(d.step_sending());
    let chunk = d.head_chunk();
    assert_eq!(chunk.as_slice(), "PRIVMSG #c :münchen\r\n".as_bytes());
}
