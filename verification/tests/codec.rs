use miau::codec::{encode_line, LineDecoder};

fn drain(d: &mut LineDecoder) -> Vec<String> {
    let mut lines = Vec::new();
    while let Some(l) = d.next_line() {
        lines.push(l);
    }
    lines
}

#[test]
fn decoder_splits_on_lf_and_crlf() {
    let mut d = LineDecoder::new();
    d.feed(b"abc\r\ndef\nxyz");
    assert_eq!(drain(&mut d), vec!["abc".to_string(), "def".to_string()]);
    d.feed(b"\r\n");
    assert_eq!(drain(&mut d), vec!["xyz".to_string()]);
}

#[test]
fn decoder_skips_empty_lines() {
    let mut d = LineDecoder::new();
    d.feed(b"\r\n\n\nPING :x\r\n\r\n");
    assert_eq!(drain(&mut d), vec!["PING :x".to_string()]);
}

#[test]
fn decoder_discards_invalid_utf8_line() {
    let mut d = LineDecoder::new();
    d.feed(b"ok\r\n\xff\xfe\r\nalso ok\r\n");
    assert_eq!(drain(&mut d), vec!["ok".to_string(), "also ok".to_string()]);
}

#[test]
fn decoder_keeps_interior_cr() {
    let mut d = LineDecoder::new();
    d.feed(b"a\rb\n");
    assert_eq!(drain(&mut d), vec!["a\rb".to_string()]);
}

#[test]
fn decoder_waits_for_terminator() {
    let mut d = LineDecoder::new();
    d.feed(b"no newline yet");
    assert_eq!(d.next_line(), None);
    d.feed(b"\r\n");
    assert_eq!(drain(&mut d), vec!["no newline yet".to_string()]);
}

#[test]
fn encode_appends_crlf() {
    assert_eq!(encode_line("PING"), b"PING\r\n".to_vec());
    assert_eq!(encode_line(""), b"\r\n".to_vec());
}

#[test]
fn encode_then_decode_round_trips() {
    let lines = ["NICK miau", "PRIVMSG #chan :hi there", "ünïcodé läne"];
    for line in lines.iter() {
        let mut d = LineDecoder::new();
        d.feed(&encode_line(line));
        assert_eq!(drain(&mut d), vec![line.to_string()]);
    }
}

#[test]
fn decoder_is_chunking_insensitive() {
    let stream: &[u8] = b":serv.er 001 miau :Wel\r\n\r\nPING :x\nb\xff\xfe\nlast one\r\n";

    let mut whole = LineDecoder::new();
    whole.feed(stream);
    let expected = drain(&mut whole);
    assert_eq!(expected, vec![":serv.er 001 miau :Wel".to_string(), "PING :x".to_string(),
        "last one".to_string()]);

    // every possible split point of the stream into two chunks
    for i in 0..=stream.len() {
        let mut d = LineDecoder::new();
        let mut got = Vec::new();
        d.feed(&stream[..i]);
        got.extend(drain(&mut d));
        d.feed(&stream[i..]);
        got.extend(drain(&mut d));
        assert_eq!(got, expected);
    }

    // and fed one byte at a time
    let mut d = LineDecoder::new();
    let mut got = Vec::new();
    for b in stream.iter() {
        d.feed(&[*b]);
        got.extend(drain(&mut d));
    }
    assert_eq!(got, expected);
}
