use embedded_course::console::{CmdEffect, Console, Reply};

fn send_line(c: &mut Console, line: &[u8]) -> CmdEffect {
    for &b in line {
        let e = c.cmd(b);
        assert_eq!(e, CmdEffect { reply: None, period: None });
    }
    c.cmd(b'\n')
}

fn reply(r: Reply) -> CmdEffect {
    CmdEffect { reply: Some(r), period: None }
}

#[test]
fn start_and_pause() {
    let mut c = Console::new();
    assert!(!c.blink_enabled());
    assert_eq!(send_line(&mut c, b"start"), reply(Reply::Started));
    assert!(c.blink_enabled());
    assert_eq!(send_line(&mut c, b"pause"), reply(Reply::Paused));
    assert!(!c.blink_enabled());
    assert_eq!(send_line(&mut c, b"start now please"), reply(Reply::Started));
    assert!(c.blink_enabled());
}

#[test]
fn period_command() {
    let mut c = Console::new();
    assert_eq!(
        send_line(&mut c, b"period 500"),
        CmdEffect { reply: Some(Reply::PeriodChanged), period: Some(500) }
    );
    assert_eq!(
        send_line(&mut c, b"period 1"),
        CmdEffect { reply: Some(Reply::PeriodChanged), period: Some(1) }
    );
    assert_eq!(
        send_line(&mut c, b"period 1000 ms"),
        CmdEffect { reply: Some(Reply::PeriodChanged), period: Some(1000) }
    );
    assert_eq!(send_line(&mut c, b"period 0"), reply(Reply::PeriodOutOfRange));
    assert_eq!(send_line(&mut c, b"period 1001"), reply(Reply::PeriodOutOfRange));
    assert_eq!(send_line(&mut c, b"period abc"), reply(Reply::ParseError));
    assert_eq!(send_line(&mut c, b"period "), reply(Reply::ParseError));
    assert_eq!(send_line(&mut c, b"period  5"), reply(Reply::ParseError));
    assert_eq!(send_line(&mut c, b"period 99999999999"), reply(Reply::ParseError));
    assert!(!c.blink_enabled());
}

#[test]
fn unknown_and_malformed_lines() {
    let mut c = Console::new();
    assert_eq!(send_line(&mut c, b"hello"), reply(Reply::Unrecognized));
    assert_eq!(send_line(&mut c, b""), reply(Reply::Unrecognized));
    assert_eq!(send_line(&mut c, b" start"), reply(Reply::Unrecognized));
    assert_eq!(send_line(&mut c, b"Start"), reply(Reply::Unrecognized));
    assert_eq!(send_line(&mut c, &[0xff, b's']), reply(Reply::ParseError));
    assert_eq!(send_line(&mut c, &[b's', b't', b'a', b'r', b't', b' ', 0xc3]), reply(Reply::ParseError));
    assert_eq!(send_line(&mut c, "start é".as_bytes()), reply(Reply::Started));
}

#[test]
fn line_is_cleared_after_newline() {
    let mut c = Console::new();
    assert_eq!(send_line(&mut c, b"sta"), reply(Reply::Unrecognized));
    assert_eq!(send_line(&mut c, b"rt"), reply(Reply::Unrecognized));
    assert_eq!(send_line(&mut c, b"start"), reply(Reply::Started));
}

#[test]
fn full_buffer_line_is_read() {
    let mut c = Console::new();
    let mut line = b"start".to_vec();
    while line.len() < 128 {
        line.push(b'x');
    }
    assert_eq!(send_line(&mut c, &line), reply(Reply::Unrecognized));
    let mut line = b"pause ".to_vec();
    while line.len() < 128 {
        line.push(b'y');
    }
    assert_eq!(send_line(&mut c, &line), reply(Reply::Paused));
}

#[test]
fn reply_texts() {
    assert_eq!(Reply::Started.text(), "Blinking started \n \r");
    assert_eq!(Reply::Paused.text(), "Blinking paused \n \r");
    assert_eq!(Reply::PeriodChanged.text(), "Blinking period changed \n \r");
    assert_eq!(Reply::PeriodOutOfRange.text(), "Period must be > 0 and < 1000 ms \n \r");
    assert_eq!(Reply::ParseError.text(), "Error in parsing message \n \r");
    assert_eq!(Reply::Unrecognized.text(), "Command not recognized \n \r");
}

#[test]
fn bare_period_is_detected() {
    let mut c = Console::new();
    for &b in b"period" {
        c.cmd(b);
    }
    assert_eq!(c.line_len(), 6);
    assert!(c.period_lacks_value());
    c.cmd(b' ');
    assert!(!c.period_lacks_value());
    assert_eq!(c.cmd(b'\n'), reply(Reply::ParseError));
    assert_eq!(c.line_len(), 0);
    for &b in b"periods" {
        c.cmd(b);
    }
    assert!(!c.period_lacks_value());
}
