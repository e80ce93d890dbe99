use beanstalkc::command;
use beanstalkc::config::DEFAULT_JOB_PRIORITY;
use beanstalkc::number::{parse_u64_str, render_u64};

#[test]
fn put_renders_line_arguments_and_delimited_payload() {
    let cmd = command::put(b"hello".to_vec(), 0, 0, 100);
    assert_eq!(cmd.build(), b"put 0 0 100 5\r\nhello\r\n".to_vec());
}

#[test]
fn put_declares_the_exact_payload_length() {
    let body = b"a\r\nweird\x00body".to_vec();
    let n = body.len();
    let wire = command::put(body.clone(), 7, 3, 60).build();
    // Read the bytes back the way a server would: one line through its
    // delimiter, then exactly the declared number of payload bytes.
    let lf = wire.iter().position(|&b| b == b'\n').unwrap();
    let line = std::str::from_utf8(&wire[..lf]).unwrap().trim();
    let declared: usize = line.rsplit(' ').next().unwrap().parse().unwrap();
    assert_eq!(declared, n);
    assert_eq!(&wire[lf + 1..lf + 1 + n], &body[..]);
    assert_eq!(&wire[lf + 1 + n..], b"\r\n");
}

#[test]
fn put_default_uses_the_default_job_parameters() {
    let wire = command::put_default(b"x".to_vec()).build();
    let expected = format!("put {} 0 120 1\r\nx\r\n", DEFAULT_JOB_PRIORITY);
    assert_eq!(wire, expected.into_bytes());
}

#[test]
fn empty_payload_still_carries_its_delimiter() {
    let wire = command::put(Vec::new(), 0, 0, 100).build();
    assert_eq!(wire, b"put 0 0 100 0\r\n\r\n".to_vec());
}

#[test]
fn plain_commands_render_their_lines() {
    assert_eq!(command::reserve(None).build(), b"reserve\r\n".to_vec());
    assert_eq!(
        command::reserve(Some(10)).build(),
        b"reserve-with-timeout 10\r\n".to_vec()
    );
    assert_eq!(command::delete(3).build(), b"delete 3\r\n".to_vec());
    assert_eq!(command::release(3, 9, 1).build(), b"release 3 9 1\r\n".to_vec());
    assert_eq!(command::bury(3, 9).build(), b"bury 3 9\r\n".to_vec());
    assert_eq!(command::touch(3).build(), b"touch 3\r\n".to_vec());
    assert_eq!(command::kick(100).build(), b"kick 100\r\n".to_vec());
    assert_eq!(command::kick_job(10).build(), b"kick-job 10\r\n".to_vec());
    assert_eq!(command::peek_job(10).build(), b"peek 10\r\n".to_vec());
    assert_eq!(command::peek_ready().build(), b"peek-ready\r\n".to_vec());
    assert_eq!(command::peek_delayed().build(), b"peek-delayed\r\n".to_vec());
    assert_eq!(command::peek_buried().build(), b"peek-buried\r\n".to_vec());
    assert_eq!(command::tubes().build(), b"list-tubes\r\n".to_vec());
    assert_eq!(command::using().build(), b"list-tube-used\r\n".to_vec());
    assert_eq!(command::watching().build(), b"list-tubes-watched\r\n".to_vec());
    assert_eq!(command::use_tube("jobs").build(), b"use jobs\r\n".to_vec());
    assert_eq!(command::watch("jobs").build(), b"watch jobs\r\n".to_vec());
    assert_eq!(command::ignore("jobs").build(), b"ignore jobs\r\n".to_vec());
    assert_eq!(command::stats().build(), b"stats\r\n".to_vec());
    assert_eq!(command::stats_tube("default").build(), b"stats-tube default\r\n".to_vec());
    assert_eq!(command::stats_job(8).build(), b"stats-job 8\r\n".to_vec());
    assert_eq!(
        command::pause_tube("default", 100).build(),
        b"pause-tube default 100\r\n".to_vec()
    );
    assert_eq!(command::quit().build(), b"quit\r\n".to_vec());
}

#[test]
fn decimal_rendering_has_no_sign_and_no_leading_zeros() {
    assert_eq!(render_u64(0), b"0".to_vec());
    assert_eq!(render_u64(7), b"7".to_vec());
    assert_eq!(render_u64(11300), b"11300".to_vec());
    assert_eq!(render_u64(u64::MAX), b"18446744073709551615".to_vec());
}

#[test]
fn decimal_parsing_accepts_digits_only() {
    assert_eq!(parse_u64_str("0"), Some(0));
    assert_eq!(parse_u64_str("18446744073709551615"), Some(u64::MAX));
    assert_eq!(parse_u64_str("18446744073709551616"), None);
    assert_eq!(parse_u64_str(""), None);
    assert_eq!(parse_u64_str("+7"), None);
    assert_eq!(parse_u64_str("-7"), None);
    assert_eq!(parse_u64_str("7a"), None);
}
