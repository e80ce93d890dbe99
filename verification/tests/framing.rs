use beanstalkc::error::BeanstalkcError;
use beanstalkc::frame::{decode_frame, parse_status_line, body_length, take_body};
use beanstalkc::status::{body_slot, status_from_token, Status};
use beanstalkc::Response;

#[test]
fn reserved_frame_decodes_to_status_params_and_body() {
    let resp = decode_frame(b"RESERVED 42 5\r\nhello\r\n").unwrap();
    assert_eq!(resp.status, Status::Reserved);
    assert_eq!(resp.params, vec!["42".to_string(), "5".to_string()]);
    assert_eq!(resp.body, Some(b"hello".to_vec()));
}

#[test]
fn bare_status_frame_has_no_body() {
    let resp = decode_frame(b"NOT_FOUND\r\n").unwrap();
    assert_eq!(resp.status, Status::NotFound);
    assert!(resp.params.is_empty());
    assert!(resp.body.is_none());
}

#[test]
fn empty_response_is_a_protocol_error() {
    let r = decode_frame(b"");
    assert!(matches!(r, Err(BeanstalkcError::ProtocolError(_))));
}

#[test]
fn whitespace_only_line_is_a_protocol_error() {
    let r = decode_frame(b"  \r\n");
    assert!(matches!(r, Err(BeanstalkcError::ProtocolError(_))));
}

#[test]
fn unknown_status_token_is_a_protocol_error() {
    let r = decode_frame(b"WAT 1 2\r\n");
    assert!(matches!(r, Err(BeanstalkcError::ProtocolError(_))));
}

#[test]
fn short_body_read_is_an_io_error() {
    let r = decode_frame(b"RESERVED 1 5\r\nhi\r\n");
    assert!(matches!(r, Err(BeanstalkcError::IoError(_))));
}

#[test]
fn non_numeric_length_slot_is_a_protocol_error() {
    let r = decode_frame(b"RESERVED 42 x\r\nhello\r\n");
    assert!(matches!(r, Err(BeanstalkcError::ProtocolError(_))));
}

#[test]
fn missing_length_slot_is_a_protocol_error() {
    let r = decode_frame(b"OK\r\n");
    assert!(matches!(r, Err(BeanstalkcError::ProtocolError(_))));
}

#[test]
fn ok_frame_takes_length_from_slot_zero() {
    let resp = decode_frame(b"OK 4\r\nabcd\r\n").unwrap();
    assert_eq!(resp.status, Status::Okay);
    assert_eq!(resp.body, Some(b"abcd".to_vec()));
}

#[test]
fn found_frame_takes_length_from_slot_one() {
    let resp = decode_frame(b"FOUND 9 3\r\nxyz\r\n").unwrap();
    assert_eq!(resp.status, Status::Found);
    assert_eq!(resp.params, vec!["9".to_string(), "3".to_string()]);
    assert_eq!(resp.body, Some(b"xyz".to_vec()));
}

#[test]
fn binary_body_bytes_pass_through_untouched() {
    let resp = decode_frame(b"RESERVED 1 6\r\na\r\nb\x00\xff\r\n").unwrap();
    assert_eq!(resp.body, Some(b"a\r\nb\x00\xff".to_vec()));
}

#[test]
fn status_line_splits_on_any_whitespace_run() {
    let (st, params) = parse_status_line(b"USING   default\r\n").unwrap();
    assert_eq!(st, Status::Using);
    assert_eq!(params, vec!["default".to_string()]);
}

#[test]
fn every_status_token_resolves() {
    let cases: Vec<(&[u8], Status)> = vec![
        (b"OUT_OF_MEMORY", Status::OutOfMemory),
        (b"INTERNAL_ERROR", Status::InternalError),
        (b"BAD_FORMAT", Status::BadFormat),
        (b"UNKNOWN_COMMAND", Status::UnknownCommand),
        (b"EXPECTED_CRLF", Status::ExpectedCrlf),
        (b"JOB_TOO_BIG", Status::JobTooBig),
        (b"DRAINING", Status::Draining),
        (b"INSERTED", Status::Inserted),
        (b"BURIED", Status::Buried),
        (b"USING", Status::Using),
        (b"DEADLINE_SOON", Status::DeadlineSoon),
        (b"TIMED_OUT", Status::TimedOut),
        (b"RESERVED", Status::Reserved),
        (b"DELETED", Status::Deleted),
        (b"RELEASED", Status::Released),
        (b"TOUCHED", Status::Touched),
        (b"FOUND", Status::Found),
        (b"NOT_FOUND", Status::NotFound),
        (b"KICKED", Status::Kicked),
        (b"WATCHING", Status::Watching),
        (b"NOT_IGNORED", Status::NotIgnored),
        (b"OK", Status::Okay),
        (b"PAUSED", Status::Paused),
        (b"NAME_TOO_LONG", Status::NameTooLong),
    ];
    for (tok, expect) in cases {
        assert_eq!(status_from_token(tok), Some(expect));
    }
    assert_eq!(status_from_token(b"ok"), None);
    assert_eq!(status_from_token(b""), None);
}

#[test]
fn body_slots_follow_the_per_status_rule() {
    assert_eq!(body_slot(Status::Okay), Some(0));
    assert_eq!(body_slot(Status::Reserved), Some(1));
    assert_eq!(body_slot(Status::Found), Some(1));
    assert_eq!(body_slot(Status::Deleted), None);
    assert_eq!(body_slot(Status::NotFound), None);
}

#[test]
fn body_length_reads_the_declared_slot() {
    let params = vec!["42".to_string(), "5".to_string()];
    assert_eq!(body_length(Status::Reserved, &params).unwrap(), Some(5));
    assert_eq!(body_length(Status::Okay, &params).unwrap(), Some(42));
    assert_eq!(body_length(Status::Deleted, &params).unwrap(), None);
    assert!(matches!(
        body_length(Status::Reserved, &vec!["42".to_string()]),
        Err(BeanstalkcError::ProtocolError(_))
    ));
}

#[test]
fn take_body_drops_the_trailing_delimiter() {
    assert_eq!(take_body(b"hello\r\n", 5), b"hello".to_vec());
    assert_eq!(take_body(b"\r\n", 0), Vec::<u8>::new());
}

#[test]
fn int_params_parse_or_fail_as_protocol_errors() {
    let resp = Response {
        status: Status::Reserved,
        params: vec!["42".to_string(), "x".to_string()],
        body: None,
    };
    assert_eq!(resp.get_int_param(0).unwrap(), 42);
    assert!(matches!(resp.get_int_param(1), Err(BeanstalkcError::ProtocolError(_))));
    assert!(matches!(resp.get_int_param(2), Err(BeanstalkcError::ProtocolError(_))));
    assert_eq!(resp.job_id().unwrap(), 42);
    assert_eq!(resp.get_param(1).unwrap(), "x".to_string());
}
