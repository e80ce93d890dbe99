use beanstalkc::command;
use beanstalkc::config::{DEFAULT_CONNECTION_TIMEOUT_SECS, DEFAULT_JOB_PRIORITY, DEFAULT_PORT};
use beanstalkc::error::BeanstalkcError;
use beanstalkc::frame::decode_frame;
use beanstalkc::job::{job_from_response, priority_from_stats};
use beanstalkc::status::Status;
use beanstalkc::{Beanstalkc, Response};

fn connected() -> Beanstalkc {
    let mut conn = Beanstalkc::new().host("localhost").port(11300);
    conn.mark_connected();
    conn
}

#[test]
fn builder_carries_the_configuration() {
    let conn = Beanstalkc::new();
    assert_eq!(conn.host, "localhost".to_string());
    assert_eq!(conn.port, DEFAULT_PORT);
    assert_eq!(conn.connection_timeout_secs, Some(DEFAULT_CONNECTION_TIMEOUT_SECS));
    assert!(!conn.connected);
    let conn = conn.host("10.0.0.1").port(12345).connection_timeout(Some(5));
    assert_eq!(conn.host, "10.0.0.1".to_string());
    assert_eq!(conn.port, 12345);
    assert_eq!(conn.connection_timeout_secs, Some(5));
}

#[test]
fn sending_without_a_stream_is_a_connection_error() {
    let conn = Beanstalkc::new();
    let r = conn.exchange(&command::stats(), b"OK 0\r\n\r\n");
    assert!(matches!(r, Err(BeanstalkcError::ConnectionError(_))));
}

#[test]
fn declared_success_passes_the_response_through() {
    let resp = decode_frame(b"DELETED\r\n").unwrap();
    let r = command::delete(1).dispatch(resp).unwrap();
    assert_eq!(r.status, Status::Deleted);
}

#[test]
fn declared_failure_becomes_command_failed() {
    let resp = decode_frame(b"NOT_FOUND\r\n").unwrap();
    let r = command::delete(1).dispatch(resp);
    assert!(matches!(r, Err(BeanstalkcError::CommandFailed(Status::NotFound))));
}

#[test]
fn undeclared_status_becomes_unexpected_response() {
    let resp = decode_frame(b"TIMED_OUT\r\n").unwrap();
    let r = command::delete(1).dispatch(resp);
    assert!(matches!(r, Err(BeanstalkcError::UnexpectedResponse(Status::TimedOut))));
}

#[test]
fn put_reserve_delete_scenario() {
    let conn = connected();

    // put: the command's exact bytes go out; INSERTED hands back the id.
    let put = command::put(b"hello".to_vec(), 0, 0, 100);
    assert_eq!(put.build(), b"put 0 0 100 5\r\nhello\r\n".to_vec());
    let resp = conn.exchange(&put, b"INSERTED 7\r\n").unwrap();
    let id = resp.job_id().unwrap();
    assert!(id > 0);
    assert_eq!(id, 7);

    // reserve: RESERVED returns the same job with its body, reserved.
    let reserve = command::reserve(None);
    assert_eq!(reserve.build(), b"reserve\r\n".to_vec());
    let resp = conn.exchange(&reserve, b"RESERVED 7 5\r\nhello\r\n").unwrap();
    let mut job = job_from_response(&resp, true).unwrap();
    assert_eq!(job.id(), 7);
    assert_eq!(job.body(), b"hello");
    assert!(job.reserved());

    // delete: the job plans `delete <id>`; after success the flag flips.
    let del = job.delete().unwrap();
    assert_eq!(del.build(), b"delete 7\r\n".to_vec());
    conn.exchange(&del, b"DELETED\r\n").unwrap();
    job.mark_unreserved();
    assert!(!job.reserved());

    // a second delete is a no-op: no command, no wire traffic.
    assert!(job.delete().is_none());
}

#[test]
fn watch_and_ignore_scenario() {
    let conn = connected();

    // watch returns the new watched-tube count: one more than before.
    let watched_before: u64 = 1;
    let resp = conn.exchange(&command::watch("jobs"), b"WATCHING 2\r\n").unwrap();
    assert_eq!(resp.get_int_param(0).unwrap(), watched_before + 1);

    // ignoring the sole remaining watched tube is a recognized failure.
    let r = conn.exchange(&command::ignore("jobs"), b"NOT_IGNORED\r\n");
    assert!(matches!(r, Err(BeanstalkcError::CommandFailed(Status::NotIgnored))));
}

#[test]
fn settled_job_lifecycle_is_idempotent() {
    let mut job = beanstalkc::Job::new(9, b"work".to_vec(), true);
    assert!(job.delete().is_some());
    assert!(job.release(0, 0).is_some());
    assert!(job.bury(0).is_some());
    assert!(job.touch().is_some());
    job.mark_unreserved();
    assert!(job.delete().is_none());
    assert!(job.release(0, 0).is_none());
    assert!(job.bury(0).is_none());
    assert!(job.touch().is_none());
    // kick and stats go by id alone, whatever the flag says.
    assert_eq!(job.kick().build(), b"kick-job 9\r\n".to_vec());
    assert_eq!(job.stats().build(), b"stats-job 9\r\n".to_vec());
}

#[test]
fn peeked_jobs_start_unreserved() {
    let resp = decode_frame(b"FOUND 3 2\r\nhi\r\n").unwrap();
    let job = job_from_response(&resp, false).unwrap();
    assert_eq!(job.id(), 3);
    assert_eq!(job.body(), b"hi");
    assert!(!job.reserved());
}

#[test]
fn job_priority_comes_from_stats_or_the_default() {
    let stats = vec![
        ("pri".to_string(), "1024".to_string()),
        ("delay".to_string(), "0".to_string()),
    ];
    assert_eq!(priority_from_stats(&stats), 1024);
    let no_pri = vec![("delay".to_string(), "0".to_string())];
    assert_eq!(priority_from_stats(&no_pri), DEFAULT_JOB_PRIORITY);
    let bad_pri = vec![("pri".to_string(), "high".to_string())];
    assert_eq!(priority_from_stats(&bad_pri), DEFAULT_JOB_PRIORITY);
}

#[test]
fn stats_body_parses_to_ordered_pairs() {
    let resp = Response {
        status: Status::Okay,
        params: vec!["20".to_string()],
        body: Some(b"pri: 1024\r\ndelay: 0\r\n".to_vec()),
    };
    let pairs = resp.body_as_map().unwrap();
    assert_eq!(
        pairs,
        vec![
            ("pri".to_string(), "1024".to_string()),
            ("delay".to_string(), "0".to_string()),
        ]
    );
}

#[test]
fn stats_body_skips_headers_and_blank_lines() {
    let resp = Response {
        status: Status::Okay,
        params: vec![],
        body: Some(b"---\npri: 1\n\nnot a pair\nttr: 120\n".to_vec()),
    };
    let pairs = resp.body_as_map().unwrap();
    assert_eq!(
        pairs,
        vec![
            ("pri".to_string(), "1".to_string()),
            ("ttr".to_string(), "120".to_string()),
        ]
    );
}

#[test]
fn tube_listing_parses_in_order() {
    let resp = Response {
        status: Status::Okay,
        params: vec![],
        body: Some(b"---\n- default\n- jobs\r\n".to_vec()),
    };
    let tubes = resp.body_as_vec().unwrap();
    assert_eq!(tubes, vec!["default".to_string(), "jobs".to_string()]);
}

#[test]
fn empty_bodies_parse_to_nothing() {
    let resp = Response { status: Status::Okay, params: vec![], body: None };
    assert!(resp.body_as_vec().unwrap().is_empty());
    assert!(resp.body_as_map().unwrap().is_empty());
}

#[test]
fn using_returns_the_tube_name_parameter() {
    let conn = connected();
    let resp = conn.exchange(&command::using(), b"USING default\r\n").unwrap();
    assert_eq!(resp.get_param(0).unwrap(), "default".to_string());
}

#[test]
fn pausing_a_missing_tube_is_command_failed_not_an_anomaly() {
    let conn = connected();
    let r = conn.exchange(&command::pause_tube("nowhere", 10), b"NOT_FOUND\r\n");
    assert!(matches!(r, Err(BeanstalkcError::CommandFailed(Status::NotFound))));
}

#[test]
fn default_session_matches_a_fresh_one() {
    let conn = Beanstalkc::default();
    assert_eq!(conn.host, "localhost".to_string());
    assert_eq!(conn.port, DEFAULT_PORT);
    assert!(!conn.connected);
}
