use beanstalkd::request::receive;
use beanstalkd::text;
use beanstalkd::transport::MemTransport;
use beanstalkd::{Beanstalkd, BeanstalkdError, Status};

fn client(feed: &str) -> Beanstalkd<MemTransport> {
    Beanstalkd::new(MemTransport::new(feed.as_bytes().to_vec()))
}

#[test]
fn put_round_trip_inserted() {
    let mut b = client("INSERTED 42\r\n");
    let id = b.put("hi", 0, 0, 60).unwrap();
    assert_eq!(id, 42);
    assert_eq!(b.transport().log().as_slice(), "put 0 0 60 2\r\nhi\r\n".as_bytes());
}

#[test]
fn decode_found_with_payload() {
    let mut b = client("FOUND 7 5\r\nhello\r\n");
    let job = b.peek_ready().unwrap();
    assert_eq!(job, Some((7, "hello".to_string())));
}

#[test]
fn payload_exact_across_chunks() {
    // the same reply, delivered in awkward splits: the payload must
    // come out identical
    let feed = "RESERVED 1 12\r\nhello world!\r\n".as_bytes().to_vec();
    let chunks = vec![1usize, 2, 3, 1, 4, 2, 1, 5, 3, 2, 1, 9];
    let mut b = Beanstalkd::new(MemTransport::with_chunks(feed, chunks));
    let (id, body) = b.reserve().unwrap();
    assert_eq!(id, 1);
    assert_eq!(body, "hello world!");
}

#[test]
fn short_read_is_detected() {
    let mut b = client("RESERVED 1 10\r\nhel");
    let e = b.reserve().unwrap_err();
    assert!(matches!(e, BeanstalkdError::ShortRead));
}

#[test]
fn unknown_status_carries_token() {
    let mut t = MemTransport::new("BOGUS 3\r\n".as_bytes().to_vec());
    let mut carry: Vec<u8> = Vec::new();
    let e = receive(&mut t, &mut carry).unwrap_err();
    match e {
        BeanstalkdError::UnknownStatusError(tok) => assert_eq!(tok, "BOGUS"),
        other => panic!("wrong error: {:?}", other),
    }
}

#[test]
fn reserve_with_timeout_no_job() {
    let mut b = client("TIMED_OUT\r\n");
    let r = b.reserve_with_timeout(10).unwrap();
    assert_eq!(r, None);
    assert_eq!(b.transport().log().as_slice(), "reserve-with-timeout 10\r\n".as_bytes());
}

#[test]
fn delete_all_runs_once_per_job() {
    let feed = "FOUND 1 2\r\nhi\r\nDELETED\r\nFOUND 2 2\r\nyo\r\nDELETED\r\nNOT_FOUND\r\n";
    let mut b = client(feed);
    b.delete_all_ready().unwrap();
    let expected = "peek-ready\r\ndelete 1\r\npeek-ready\r\ndelete 2\r\npeek-ready\r\n";
    assert_eq!(b.transport().log().as_slice(), expected.as_bytes());
    assert_eq!(b.transport().pending(), 0);
}

#[test]
fn delete_all_aborts_on_first_error() {
    // the delete is answered with NOT_FOUND: no further peek may follow
    let feed = "FOUND 1 2\r\nhi\r\nNOT_FOUND\r\n";
    let mut b = client(feed);
    let e = b.delete_all_ready().unwrap_err();
    assert!(matches!(e, BeanstalkdError::UnexpectedStatus(Status::NOT_FOUND)));
    let expected = "peek-ready\r\ndelete 1\r\n";
    assert_eq!(b.transport().log().as_slice(), expected.as_bytes());
}

#[test]
fn stats_parses_key_value_block() {
    let payload = "---\ncurrent-jobs: 3\nversion: 1.2\n";
    let feed = format!("OK {}\r\n{}\r\n", payload.len(), payload);
    let mut b = client(&feed);
    let pairs = b.stats().unwrap();
    assert_eq!(
        pairs,
        vec![
            ("current-jobs".to_string(), "3".to_string()),
            ("version".to_string(), "1.2".to_string()),
        ]
    );
}

#[test]
fn stats_job_expected_status() {
    let payload = "id: 9\n";
    let feed = format!("OK {}\r\n{}\r\n", payload.len(), payload);
    let mut b = client(&feed);
    let pairs = b.stats_job(9).unwrap();
    assert_eq!(pairs, vec![("id".to_string(), "9".to_string())]);
    assert_eq!(b.transport().log().as_slice(), "stats-job 9\r\n".as_bytes());
}

#[test]
fn malformed_count_token() {
    let mut b = client("OK x\r\n");
    let e = b.stats().unwrap_err();
    assert!(matches!(e, BeanstalkdError::MalformedReply));
}

#[test]
fn missing_count_token() {
    let mut b = client("RESERVED 1\r\n");
    let e = b.reserve().unwrap_err();
    assert!(matches!(e, BeanstalkdError::MalformedReply));
}

#[test]
fn closed_before_status_line() {
    let mut b = client("");
    let e = b.delete(1).unwrap_err();
    assert!(matches!(e, BeanstalkdError::ConnectionError));
}

#[test]
fn payload_that_is_not_text() {
    let mut feed = "OK 2\r\n".as_bytes().to_vec();
    feed.extend_from_slice(&[0xff, 0xfe]);
    feed.extend_from_slice("\r\n".as_bytes());
    let mut b = Beanstalkd::new(MemTransport::new(feed));
    let e = b.stats().unwrap_err();
    assert!(matches!(e, BeanstalkdError::PayloadDecodeFailure));
}

#[test]
fn ignore_last_watched_tube() {
    let mut b = client("NOT_IGNORED\r\n");
    let r = b.ignore("default").unwrap();
    assert_eq!(r, None);
}

#[test]
fn watch_returns_count() {
    let mut b = client("WATCHING 2\r\n");
    assert_eq!(b.watch("other").unwrap(), 2);
    assert_eq!(b.transport().log().as_slice(), "watch other\r\n".as_bytes());
}

#[test]
fn tube_selects_and_acknowledges() {
    let mut b = client("USING custom\r\n");
    b.tube("custom").unwrap();
    assert_eq!(b.transport().log().as_slice(), "use custom\r\n".as_bytes());
}

#[test]
fn put_surfaces_other_status() {
    let mut b = client("BURIED\r\n");
    let e = b.put("x", 0, 0, 1).unwrap_err();
    assert!(matches!(e, BeanstalkdError::UnexpectedStatus(Status::BURIED)));
}

#[test]
fn release_bury_touch_acknowledged() {
    let mut b = client("RELEASED\r\nBURIED\r\nTOUCHED\r\n");
    b.release(1, 1024, 10).unwrap();
    b.bury(1, 1024).unwrap();
    b.touch(1).unwrap();
    let expected = "release 1 1024 10\r\nbury 1 1024\r\ntouch 1\r\n";
    assert_eq!(b.transport().log().as_slice(), expected.as_bytes());
}

#[test]
fn line_feed_only_terminator() {
    let mut b = client("INSERTED 7\n");
    assert_eq!(b.put("a", 1, 2, 3).unwrap(), 7);
}

#[test]
fn numeral_parsing_edges() {
    assert_eq!(text::parse_u64("0"), Some(0));
    assert_eq!(text::parse_u64("007"), Some(7));
    assert_eq!(text::parse_u64("18446744073709551615"), Some(u64::MAX));
    assert_eq!(text::parse_u64("18446744073709551616"), None);
    assert_eq!(text::parse_u64(""), None);
    assert_eq!(text::parse_u64("12a"), None);
    assert_eq!(text::parse_u64("-3"), None);
}

#[test]
fn numeral_formatting() {
    assert_eq!(text::u64_to_string(0), "0");
    assert_eq!(text::u64_to_string(10), "10");
    assert_eq!(text::u64_to_string(u64::MAX), "18446744073709551615");
}

#[test]
fn error_messages() {
    assert_eq!(BeanstalkdError::ConnectionError.message(), "Connection error occurred");
    assert_eq!(
        BeanstalkdError::UnknownStatusError("BOGUS".to_string()).message(),
        "Unknown status: BOGUS"
    );
}
