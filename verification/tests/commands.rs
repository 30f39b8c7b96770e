use beanstalkd::commands;

#[test]
fn tube_test() {
    assert_eq!(commands::tube("custom_tube"), "use custom_tube\r\n".to_string());
}

#[test]
fn put_test() {
    assert_eq!(
        commands::put("some message", 0, 2, 10000),
        "put 0 2 10000 12\r\nsome message\r\n".to_string()
    );
}

#[test]
fn reserve_test() {
    assert_eq!(commands::reserve(), "reserve\r\n".to_string());
}

#[test]
fn reserve_with_timeout_test() {
    assert_eq!(
        commands::reserve_with_timeout(10),
        "reserve-with-timeout 10\r\n".to_string()
    )
}

#[test]
fn delete_test() {
    assert_eq!(commands::delete(1), "delete 1\r\n".to_string());
}

#[test]
fn release_test() {
    assert_eq!(commands::release(1, 1024, 10), "release 1 1024 10\r\n".to_string());
}

#[test]
fn bury_test() {
    assert_eq!(commands::bury(1, 1024), "bury 1 1024\r\n".to_string());
}

#[test]
fn touch_test() {
    assert_eq!(commands::touch(1), "touch 1\r\n".to_string());
}

#[test]
fn stats_test() {
    assert_eq!(commands::stats(), "stats\r\n".to_string());
}

#[test]
fn watch_test() {
    assert_eq!(commands::watch("hello_tube"), "watch hello_tube\r\n".to_string());
}

#[test]
fn ignore_test() {
    assert_eq!(commands::ignore("hello_tube"), "ignore hello_tube\r\n".to_string());
}

#[test]
fn stats_job_command_test() {
    assert_eq!(commands::stats_job(3), "stats-job 3\r\n".to_string());
}

#[test]
fn peek_commands_test() {
    assert_eq!(commands::peek_ready(), "peek-ready\r\n".to_string());
    assert_eq!(commands::peek_delayed(), "peek-delayed\r\n".to_string());
    assert_eq!(commands::peek_buried(), "peek-buried\r\n".to_string());
}

#[test]
fn release_literal_test() {
    assert_eq!(commands::release(42, 10, 5), "release 42 10 5\r\n".to_string());
}

#[test]
fn put_literal_test() {
    assert_eq!(commands::put("hi", 0, 0, 60), "put 0 0 60 2\r\nhi\r\n".to_string());
}

#[test]
fn build_empty_args_no_trailing_space_test() {
    assert_eq!(commands::build("reserve", Vec::new(), ""), "reserve\r\n".to_string());
}

#[test]
fn build_joins_args_with_single_spaces_test() {
    let args = vec!["a".to_string(), "b".to_string(), "c".to_string()];
    assert_eq!(commands::build("verb", args, ""), "verb a b c\r\n".to_string());
}

#[test]
fn build_body_byte_count_test() {
    let args = vec!["1".to_string()];
    assert_eq!(commands::build("put", args, "abc"), "put 1 3\r\nabc\r\n".to_string());
}
