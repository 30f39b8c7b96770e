// Multi-exchange sessions: the reply stream a server would send for
// the whole conversation, delivered through one connection.

use beanstalkd::transport::MemTransport;
use beanstalkd::Beanstalkd;

const RELEASE_DELAY: u32 = 60;

fn client(feed: String) -> Beanstalkd<MemTransport> {
    Beanstalkd::new(MemTransport::new(feed.into_bytes()))
}

#[test]
fn no_peek_on_empty_tube() {
    let tube_name = "no_peek_on_empty_tube";
    let feed = format!("USING {}\r\nWATCHING 2\r\nNOT_FOUND\r\n", tube_name);
    let mut beanstalkd = client(feed);
    beanstalkd.tube(tube_name).unwrap();
    // Don't put anything into this tube

    beanstalkd.watch(tube_name).unwrap();
    let result = beanstalkd.peek_ready();
    assert!(matches!(result, Ok(None)));
}

#[test]
fn peek_ready_finds_a_message() {
    let tube_name = "peek_ready_finds_a_message";
    let message = "Hello World";
    let feed = format!(
        "USING {}\r\nINSERTED 1\r\nWATCHING 2\r\nFOUND 1 {}\r\n{}\r\nDELETED\r\n",
        tube_name,
        message.len(),
        message
    );
    let mut beanstalkd = client(feed);
    beanstalkd.tube(tube_name).unwrap();
    beanstalkd.put(message, 0, 0, 10000).unwrap();

    beanstalkd.watch(tube_name).unwrap();
    let (job_id, actual_message) = beanstalkd.peek_ready().unwrap().unwrap();
    assert_eq!(actual_message, message);

    // Clean up
    beanstalkd.delete(job_id).unwrap();
}

#[test]
fn peek_ready_ignores_delayed_job() {
    let tube_name = "peek_ready_ignores_delayed_job";
    let message = "Hello World";
    let feed = format!(
        "USING {tube}\r\nINSERTED 1\r\nWATCHING 2\r\nRESERVED 1 {n}\r\n{msg}\r\n\
         RELEASED\r\nWATCHING 2\r\nNOT_FOUND\r\nDELETED\r\n",
        tube = tube_name,
        n = message.len(),
        msg = message
    );
    let mut beanstalkd = client(feed);
    beanstalkd.tube(tube_name).unwrap();
    beanstalkd.put(message, 0, 0, 10000).unwrap();

    // Get a job and delay it
    beanstalkd.watch(tube_name).unwrap();
    let (job_id, _) = beanstalkd.reserve().unwrap();
    beanstalkd.release(job_id, 0, RELEASE_DELAY).unwrap();

    // Because we're using peek_ready, it won't catch a job in the delayed state
    beanstalkd.watch(tube_name).unwrap();
    let result = beanstalkd.peek_ready();
    assert!(matches!(result, Ok(None)));

    // Clean up
    beanstalkd.delete(job_id).unwrap();
}

#[test]
fn peek_delayed_finds_a_message() {
    let tube_name = "peek_delayed_finds_a_message";
    let message = "Hello World";
    let feed = format!(
        "USING {tube}\r\nINSERTED 1\r\nWATCHING 2\r\nRESERVED 1 {n}\r\n{msg}\r\n\
         RELEASED\r\nFOUND 1 {n}\r\n{msg}\r\nDELETED\r\n",
        tube = tube_name,
        n = message.len(),
        msg = message
    );
    let mut beanstalkd = client(feed);
    beanstalkd.tube(tube_name).unwrap();
    beanstalkd.put(message, 0, 0, 10000).unwrap();

    // Get a job and delay it
    beanstalkd.watch(tube_name).unwrap();
    let (job_id, _) = beanstalkd.reserve().unwrap();
    beanstalkd.release(job_id, 0, RELEASE_DELAY).unwrap();

    let (job_id, actual_message) = beanstalkd.peek_delayed().unwrap().unwrap();
    assert_eq!(actual_message, message);

    // Clean up
    beanstalkd.delete(job_id).unwrap();
}

#[test]
fn peek_buried_finds_a_message() {
    let tube_name = "peek_buried_finds_a_message";
    let message = "Hello World";
    let feed = format!(
        "USING {tube}\r\nINSERTED 1\r\nWATCHING 2\r\nRESERVED 1 {n}\r\n{msg}\r\n\
         BURIED\r\nFOUND 1 {n}\r\n{msg}\r\nDELETED\r\n",
        tube = tube_name,
        n = message.len(),
        msg = message
    );
    let mut beanstalkd = client(feed);
    beanstalkd.tube(tube_name).unwrap();
    beanstalkd.put(message, 0, 0, 10000).unwrap();

    // Get a job and bury it
    beanstalkd.watch(tube_name).unwrap();
    let (job_id, _) = beanstalkd.reserve().unwrap();
    beanstalkd.bury(job_id, 0).unwrap();

    let (job_id, actual_message) = beanstalkd.peek_buried().unwrap().unwrap();
    assert_eq!(actual_message, message);

    // Clean up
    beanstalkd.delete(job_id).unwrap();
}

#[test]
fn delete_all_ready() {
    let tube_name = "delete_all_ready";
    let mut feed = format!("USING {}\r\n", tube_name);
    for idx in 0..5 {
        feed.push_str(&format!("INSERTED {}\r\n", idx + 1));
    }
    feed.push_str("WATCHING 2\r\n");
    for idx in 0..5 {
        let message = format!("Message {}", idx);
        feed.push_str(&format!("FOUND {} {}\r\n{}\r\n", idx + 1, message.len(), message));
        feed.push_str("DELETED\r\n");
    }
    feed.push_str("NOT_FOUND\r\n");
    feed.push_str("NOT_FOUND\r\n");

    let mut beanstalkd = client(feed);
    beanstalkd.tube(tube_name).unwrap();
    for idx in 0..5 {
        let message = format!("Message {}", idx);
        beanstalkd.put(&message, 0, 0, 10000).unwrap();
    }

    beanstalkd.watch(tube_name).unwrap();
    beanstalkd.delete_all_ready().unwrap();

    // There shouldn't be anything left in the tube
    let result = beanstalkd.peek_ready();
    assert!(matches!(result, Ok(None)));
}

#[test]
fn delete_all_delayed() {
    let tube_name = "delete_all_delayed";
    let num_messages: usize = 5;
    let mut feed = format!("USING {}\r\n", tube_name);
    for idx in 0..num_messages {
        feed.push_str(&format!("INSERTED {}\r\n", idx + 1));
    }
    feed.push_str("WATCHING 2\r\n");
    for idx in 0..num_messages {
        let message = format!("Message {}", idx);
        feed.push_str(&format!("RESERVED {} {}\r\n{}\r\n", idx + 1, message.len(), message));
        feed.push_str("RELEASED\r\n");
    }
    for idx in 0..num_messages {
        let message = format!("Message {}", idx);
        feed.push_str(&format!("FOUND {} {}\r\n{}\r\n", idx + 1, message.len(), message));
        feed.push_str("DELETED\r\n");
    }
    feed.push_str("NOT_FOUND\r\n");
    feed.push_str("NOT_FOUND\r\n");

    let mut beanstalkd = client(feed);
    beanstalkd.tube(tube_name).unwrap();
    for idx in 0..num_messages {
        let message = format!("Message {}", idx);
        beanstalkd.put(&message, 0, 0, 10000).unwrap();
    }

    beanstalkd.watch(tube_name).unwrap();
    for _ in 0..num_messages {
        let (job_id, _) = beanstalkd.reserve().unwrap();
        beanstalkd.release(job_id, 0, RELEASE_DELAY).unwrap();
    }

    beanstalkd.delete_all_delayed().unwrap();

    // There shouldn't be anything left in the tube
    let result = beanstalkd.peek_delayed();
    assert!(matches!(result, Ok(None)));
}

#[test]
fn delete_all_buried() {
    let tube_name = "delete_all_buried";
    let num_messages: usize = 5;
    let mut feed = format!("USING {}\r\n", tube_name);
    for idx in 0..num_messages {
        feed.push_str(&format!("INSERTED {}\r\n", idx + 1));
    }
    feed.push_str("WATCHING 2\r\n");
    for idx in 0..num_messages {
        let message = format!("Message {}", idx);
        feed.push_str(&format!("RESERVED {} {}\r\n{}\r\n", idx + 1, message.len(), message));
        feed.push_str("BURIED\r\n");
    }
    for idx in 0..num_messages {
        let message = format!("Message {}", idx);
        feed.push_str(&format!("FOUND {} {}\r\n{}\r\n", idx + 1, message.len(), message));
        feed.push_str("DELETED\r\n");
    }
    feed.push_str("NOT_FOUND\r\n");
    feed.push_str("NOT_FOUND\r\n");

    let mut beanstalkd = client(feed);
    beanstalkd.tube(tube_name).unwrap();
    for idx in 0..num_messages {
        let message = format!("Message {}", idx);
        beanstalkd.put(&message, 0, 0, 10000).unwrap();
    }

    beanstalkd.watch(tube_name).unwrap();
    for _ in 0..num_messages {
        let (job_id, _) = beanstalkd.reserve().unwrap();
        beanstalkd.bury(job_id, 0).unwrap();
    }

    beanstalkd.delete_all_buried().unwrap();

    // There shouldn't be anything left in the tube
    let result = beanstalkd.peek_buried();
    assert!(matches!(result, Ok(None)));
}

#[test]
fn work_queue_produce_and_consume_simple_message() {
    let message = "Hello World";
    let feed = format!(
        "USING hello-world\r\nINSERTED 1\r\nWATCHING 2\r\nRESERVED 1 {}\r\n{}\r\nDELETED\r\n",
        message.len(),
        message
    );
    let mut beanstalkd = client(feed);
    beanstalkd.tube("hello-world").unwrap();
    let _ = beanstalkd.put(message, 0, 0, 10000);

    beanstalkd.watch("hello-world").unwrap();
    let (id, body) = beanstalkd.reserve().unwrap();
    assert_eq!(message, body);
    let _ = beanstalkd.delete(id);
}
