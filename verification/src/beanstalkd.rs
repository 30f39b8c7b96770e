use vstd::prelude::*;

use vstd::utf8::encode_utf8;

use crate::commands;
use crate::error::{BeanstalkdError, BeanstalkdResult};
use crate::parse;
use crate::parse::{pair_views_of, spec_body_of, spec_id_of, spec_stats_of};
use crate::request::receive;
use crate::response::{receive_post, reply_of, ReplyModel, Response, Status};
use crate::transport::Transport;

verus! {

// ---------------------------------------------------------------------------
// What each operation makes of the reply the stream holds
// ---------------------------------------------------------------------------

/// How a protocol-level failure of the reply maps to the operation's
/// error, whatever the operation's result type.
pub open spec fn failure_result<A>(pre: Seq<u8>, r: Result<A, BeanstalkdError>) -> bool {
    match reply_of(pre) {
        ReplyModel::Closed => r == Err::<A, BeanstalkdError>(BeanstalkdError::ConnectionError),
        ReplyModel::LineNotText => r == Err::<A, BeanstalkdError>(BeanstalkdError::MalformedReply),
        ReplyModel::Unknown { token } => r matches Err(BeanstalkdError::UnknownStatusError(t))
            && t@ == token,
        ReplyModel::Malformed => r == Err::<A, BeanstalkdError>(BeanstalkdError::MalformedReply),
        ReplyModel::Short => r == Err::<A, BeanstalkdError>(BeanstalkdError::ShortRead),
        ReplyModel::PayloadNotText => r == Err::<A, BeanstalkdError>(
            BeanstalkdError::PayloadDecodeFailure,
        ),
        ReplyModel::Reply { .. } => false,
    }
}

/// Outcome of an operation that only expects an acknowledgement.
pub open spec fn unit_result(
    pre: Seq<u8>,
    post: Seq<u8>,
    expected: Status,
    r: Result<(), BeanstalkdError>,
) -> bool {
    match reply_of(pre) {
        ReplyModel::Reply { status, data, used } => if status == expected {
            r == Ok::<(), BeanstalkdError>(()) && post == pre.skip(used)
        } else {
            r == Err::<(), BeanstalkdError>(BeanstalkdError::UnexpectedStatus(status)) && post
                == pre.skip(used)
        },
        _ => failure_result(pre, r),
    }
}

/// Outcome of an operation whose reply carries a number in the second
/// token of its status line.
pub open spec fn id_result(
    pre: Seq<u8>,
    post: Seq<u8>,
    expected: Status,
    r: Result<u64, BeanstalkdError>,
) -> bool {
    match reply_of(pre) {
        ReplyModel::Reply { status, data, used } => if status == expected {
            match spec_id_of(data) {
                Some(v) => r == Ok::<u64, BeanstalkdError>(v) && post == pre.skip(used),
                None => r == Err::<u64, BeanstalkdError>(BeanstalkdError::MalformedReply) && post
                    == pre.skip(used),
            }
        } else {
            r == Err::<u64, BeanstalkdError>(BeanstalkdError::UnexpectedStatus(status)) && post
                == pre.skip(used)
        },
        _ => failure_result(pre, r),
    }
}

/// Outcome of claiming a job: an id and a body on the expected status.
pub open spec fn job_result(
    pre: Seq<u8>,
    post: Seq<u8>,
    r: Result<(u64, String), BeanstalkdError>,
) -> bool {
    match reply_of(pre) {
        ReplyModel::Reply { status, data, used } => if status == Status::RESERVED {
            match spec_id_of(data) {
                Some(v) => r matches Ok(p) && p.0 == v && p.1@ == spec_body_of(data) && post
                    == pre.skip(used),
                None => r == Err::<(u64, String), BeanstalkdError>(
                    BeanstalkdError::MalformedReply,
                ) && post == pre.skip(used),
            }
        } else {
            r == Err::<(u64, String), BeanstalkdError>(BeanstalkdError::UnexpectedStatus(status))
                && post == pre.skip(used)
        },
        _ => failure_result(pre, r),
    }
}

/// Outcome of an operation that may find a job or come back empty: a
/// job on `found`, an explicit "no job" on `absent`.
pub open spec fn opt_job_result(
    pre: Seq<u8>,
    post: Seq<u8>,
    found: Status,
    absent: Status,
    r: Result<Option<(u64, String)>, BeanstalkdError>,
) -> bool {
    match reply_of(pre) {
        ReplyModel::Reply { status, data, used } => if status == found {
            match spec_id_of(data) {
                Some(v) => r matches Ok(Some(p)) && p.0 == v && p.1@ == spec_body_of(data) && post
                    == pre.skip(used),
                None => r == Err::<Option<(u64, String)>, BeanstalkdError>(
                    BeanstalkdError::MalformedReply,
                ) && post == pre.skip(used),
            }
        } else if status == absent {
            r == Ok::<Option<(u64, String)>, BeanstalkdError>(None) && post == pre.skip(used)
        } else {
            r == Err::<Option<(u64, String)>, BeanstalkdError>(
                BeanstalkdError::UnexpectedStatus(status),
            ) && post == pre.skip(used)
        },
        _ => failure_result(pre, r),
    }
}

/// Outcome of removing a tube from the watch list: the count still
/// watched, or an explicit "not removable".
pub open spec fn count_result(
    pre: Seq<u8>,
    post: Seq<u8>,
    r: Result<Option<u64>, BeanstalkdError>,
) -> bool {
    match reply_of(pre) {
        ReplyModel::Reply { status, data, used } => if status == Status::WATCHING {
            match spec_id_of(data) {
                Some(v) => r == Ok::<Option<u64>, BeanstalkdError>(Some(v)) && post == pre.skip(
                    used,
                ),
                None => r == Err::<Option<u64>, BeanstalkdError>(BeanstalkdError::MalformedReply)
                    && post == pre.skip(used),
            }
        } else if status == Status::NOT_IGNORED {
            r == Ok::<Option<u64>, BeanstalkdError>(None) && post == pre.skip(used)
        } else {
            r == Err::<Option<u64>, BeanstalkdError>(BeanstalkdError::UnexpectedStatus(status))
                && post == pre.skip(used)
        },
        _ => failure_result(pre, r),
    }
}

/// Outcome of asking for a statistics block: its key/value pairs.
pub open spec fn stats_result(
    pre: Seq<u8>,
    post: Seq<u8>,
    r: Result<Vec<(String, String)>, BeanstalkdError>,
) -> bool {
    match reply_of(pre) {
        ReplyModel::Reply { status, data, used } => if status == Status::OK {
            r matches Ok(v) && pair_views_of(v@) == spec_stats_of(spec_body_of(data)) && post
                == pre.skip(used)
        } else {
            r == Err::<Vec<(String, String)>, BeanstalkdError>(
                BeanstalkdError::UnexpectedStatus(status),
            ) && post == pre.skip(used)
        },
        _ => failure_result(pre, r),
    }
}

// ---------------------------------------------------------------------------
// The client
// ---------------------------------------------------------------------------

/// A server-side job state that can be peeked at.
#[derive(Clone, Copy, Debug, PartialEq, Eq, Structural)]
pub enum JobState {
    Ready,
    Delayed,
    Buried,
}

/// The command that inspects the next job in the given state.
pub open spec fn peek_command_for(state: JobState) -> Seq<char> {
    match state {
        JobState::Ready => commands::peek_ready_command(),
        JobState::Delayed => commands::peek_delayed_command(),
        JobState::Buried => commands::peek_buried_command(),
    }
}

/// How the bulk-deletion loop walks the stream: pairs of a found job
/// and its deletion acknowledgement, ending at the first "none found";
/// the first failing or unexpected reply aborts with its error.
pub open spec fn drain_post(
    pre: Seq<u8>,
    r: Result<(), BeanstalkdError>,
    post: Seq<u8>,
) -> bool
    decreases pre.len(),
{
    match reply_of(pre) {
        ReplyModel::Reply { status, data, used } => if status == Status::NOT_FOUND {
            r == Ok::<(), BeanstalkdError>(()) && post == pre.skip(used)
        } else if status == Status::FOUND {
            match spec_id_of(data) {
                Some(id) => {
                    let mid = pre.skip(used);
                    match reply_of(mid) {
                        ReplyModel::Reply { status: st2, used: u2, .. } => if st2
                            == Status::DELETED {
                            if 1 <= used && 1 <= u2 && used + u2 <= pre.len() {
                                drain_post(pre.skip(used + u2), r, post)
                            } else {
                                true
                            }
                        } else {
                            r == Err::<(), BeanstalkdError>(BeanstalkdError::UnexpectedStatus(st2))
                                && post == mid.skip(u2)
                        },
                        _ => failure_result(mid, r),
                    }
                },
                None => r == Err::<(), BeanstalkdError>(BeanstalkdError::MalformedReply) && post
                    == pre.skip(used),
            }
        } else {
            r == Err::<(), BeanstalkdError>(BeanstalkdError::UnexpectedStatus(status)) && post
                == pre.skip(used)
        },
        _ => failure_result(pre, r),
    }
}

/// The commands the bulk-deletion loop writes while it walks the
/// stream: the state's peek command before every reply it consumes,
/// and the delete command of each id a FOUND reply carried — so one
/// delete per peeked job, of that job's id, and nothing after the
/// reply that stops the loop.
pub open spec fn drain_commands(pre: Seq<u8>, state: JobState) -> Seq<u8>
    decreases pre.len(),
{
    let peek = encode_utf8(peek_command_for(state));
    match reply_of(pre) {
        ReplyModel::Reply { status, data, used } => if status == Status::NOT_FOUND {
            peek
        } else if status == Status::FOUND {
            match spec_id_of(data) {
                Some(id) => {
                    let both = peek + encode_utf8(commands::delete_command(id));
                    let mid = pre.skip(used);
                    match reply_of(mid) {
                        ReplyModel::Reply { status: st2, used: u2, .. } => if st2
                            == Status::DELETED {
                            if 1 <= used && 1 <= u2 && used + u2 <= pre.len() {
                                both + drain_commands(pre.skip(used + u2), state)
                            } else {
                                both
                            }
                        } else {
                            both
                        },
                        _ => both,
                    }
                },
                None => peek,
            }
        } else {
            peek
        },
        _ => peek,
    }
}

/// A stream that drains to success: pairs of a found job and its
/// deletion acknowledgement, then a "none found" reply, consuming the
/// stream down to `post`.
pub open spec fn drains_clean(pre: Seq<u8>, post: Seq<u8>) -> bool
    decreases pre.len(),
{
    match reply_of(pre) {
        ReplyModel::Reply { status, data, used } => if status == Status::NOT_FOUND {
            post == pre.skip(used)
        } else if status == Status::FOUND {
            match spec_id_of(data) {
                Some(id) => match reply_of(pre.skip(used)) {
                    ReplyModel::Reply { status: st2, used: u2, .. } => st2 == Status::DELETED && (
                    if 1 <= used && 1 <= u2 && used + u2 <= pre.len() {
                        drains_clean(pre.skip(used + u2), post)
                    } else {
                        true
                    }),
                    _ => false,
                },
                None => false,
            }
        } else {
            false
        },
        _ => false,
    }
}

/// A drain that came back successful, per `drain_post`, walked a
/// clean stream.
pub proof fn lemma_drain_ok_clean(pre: Seq<u8>, r: Result<(), BeanstalkdError>, post: Seq<u8>)
    requires
        drain_post(pre, r, post),
        r is Ok,
    ensures
        drains_clean(pre, post),
    decreases pre.len(),
{
    crate::response::lemma_reply_used(pre);
    match reply_of(pre) {
        ReplyModel::Reply { status, data, used } => {
            if status == Status::FOUND {
                match spec_id_of(data) {
                    Some(id) => {
                        let mid = pre.skip(used);
                        crate::response::lemma_reply_used(mid);
                        match reply_of(mid) {
                            ReplyModel::Reply { status: st2, used: u2, .. } => {
                                if st2 == Status::DELETED {
                                    lemma_drain_ok_clean(pre.skip(used + u2), r, post);
                                }
                            },
                            _ => {},
                        }
                    },
                    None => {},
                }
            }
        },
        _ => {},
    }
}

/// The client facade: one open connection, one request in flight at a
/// time. Every operation writes one command, reads one reply, and
/// projects it into a typed result.
pub struct Beanstalkd<T: Transport> {
    stream: T,
    carry: Vec<u8>,
}

impl<T: Transport> Beanstalkd<T> {
    /// The bytes of the reply stream not yet consumed: what was read
    /// ahead of need plus what the peer will still deliver.
    pub closed spec fn unread(&self) -> Seq<u8> {
        self.carry@ + self.stream.incoming()
    }

    /// Everything written to the connection so far.
    pub closed spec fn sent(&self) -> Seq<u8> {
        self.stream.sent()
    }

    /// Wraps an open connection.
    pub fn new(stream: T) -> (r: Beanstalkd<T>)
        ensures
            r.unread() == stream.incoming(),
            r.sent() == stream.sent(),
    {
        let r = Beanstalkd { stream, carry: Vec::new() };
        proof {
            assert(r.unread() =~= r.stream.incoming());
        }
        r
    }

    /// The connection itself, for inspection.
    pub fn transport(&self) -> (r: &T)
        ensures
            r.sent() == self.sent(),
    {
        &self.stream
    }

    /// Writes one command and decodes the one reply that answers it.
    fn cmd(&mut self, message: String) -> (r: BeanstalkdResult<Response>)
        ensures
            final(self).sent() == old(self).sent() + encode_utf8(message@),
            receive_post(old(self).unread(), r, final(self).unread()),
    {
        self.stream.send_all(message.as_str().as_bytes());
        receive(&mut self.stream, &mut self.carry)
    }

    /// Selects the tube that later insertions go to.
    pub fn tube(&mut self, name: &str) -> (r: BeanstalkdResult<()>)
        ensures
            final(self).sent() == old(self).sent() + encode_utf8(commands::tube_command(name@)),
            unit_result(old(self).unread(), final(self).unread(), Status::USING, r),
    {
        let resp = match self.cmd(commands::tube(name)) {
            Ok(resp) => resp,
            Err(e) => {
                return Err(e);
            },
        };
        if resp.status == Status::USING {
            Ok(())
        } else {
            Err(BeanstalkdError::UnexpectedStatus(resp.status))
        }
    }

    /// Enqueues a job; on success returns the id the server assigned.
    pub fn put(&mut self, body: &str, priority: u32, delay: u32, ttr: u32) -> (r: BeanstalkdResult<
        u64,
    >)
        ensures
            final(self).sent() == old(self).sent() + encode_utf8(
                commands::put_command(body@, priority, delay, ttr),
            ),
            id_result(old(self).unread(), final(self).unread(), Status::INSERTED, r),
    {
        let resp = match self.cmd(commands::put(body, priority, delay, ttr)) {
            Ok(resp) => resp,
            Err(e) => {
                return Err(e);
            },
        };
        if resp.status == Status::INSERTED {
            parse::id(&resp)
        } else {
            Err(BeanstalkdError::UnexpectedStatus(resp.status))
        }
    }

    /// Claims the next ready job, blocking until one exists.
    pub fn reserve(&mut self) -> (r: BeanstalkdResult<(u64, String)>)
        ensures
            final(self).sent() == old(self).sent() + encode_utf8(commands::reserve_command()),
            job_result(old(self).unread(), final(self).unread(), r),
    {
        let resp = match self.cmd(commands::reserve()) {
            Ok(resp) => resp,
            Err(e) => {
                return Err(e);
            },
        };
        if resp.status == Status::RESERVED {
            let id = match parse::id(&resp) {
                Ok(id) => id,
                Err(e) => {
                    return Err(e);
                },
            };
            let body = parse::body(&resp);
            Ok((id, body))
        } else {
            Err(BeanstalkdError::UnexpectedStatus(resp.status))
        }
    }

    /// Claims the next ready job, or comes back empty when the server
    /// gives up after `timeout` seconds.
    pub fn reserve_with_timeout(&mut self, timeout: u64) -> (r: BeanstalkdResult<
        Option<(u64, String)>,
    >)
        ensures
            final(self).sent() == old(self).sent() + encode_utf8(
                commands::reserve_with_timeout_command(timeout),
            ),
            opt_job_result(
                old(self).unread(),
                final(self).unread(),
                Status::RESERVED,
                Status::TIMED_OUT,
                r,
            ),
    {
        let resp = match self.cmd(commands::reserve_with_timeout(timeout)) {
            Ok(resp) => resp,
            Err(e) => {
                return Err(e);
            },
        };
        if resp.status == Status::RESERVED {
            let id = match parse::id(&resp) {
                Ok(id) => id,
                Err(e) => {
                    return Err(e);
                },
            };
            let body = parse::body(&resp);
            Ok(Some((id, body)))
        } else if resp.status == Status::TIMED_OUT {
            Ok(None)
        } else {
            Err(BeanstalkdError::UnexpectedStatus(resp.status))
        }
    }

    /// Removes a job entirely.
    pub fn delete(&mut self, id: u64) -> (r: BeanstalkdResult<()>)
        ensures
            final(self).sent() == old(self).sent() + encode_utf8(commands::delete_command(id)),
            unit_result(old(self).unread(), final(self).unread(), Status::DELETED, r),
    {
        let resp = match self.cmd(commands::delete(id)) {
            Ok(resp) => resp,
            Err(e) => {
                return Err(e);
            },
        };
        if resp.status == Status::DELETED {
            Ok(())
        } else {
            Err(BeanstalkdError::UnexpectedStatus(resp.status))
        }
    }

    /// Puts a reserved job back in the ready (or delayed) state.
    pub fn release(&mut self, id: u64, priority: u32, delay: u32) -> (r: BeanstalkdResult<()>)
        ensures
            final(self).sent() == old(self).sent() + encode_utf8(
                commands::release_command(id, priority, delay),
            ),
            unit_result(old(self).unread(), final(self).unread(), Status::RELEASED, r),
    {
        let resp = match self.cmd(commands::release(id, priority, delay)) {
            Ok(resp) => resp,
            Err(e) => {
                return Err(e);
            },
        };
        if resp.status == Status::RELEASED {
            Ok(())
        } else {
            Err(BeanstalkdError::UnexpectedStatus(resp.status))
        }
    }

    /// Sets a reserved job aside with a new priority.
    pub fn bury(&mut self, id: u64, priority: u32) -> (r: BeanstalkdResult<()>)
        ensures
            final(self).sent() == old(self).sent() + encode_utf8(
                commands::bury_command(id, priority),
            ),
            unit_result(old(self).unread(), final(self).unread(), Status::BURIED, r),
    {
        let resp = match self.cmd(commands::bury(id, priority)) {
            Ok(resp) => resp,
            Err(e) => {
                return Err(e);
            },
        };
        if resp.status == Status::BURIED {
            Ok(())
        } else {
            Err(BeanstalkdError::UnexpectedStatus(resp.status))
        }
    }

    /// Refreshes the time to run of a reserved job.
    pub fn touch(&mut self, id: u64) -> (r: BeanstalkdResult<()>)
        ensures
            final(self).sent() == old(self).sent() + encode_utf8(commands::touch_command(id)),
            unit_result(old(self).unread(), final(self).unread(), Status::TOUCHED, r),
    {
        let resp = match self.cmd(commands::touch(id)) {
            Ok(resp) => resp,
            Err(e) => {
                return Err(e);
            },
        };
        if resp.status == Status::TOUCHED {
            Ok(())
        } else {
            Err(BeanstalkdError::UnexpectedStatus(resp.status))
        }
    }

    /// The server-wide statistics block, as key/value pairs in the
    /// order the server sent them.
    pub fn stats(&mut self) -> (r: BeanstalkdResult<Vec<(String, String)>>)
        ensures
            final(self).sent() == old(self).sent() + encode_utf8(commands::stats_command()),
            stats_result(old(self).unread(), final(self).unread(), r),
    {
        let resp = match self.cmd(commands::stats()) {
            Ok(resp) => resp,
            Err(e) => {
                return Err(e);
            },
        };
        if resp.status == Status::OK {
            let body = parse::body(&resp);
            Ok(parse::stats_pairs(body.as_str()))
        } else {
            Err(BeanstalkdError::UnexpectedStatus(resp.status))
        }
    }

    /// The statistics block of one job.
    pub fn stats_job(&mut self, id: u64) -> (r: BeanstalkdResult<Vec<(String, String)>>)
        ensures
            final(self).sent() == old(self).sent() + encode_utf8(commands::stats_job_command(id)),
            stats_result(old(self).unread(), final(self).unread(), r),
    {
        let resp = match self.cmd(commands::stats_job(id)) {
            Ok(resp) => resp,
            Err(e) => {
                return Err(e);
            },
        };
        if resp.status == Status::OK {
            let body = parse::body(&resp);
            Ok(parse::stats_pairs(body.as_str()))
        } else {
            Err(BeanstalkdError::UnexpectedStatus(resp.status))
        }
    }

    /// Adds a tube to the watch list; returns how many are now watched.
    pub fn watch(&mut self, name: &str) -> (r: BeanstalkdResult<u64>)
        ensures
            final(self).sent() == old(self).sent() + encode_utf8(commands::watch_command(name@)),
            id_result(old(self).unread(), final(self).unread(), Status::WATCHING, r),
    {
        let resp = match self.cmd(commands::watch(name)) {
            Ok(resp) => resp,
            Err(e) => {
                return Err(e);
            },
        };
        if resp.status == Status::WATCHING {
            parse::id(&resp)
        } else {
            Err(BeanstalkdError::UnexpectedStatus(resp.status))
        }
    }

    /// Removes a tube from the watch list; comes back empty when the
    /// server refuses to ignore the last watched tube.
    pub fn ignore(&mut self, name: &str) -> (r: BeanstalkdResult<Option<u64>>)
        ensures
            final(self).sent() == old(self).sent() + encode_utf8(commands::ignore_command(name@)),
            count_result(old(self).unread(), final(self).unread(), r),
    {
        let resp = match self.cmd(commands::ignore(name)) {
            Ok(resp) => resp,
            Err(e) => {
                return Err(e);
            },
        };
        if resp.status == Status::WATCHING {
            match parse::id(&resp) {
                Ok(v) => Ok(Some(v)),
                Err(e) => Err(e),
            }
        } else if resp.status == Status::NOT_IGNORED {
            Ok(None)
        } else {
            Err(BeanstalkdError::UnexpectedStatus(resp.status))
        }
    }

    /// Inspects the next job in the given state without claiming it.
    pub fn peek_state(&mut self, state: JobState) -> (r: BeanstalkdResult<Option<(u64, String)>>)
        ensures
            final(self).sent() == old(self).sent() + encode_utf8(peek_command_for(state)),
            opt_job_result(
                old(self).unread(),
                final(self).unread(),
                Status::FOUND,
                Status::NOT_FOUND,
                r,
            ),
    {
        let message = match state {
            JobState::Ready => commands::peek_ready(),
            JobState::Delayed => commands::peek_delayed(),
            JobState::Buried => commands::peek_buried(),
        };
        let resp = match self.cmd(message) {
            Ok(resp) => resp,
            Err(e) => {
                return Err(e);
            },
        };
        if resp.status == Status::FOUND {
            let id = match parse::id(&resp) {
                Ok(id) => id,
                Err(e) => {
                    return Err(e);
                },
            };
            let body = parse::body(&resp);
            Ok(Some((id, body)))
        } else if resp.status == Status::NOT_FOUND {
            Ok(None)
        } else {
            Err(BeanstalkdError::UnexpectedStatus(resp.status))
        }
    }

    /// Inspects the next ready job without claiming it.
    pub fn peek_ready(&mut self) -> (r: BeanstalkdResult<Option<(u64, String)>>)
        ensures
            final(self).sent() == old(self).sent() + encode_utf8(commands::peek_ready_command()),
            opt_job_result(
                old(self).unread(),
                final(self).unread(),
                Status::FOUND,
                Status::NOT_FOUND,
                r,
            ),
    {
        self.peek_state(JobState::Ready)
    }

    /// Inspects the next delayed job without claiming it.
    pub fn peek_delayed(&mut self) -> (r: BeanstalkdResult<Option<(u64, String)>>)
        ensures
            final(self).sent() == old(self).sent() + encode_utf8(commands::peek_delayed_command()),
            opt_job_result(
                old(self).unread(),
                final(self).unread(),
                Status::FOUND,
                Status::NOT_FOUND,
                r,
            ),
    {
        self.peek_state(JobState::Delayed)
    }

    /// Inspects the next buried job without claiming it.
    pub fn peek_buried(&mut self) -> (r: BeanstalkdResult<Option<(u64, String)>>)
        ensures
            final(self).sent() == old(self).sent() + encode_utf8(commands::peek_buried_command()),
            opt_job_result(
                old(self).unread(),
                final(self).unread(),
                Status::FOUND,
                Status::NOT_FOUND,
                r,
            ),
    {
        self.peek_state(JobState::Buried)
    }

    /// Repeatedly peeks the given state and deletes the job found,
    /// until the server reports none; the first failure aborts the
    /// loop at once. Writes exactly the commands `drain_commands`
    /// ascribes to the stream: one peek per reply consumed, one delete
    /// per peeked id, nothing after the reply that stops the loop.
    pub fn delete_all_state(&mut self, state: JobState) -> (r: BeanstalkdResult<()>)
        ensures
            drain_post(old(self).unread(), r, final(self).unread()),
            final(self).sent() == old(self).sent() + drain_commands(old(self).unread(), state),
        decreases old(self).unread().len(),
    {
        let ghost pre0 = self.unread();
        let ghost sent0 = self.sent();
        proof {
            crate::response::lemma_reply_used(pre0);
        }
        let peeked = match self.peek_state(state) {
            Ok(p) => p,
            Err(e) => {
                return Err(e);
            },
        };
        match peeked {
            None => Ok(()),
            Some((job_id, _body)) => {
                let ghost mid = self.unread();
                proof {
                    crate::response::lemma_reply_used(mid);
                }
                match self.delete(job_id) {
                    Err(e) => {
                        proof {
                            let p = encode_utf8(peek_command_for(state));
                            let d = encode_utf8(commands::delete_command(job_id));
                            assert((sent0 + p) + d =~= sent0 + (p + d));
                        }
                        Err(e)
                    },
                    Ok(()) => {
                        let ghost rest2 = self.unread();
                        proof {
                            let used: int = match reply_of(pre0) {
                                ReplyModel::Reply { used, .. } => used,
                                _ => 0,
                            };
                            let u2: int = match reply_of(mid) {
                                ReplyModel::Reply { used, .. } => used,
                                _ => 0,
                            };
                            assert(pre0.skip(used).skip(u2) =~= pre0.skip(used + u2));
                        }
                        let result = self.delete_all_state(state);
                        proof {
                            let p = encode_utf8(peek_command_for(state));
                            let d = encode_utf8(commands::delete_command(job_id));
                            let tail = drain_commands(rest2, state);
                            assert(((sent0 + p) + d) + tail =~= sent0 + ((p + d) + tail));
                        }
                        result
                    },
                }
            },
        }
    }

    /// Deletes every ready job.
    pub fn delete_all_ready(&mut self) -> (r: BeanstalkdResult<()>)
        ensures
            drain_post(old(self).unread(), r, final(self).unread()),
            final(self).sent() == old(self).sent() + drain_commands(
                old(self).unread(),
                JobState::Ready,
            ),
    {
        self.delete_all_state(JobState::Ready)
    }

    /// Deletes every delayed job.
    pub fn delete_all_delayed(&mut self) -> (r: BeanstalkdResult<()>)
        ensures
            drain_post(old(self).unread(), r, final(self).unread()),
            final(self).sent() == old(self).sent() + drain_commands(
                old(self).unread(),
                JobState::Delayed,
            ),
    {
        self.delete_all_state(JobState::Delayed)
    }

    /// Deletes every buried job.
    pub fn delete_all_buried(&mut self) -> (r: BeanstalkdResult<()>)
        ensures
            drain_post(old(self).unread(), r, final(self).unread()),
            final(self).sent() == old(self).sent() + drain_commands(
                old(self).unread(),
                JobState::Buried,
            ),
    {
        self.delete_all_state(JobState::Buried)
    }

    /// Deletes every job: the ready, then the delayed, then the buried
    /// ones, in that order; the first failing phase aborts at once and
    /// returns its error, and no later phase runs.
    pub fn delete_all(&mut self) -> (r: BeanstalkdResult<()>)
        ensures
            ({
                let pre = old(self).unread();
                let post = final(self).unread();
                let sent0 = old(self).sent();
                let sent1 = final(self).sent();
                if r is Ok {
                    exists|m1: Seq<u8>, m2: Seq<u8>|
                        {
                            &&& #[trigger] drains_clean(pre, m1)
                            &&& #[trigger] drains_clean(m1, m2)
                            &&& drains_clean(m2, post)
                            &&& sent1 == sent0 + (drain_commands(pre, JobState::Ready)
                                + drain_commands(m1, JobState::Delayed) + drain_commands(
                                m2,
                                JobState::Buried,
                            ))
                        }
                } else {
                    ||| (drain_post(pre, r, post) && sent1 == sent0 + drain_commands(
                        pre,
                        JobState::Ready,
                    ))
                    ||| exists|m1: Seq<u8>|
                        {
                            &&& #[trigger] drains_clean(pre, m1)
                            &&& drain_post(m1, r, post)
                            &&& sent1 == sent0 + (drain_commands(pre, JobState::Ready)
                                + drain_commands(m1, JobState::Delayed))
                        }
                    ||| exists|m1: Seq<u8>, m2: Seq<u8>|
                        {
                            &&& #[trigger] drains_clean(pre, m1)
                            &&& #[trigger] drains_clean(m1, m2)
                            &&& drain_post(m2, r, post)
                            &&& sent1 == sent0 + (drain_commands(pre, JobState::Ready)
                                + drain_commands(m1, JobState::Delayed) + drain_commands(
                                m2,
                                JobState::Buried,
                            ))
                        }
                }
            }),
    {
        let ghost pre0 = self.unread();
        let ghost sent0 = self.sent();
        let r1 = self.delete_all_ready();
        let ghost m1 = self.unread();
        if r1.is_err() {
            return r1;
        }
        proof {
            lemma_drain_ok_clean(pre0, r1, m1);
        }
        let r2 = self.delete_all_delayed();
        let ghost m2 = self.unread();
        if r2.is_err() {
            proof {
                let c1 = drain_commands(pre0, JobState::Ready);
                let c2 = drain_commands(m1, JobState::Delayed);
                assert((sent0 + c1) + c2 =~= sent0 + (c1 + c2));
            }
            return r2;
        }
        proof {
            lemma_drain_ok_clean(m1, r2, m2);
        }
        let r3 = self.delete_all_buried();
        proof {
            let c1 = drain_commands(pre0, JobState::Ready);
            let c2 = drain_commands(m1, JobState::Delayed);
            let c3 = drain_commands(m2, JobState::Buried);
            assert(((sent0 + c1) + c2) + c3 =~= sent0 + (c1 + c2 + c3));
            if r3 is Ok {
                lemma_drain_ok_clean(m2, r3, self.unread());
            }
        }
        r3
    }
}

} // verus!
