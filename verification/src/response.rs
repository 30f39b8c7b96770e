use vstd::prelude::*;

use vstd::utf8::{decode_utf8, valid_utf8};

use crate::text::{dec_value, first_sep, is_digits, split_on, strip_eol};

verus! {

/// The closed vocabulary of reply status tokens, spelled as they appear
/// on the wire.
#[allow(non_camel_case_types)]
#[derive(Clone, Copy, Debug, PartialEq, Eq, Structural)]
pub enum Status {
    OK,
    RESERVED,
    INSERTED,
    USING,
    DELETED,
    WATCHING,
    NOT_IGNORED,
    NOT_FOUND,
    FOUND,
    TIMED_OUT,
    RELEASED,
    BURIED,
    TOUCHED,
}

impl Status {
    /// For statuses followed by a payload, the index of the whitespace
    /// delimited token on the status line that holds the payload byte
    /// count; `None` for statuses that carry no payload.
    pub open spec fn payload_index(self) -> Option<int> {
        match self {
            Status::OK => Some(1),
            Status::RESERVED => Some(2),
            Status::FOUND => Some(2),
            _ => None,
        }
    }
}

/// The status a token names, or nothing for a token outside the closed
/// vocabulary.
pub open spec fn status_of(tok: Seq<char>) -> Option<Status> {
    if tok == "OK"@ {
        Some(Status::OK)
    } else if tok == "RESERVED"@ {
        Some(Status::RESERVED)
    } else if tok == "INSERTED"@ {
        Some(Status::INSERTED)
    } else if tok == "USING"@ {
        Some(Status::USING)
    } else if tok == "DELETED"@ {
        Some(Status::DELETED)
    } else if tok == "WATCHING"@ {
        Some(Status::WATCHING)
    } else if tok == "NOT_IGNORED"@ {
        Some(Status::NOT_IGNORED)
    } else if tok == "NOT_FOUND"@ {
        Some(Status::NOT_FOUND)
    } else if tok == "FOUND"@ {
        Some(Status::FOUND)
    } else if tok == "TIMED_OUT"@ {
        Some(Status::TIMED_OUT)
    } else if tok == "RELEASED"@ {
        Some(Status::RELEASED)
    } else if tok == "BURIED"@ {
        Some(Status::BURIED)
    } else if tok == "TOUCHED"@ {
        Some(Status::TOUCHED)
    } else {
        None
    }
}

/// Classifies one status-line token against the closed vocabulary.
pub fn parse_status(tok: &str) -> (r: Option<Status>)
    ensures
        r == status_of(tok@),
{
    let t = tok.to_owned();
    if t == "OK".to_owned() {
        Some(Status::OK)
    } else if t == "RESERVED".to_owned() {
        Some(Status::RESERVED)
    } else if t == "INSERTED".to_owned() {
        Some(Status::INSERTED)
    } else if t == "USING".to_owned() {
        Some(Status::USING)
    } else if t == "DELETED".to_owned() {
        Some(Status::DELETED)
    } else if t == "WATCHING".to_owned() {
        Some(Status::WATCHING)
    } else if t == "NOT_IGNORED".to_owned() {
        Some(Status::NOT_IGNORED)
    } else if t == "NOT_FOUND".to_owned() {
        Some(Status::NOT_FOUND)
    } else if t == "FOUND".to_owned() {
        Some(Status::FOUND)
    } else if t == "TIMED_OUT".to_owned() {
        Some(Status::TIMED_OUT)
    } else if t == "RELEASED".to_owned() {
        Some(Status::RELEASED)
    } else if t == "BURIED".to_owned() {
        Some(Status::BURIED)
    } else if t == "TOUCHED".to_owned() {
        Some(Status::TOUCHED)
    } else {
        None
    }
}

impl Status {
    /// Executable counterpart of [`Status::payload_index`].
    pub fn payload_token_index(&self) -> (r: Option<usize>)
        ensures
            r is Some <==> self.payload_index() is Some,
            r matches Some(u) ==> self.payload_index() == Some(u as int),
    {
        match *self {
            Status::OK => Some(1),
            Status::RESERVED => Some(2),
            Status::FOUND => Some(2),
            _ => None,
        }
    }
}

/// One decoded server reply: its classified status, and the full decoded
/// text of the reply. `data` always begins with the literal status line
/// (line break included); when the status carries a payload, the payload
/// text follows, stripped of its trailing line break.
#[derive(Debug)]
pub struct Response {
    pub status: Status,
    pub data: String,
}

// ---------------------------------------------------------------------------
// How one reply reads out of a byte stream
// ---------------------------------------------------------------------------

/// Byte length of the first line of `stream`: up to and including the
/// first line feed, or all of `stream` when it holds none.
pub open spec fn line_len(stream: Seq<u8>) -> int {
    if first_sep(stream, 10u8) == stream.len() {
        stream.len() as int
    } else {
        first_sep(stream, 10u8) + 1
    }
}

/// Whether a byte-count token is usable: all digits, and small enough
/// that the count plus its two-byte line terminator fits the machine's
/// index type.
pub open spec fn usable_count(tok: Seq<char>) -> bool {
    is_digits(tok) && dec_value(tok) + 2 <= usize::MAX
}

/// What decoding one reply from the front of a byte stream yields.
/// This is the ghost mirror of the decoder, written over the stream
/// contents alone.
pub enum ReplyModel {
    /// The stream held nothing: the peer closed before a status line.
    Closed,
    /// The status line is not valid text.
    LineNotText,
    /// The leading token is outside the status vocabulary.
    Unknown { token: Seq<char> },
    /// The byte-count token its status requires is missing or unusable.
    Malformed,
    /// The stream ended before the declared payload bytes plus their
    /// trailing line break.
    Short,
    /// The payload bytes are not valid text.
    PayloadNotText,
    /// A well-formed reply: its status, the decoded text of the whole
    /// reply, and how many stream bytes it occupied.
    Reply { status: Status, data: Seq<char>, used: int },
}

/// Reads one reply off the front of `stream`: the first line is
/// classified by its leading token; when the status carries a payload,
/// the byte count is read from the status's designated token and
/// exactly that many payload bytes (plus a two-byte line terminator,
/// consumed but not kept) must follow.
pub open spec fn reply_of(stream: Seq<u8>) -> ReplyModel {
    if stream.len() == 0 {
        ReplyModel::Closed
    } else {
        let ll = line_len(stream);
        let line = stream.take(ll);
        let rest = stream.skip(ll);
        if !valid_utf8(line) {
            ReplyModel::LineNotText
        } else {
            let lchars = decode_utf8(line);
            let toks = split_on(strip_eol(lchars), ' ');
            match status_of(toks[0]) {
                None => ReplyModel::Unknown { token: toks[0] },
                Some(status) => match status.payload_index() {
                    None => ReplyModel::Reply { status, data: lchars, used: ll },
                    Some(ix) => if toks.len() <= ix {
                        ReplyModel::Malformed
                    } else if !usable_count(toks[ix]) {
                        ReplyModel::Malformed
                    } else {
                        let n = dec_value(toks[ix]);
                        if rest.len() < n + 2 {
                            ReplyModel::Short
                        } else if !valid_utf8(rest.take(n)) {
                            ReplyModel::PayloadNotText
                        } else {
                            ReplyModel::Reply {
                                status,
                                data: lchars + decode_utf8(rest.take(n)),
                                used: ll + n + 2,
                            }
                        }
                    },
                },
            }
        }
    }
}

/// A well-formed reply occupies at least one byte of the stream, and
/// no more than the stream holds.
pub proof fn lemma_reply_used(stream: Seq<u8>)
    ensures
        reply_of(stream) matches ReplyModel::Reply { used, .. } ==> 1 <= used <= stream.len(),
{
    if stream.len() > 0 {
        crate::text::lemma_first_sep(stream, 10u8);
        let ll = line_len(stream);
        assert(1 <= ll <= stream.len());
        assert(stream.skip(ll).len() == stream.len() - ll);
        let line = stream.take(ll);
        if valid_utf8(line) {
            let toks = split_on(strip_eol(decode_utf8(line)), ' ');
            match status_of(toks[0]) {
                Some(status) => match status.payload_index() {
                    Some(ix) => if ix < toks.len() && usable_count(toks[ix]) {
                        crate::text::lemma_dec_value_nonneg(toks[ix]);
                    },
                    None => {},
                },
                None => {},
            }
        }
    }
}

/// The decoder's contract: given the stream contents `pre` before the
/// call, relates its result `r` and the stream contents `post` after
/// it. A well-formed reply is returned exactly and consumed exactly;
/// each failure of the model maps to its error kind, and after a
/// failure the stream is not to be used further, so `post` is left
/// open there.
pub open spec fn receive_post(
    pre: Seq<u8>,
    r: Result<Response, crate::error::BeanstalkdError>,
    post: Seq<u8>,
) -> bool {
    match reply_of(pre) {
        ReplyModel::Closed => r matches Err(crate::error::BeanstalkdError::ConnectionError),
        ReplyModel::LineNotText => r matches Err(crate::error::BeanstalkdError::MalformedReply),
        ReplyModel::Unknown { token } => r matches Err(
            crate::error::BeanstalkdError::UnknownStatusError(t),
        ) && t@ == token,
        ReplyModel::Malformed => r matches Err(crate::error::BeanstalkdError::MalformedReply),
        ReplyModel::Short => r matches Err(crate::error::BeanstalkdError::ShortRead),
        ReplyModel::PayloadNotText => r matches Err(
            crate::error::BeanstalkdError::PayloadDecodeFailure,
        ),
        ReplyModel::Reply { status, data, used } => r matches Ok(resp) && resp.status == status
            && resp.data@ == data && post == pre.skip(used),
    }
}

} // verus!
