use vstd::prelude::*;

use vstd::string::StringExecFns;
use vstd::utf8::{decode_utf8, encode_utf8, encode_utf8_decode_utf8, valid_utf8};

use crate::error::{BeanstalkdError, BeanstalkdResult};
use crate::response::{line_len, receive_post, reply_of, ReplyModel, Response};
use crate::text::{lemma_first_sep, lemma_first_sep_is, parse_len, split_str, strip_eol_of,
    views_of};
use crate::transport::Transport;

verus! {

/// How many bytes one read asks the transport for at most.
const READ_CHUNK: usize = 4096;

/// Relies on `String::from_utf8`: it succeeds exactly on valid UTF-8
/// input and returns a string of those very bytes.
#[verifier::external_body]
fn bytes_to_string(bytes: Vec<u8>) -> (r: Result<String, ()>)
    ensures
        r matches Ok(s) ==> encode_utf8(s@) == bytes@,
        r is Err <==> !valid_utf8(bytes@),
{
    match String::from_utf8(bytes) {
        Ok(s) => Ok(s),
        Err(_) => Err(()),
    }
}

/// Reads one line off the stream: everything up to and including the
/// first line feed, or everything left when the stream ends without
/// one. `carry` holds bytes already read off the transport but not yet
/// consumed; the pair (`carry`, transport) together is the stream.
#[verifier::loop_isolation(false)]
fn read_line_bytes<T: Transport>(t: &mut T, carry: &mut Vec<u8>) -> (line: Vec<u8>)
    ensures
        ({
            let pre = old(carry)@ + old(t).incoming();
            let ll = line_len(pre);
            &&& line@ == pre.take(ll)
            &&& final(carry)@ + final(t).incoming() == pre.skip(ll)
            &&& final(t).sent() == old(t).sent()
        }),
{
    let ghost pre = carry@ + t.incoming();
    let ghost sent0 = t.sent();
    let mut scanned: usize = 0;
    loop
        invariant
            scanned <= carry@.len(),
            carry@ + t.incoming() == pre,
            forall|k: int| 0 <= k < scanned ==> carry@[k] != 10u8,
            t.sent() == sent0,
        decreases 2 * t.incoming().len() + carry@.len() - scanned,
    {
        if scanned < carry.len() {
            if carry[scanned] == 10u8 {
                proof {
                    assert forall|k: int| 0 <= k < scanned implies pre[k] != 10u8 by {
                        assert(pre[k] == carry@[k]);
                    }
                    assert(pre[scanned as int] == carry@[scanned as int]);
                    lemma_first_sep_is(pre, 10u8, scanned as int);
                    assert(line_len(pre) == scanned + 1);
                }
                let mut rest = carry.split_off(scanned + 1);
                core::mem::swap(carry, &mut rest);
                proof {
                    assert(rest@ =~= pre.take(scanned + 1));
                    assert(carry@ + t.incoming() =~= pre.skip(scanned + 1));
                }
                return rest;
            }
            scanned = scanned + 1;
        } else {
            let ghost inc0 = t.incoming();
            let mut chunk = t.read_some(READ_CHUNK);
            proof {
                assert((carry@ + chunk@) + t.incoming() =~= carry@ + inc0);
            }
            if chunk.len() == 0 {
                proof {
                    assert(pre =~= carry@);
                    assert forall|k: int| 0 <= k < pre.len() implies pre[k] != 10u8 by {
                        assert(pre[k] == carry@[k]);
                    }
                    lemma_first_sep_is(pre, 10u8, pre.len() as int);
                    assert(line_len(pre) == pre.len());
                }
                let mut line: Vec<u8> = Vec::new();
                core::mem::swap(carry, &mut line);
                proof {
                    assert(line@ =~= pre.take(pre.len() as int));
                    assert(carry@ + t.incoming() =~= pre.skip(pre.len() as int));
                }
                return line;
            }
            carry.append(&mut chunk);
            proof {
                assert(carry@ + t.incoming() =~= pre);
            }
        }
    }
}

/// Reads exactly `n` bytes off the stream, or reports that the stream
/// ended first.
#[verifier::loop_isolation(false)]
fn read_payload<T: Transport>(t: &mut T, carry: &mut Vec<u8>, n: usize) -> (r: Option<Vec<u8>>)
    ensures
        ({
            let pre = old(carry)@ + old(t).incoming();
            &&& match r {
                Some(b) => {
                    &&& b@ == pre.take(n as int)
                    &&& n <= pre.len()
                    &&& final(carry)@ + final(t).incoming() == pre.skip(n as int)
                },
                None => pre.len() < n,
            }
            &&& final(t).sent() == old(t).sent()
        }),
{
    let ghost pre = carry@ + t.incoming();
    let ghost sent0 = t.sent();
    while carry.len() < n
        invariant
            carry@ + t.incoming() == pre,
            t.sent() == sent0,
        decreases t.incoming().len(),
    {
        let ghost inc0 = t.incoming();
        let mut chunk = t.read_some(READ_CHUNK);
        proof {
            assert((carry@ + chunk@) + t.incoming() =~= carry@ + inc0);
        }
        if chunk.len() == 0 {
            proof {
                assert(pre =~= carry@);
            }
            return None;
        }
        carry.append(&mut chunk);
        proof {
            assert(carry@ + t.incoming() =~= pre);
        }
    }
    proof {
        assert(pre.take(n as int) =~= carry@.subrange(0, n as int));
    }
    let mut out = carry.split_off(n);
    core::mem::swap(carry, &mut out);
    proof {
        assert(carry@ + t.incoming() =~= pre.skip(n as int));
    }
    Some(out)
}

/// Reads and decodes one reply from the stream: one status line,
/// classified against the vocabulary, then — for a status that carries
/// a payload — exactly the declared number of payload bytes plus their
/// trailing line break, of which only the payload is kept.
///
/// `carry` holds stream bytes already read but not yet consumed; pass
/// the same vector across calls on one connection.
pub fn receive<T: Transport>(t: &mut T, carry: &mut Vec<u8>) -> (r: BeanstalkdResult<Response>)
    ensures
        receive_post(old(carry)@ + old(t).incoming(), r, final(carry)@ + final(t).incoming()),
        final(t).sent() == old(t).sent(),
{
    let ghost pre = carry@ + t.incoming();
    proof {
        lemma_first_sep(pre, 10u8);
    }
    let ghost ll = line_len(pre);
    let line = read_line_bytes(t, carry);
    let ghost lbytes = line@;
    if line.len() == 0 {
        return Err(BeanstalkdError::ConnectionError);
    }
    proof {
        assert(pre.len() > 0);
    }
    let line_str = match bytes_to_string(line) {
        Ok(s) => s,
        Err(_) => {
            return Err(BeanstalkdError::MalformedReply);
        },
    };
    proof {
        assert(valid_utf8(lbytes));
        assert(encode_utf8(line_str@) == lbytes);
        encode_utf8_decode_utf8(line_str@);
        assert(line_str@ == decode_utf8(lbytes));
    }
    let content = strip_eol_of(line_str.as_str());
    let toks = split_str(content.as_str(), ' ');
    let ghost stoks = crate::text::split_on(content@, ' ');
    proof {
        assert(toks@.len() == views_of(toks@).len());
        assert(views_of(toks@)[0] == toks@[0]@);
    }
    let status = match crate::response::parse_status(toks[0].as_str()) {
        Some(s) => s,
        None => {
            let tok = toks[0].clone();
            return Err(BeanstalkdError::UnknownStatusError(tok));
        },
    };
    match status.payload_token_index() {
        None => {
            Ok(Response { status, data: line_str })
        },
        Some(ix) => {
            proof {
                assert(status.payload_index() == Some(ix as int));
            }
            if toks.len() <= ix {
                return Err(BeanstalkdError::MalformedReply);
            }
            proof {
                assert(views_of(toks@)[ix as int] == toks@[ix as int]@);
            }
            let n = match parse_len(toks[ix].as_str()) {
                Some(n) => n,
                None => {
                    return Err(BeanstalkdError::MalformedReply);
                },
            };
            proof {
                assert(stoks[ix as int] == toks@[ix as int]@);
                assert(crate::text::is_digits(stoks[ix as int]));
                crate::text::lemma_dec_value_nonneg(stoks[ix as int]);
                assert(crate::text::dec_value(stoks[ix as int]) == n as int);
            }
            if n > usize::MAX - 2 {
                proof {
                    assert(!crate::response::usable_count(stoks[ix as int]));
                    assert(reply_of(pre) is Malformed);
                }
                return Err(BeanstalkdError::MalformedReply);
            }
            let ghost rest = pre.skip(ll);
            let payload = match read_payload(t, carry, n + 2) {
                Some(b) => b,
                None => {
                    proof {
                        assert(crate::text::dec_value(stoks[ix as int]) == n as int);
                        assert(rest.len() < n + 2);
                        assert(reply_of(pre) is Short);
                    }
                    return Err(BeanstalkdError::ShortRead);
                },
            };
            let mut body = payload;
            body.truncate(n);
            proof {
                assert(rest.take(n + 2).subrange(0, n as int) =~= rest.take(n as int));
            }
            let ghost pbytes = body@;
            let body_str = match bytes_to_string(body) {
                Ok(s) => s,
                Err(_) => {
                    proof {
                        assert(!valid_utf8(rest.take(n as int)));
                        assert(reply_of(pre) is PayloadNotText);
                    }
                    return Err(BeanstalkdError::PayloadDecodeFailure);
                },
            };
            proof {
                assert(valid_utf8(pbytes));
                assert(encode_utf8(body_str@) == pbytes);
                encode_utf8_decode_utf8(body_str@);
                assert(body_str@ == decode_utf8(pbytes));
                assert(pre.skip(ll).skip(n + 2) =~= pre.skip(ll + n + 2));
            }
            let data = line_str.concat(body_str.as_str());
            proof {
                assert(reply_of(pre) == (ReplyModel::Reply {
                    status,
                    data: decode_utf8(lbytes) + decode_utf8(pbytes),
                    used: ll + n + 2,
                }));
                assert(data@ == decode_utf8(lbytes) + decode_utf8(pbytes));
            }
            Ok(Response { status, data })
        },
    }
}

} // verus!
