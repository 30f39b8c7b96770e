use vstd::prelude::*;

use vstd::utf8::{char_u32_cast, decode_utf8, encode_utf8, encode_utf8_decode_utf8,
    encode_utf8_valid_utf8, is_ascii_chars, is_ascii_chars_encode_utf8, valid_utf8};

use crate::beanstalkd::{id_result, opt_job_result};
use crate::error::BeanstalkdError;
use crate::parse::{spec_body_of, spec_id_of, spec_line_of};
use crate::response::{line_len, receive_post, reply_of, status_of, ReplyModel, Status};
use crate::text::{dec_str, dec_value, is_digits, lemma_dec_str_digits,
    lemma_dec_value_dec_str, lemma_dec_value_nonneg, lemma_first_sep_is, spec_parse_u64, split_on,
    strip_eol};

verus! {

/// The byte form of an ASCII character sequence: one byte per
/// character, valid text, decoding back to the characters.
proof fn lemma_ascii_bytes(chars: Seq<char>)
    requires
        is_ascii_chars(chars),
    ensures
        encode_utf8(chars).len() == chars.len(),
        forall|i: int|
            #![trigger encode_utf8(chars)[i]]
            0 <= i < chars.len() ==> encode_utf8(chars)[i] == chars[i] as u8,
        valid_utf8(encode_utf8(chars)),
        decode_utf8(encode_utf8(chars)) == chars,
{
    is_ascii_chars_encode_utf8(chars);
    encode_utf8_valid_utf8(chars);
    encode_utf8_decode_utf8(chars);
}

/// A status line of ASCII text without inner line breaks, followed by
/// arbitrary further bytes: where the line ends in the byte stream,
/// and what it decodes to.
proof fn lemma_stream_line(content: Seq<char>, tail: Seq<u8>)
    requires
        is_ascii_chars(content),
        forall|i: int| 0 <= i < content.len() ==> #[trigger] content[i] != '\n' && content[i]
            != '\r',
    ensures
        ({
            let line = content + seq!['\r', '\n'];
            let lb = encode_utf8(line);
            let stream = lb + tail;
            &&& is_ascii_chars(line)
            &&& lb.len() == line.len()
            &&& valid_utf8(lb)
            &&& decode_utf8(lb) == line
            &&& line_len(stream) == lb.len()
            &&& stream.take(lb.len() as int) == lb
            &&& stream.skip(lb.len() as int) == tail
            &&& strip_eol(line) == content
        }),
{
    let line = content + seq!['\r', '\n'];
    let lb = encode_utf8(line);
    let stream = lb + tail;
    assert forall|i: int| 0 <= i < line.len() implies '\0' <= #[trigger] line[i] <= '\u{7f}' by {
        if i < content.len() {
            assert(line[i] == content[i]);
        } else if i == content.len() {
            assert(line[i] == '\r');
        } else {
            assert(line[i] == '\n');
        }
    }
    lemma_ascii_bytes(line);
    assert forall|k: int| 0 <= k < line.len() - 1 implies #[trigger] stream[k] != 10u8 by {
        assert(stream[k] == lb[k]);
        assert(lb[k] == line[k] as u8);
        if k < content.len() {
            char_u32_cast(content[k], content[k] as u32);
            char_u32_cast('\n', '\n' as u32);
            assert(content[k] != '\n');
            assert(content[k] as u8 != 10u8);
        } else {
            assert(line[k] == '\r');
        }
    }
    assert(stream[line.len() - 1] == lb[line.len() - 1]);
    assert(lb[line.len() - 1] == '\n' as u8);
    lemma_first_sep_is(stream, 10u8, line.len() - 1);
    assert(line_len(stream) == lb.len());
    assert(stream.take(lb.len() as int) =~= lb);
    assert(stream.skip(lb.len() as int) =~= tail);
    assert(line[line.len() - 2] == '\r');
    assert(line[line.len() - 1] == '\n');
    assert(strip_eol(line) =~= content);
}

/// The wire form of the reply that announces a freshly inserted job.
pub open spec fn inserted_reply(id: u64) -> Seq<u8> {
    encode_utf8("INSERTED "@ + dec_str(id as nat) + seq!['\r', '\n'])
}

/// What the stream `INSERTED <id>` followed by a line break decodes
/// to: a well-formed reply of that status, whose numeric field reads
/// back exactly `id`.
pub proof fn lemma_inserted_reply_model(id: u64)
    ensures
        ({
            let stream = inserted_reply(id);
            let line = "INSERTED "@ + dec_str(id as nat) + seq!['\r', '\n'];
            &&& reply_of(stream) == ReplyModel::Reply {
                status: Status::INSERTED,
                data: line,
                used: stream.len() as int,
            }
            &&& spec_id_of(line) == Some(id)
        }),
{
    reveal_strlit("INSERTED ");
    reveal_strlit("INSERTED");
    reveal_strlit("OK");
    reveal_strlit("RESERVED");
    let digits = dec_str(id as nat);
    lemma_dec_str_digits(id as nat);
    lemma_dec_value_dec_str(id as nat);
    lemma_dec_value_nonneg(digits);
    let content = "INSERTED "@ + digits;
    let line = content + seq!['\r', '\n'];
    let stream = inserted_reply(id);
    assert forall|i: int| 0 <= i < content.len() implies ('\0' <= #[trigger] content[i]
        <= '\u{7f}') && content[i] != '\n' && content[i] != '\r' && ((content[i] == ' ') <==> (i
        == 8)) by {
        if i < 9 {
            assert(content[i] == "INSERTED "@[i]);
        } else {
            assert(content[i] == digits[i - 9]);
            assert(48 <= digits[i - 9] as u32 <= 57);
            char_u32_cast(digits[i - 9], digits[i - 9] as u32);
            char_u32_cast('\n', '\n' as u32);
            char_u32_cast('\r', '\r' as u32);
            char_u32_cast(' ', ' ' as u32);
        }
    }
    lemma_stream_line(content, Seq::<u8>::empty());
    assert(encode_utf8(line) + Seq::<u8>::empty() =~= stream);
    assert(line_len(stream) == stream.len());
    assert(stream.take(stream.len() as int) =~= stream);
    assert(decode_utf8(stream) == line);
    assert(strip_eol(line) == content);
    // the line splits into the status token and the numeral
    lemma_first_sep_is(content, ' ', 8);
    let toks = split_on(content, ' ');
    assert(content.take(8) =~= "INSERTED"@);
    assert(content.skip(9) =~= digits);
    assert forall|k: int| 0 <= k < digits.len() implies #[trigger] digits[k] != ' ' by {
        char_u32_cast(digits[k], digits[k] as u32);
        char_u32_cast(' ', ' ' as u32);
    }
    lemma_first_sep_is(digits, ' ', digits.len() as int);
    assert(split_on(digits, ' ') =~= seq![digits]);
    assert(toks =~= seq!["INSERTED"@, digits]);
    assert("INSERTED"@.len() != "OK"@.len());
    assert("INSERTED"@ != "OK"@);
    assert("INSERTED"@[0] == 'I');
    assert("RESERVED"@[0] == 'R');
    assert("INSERTED"@ != "RESERVED"@);
    assert(status_of(toks[0]) == Some(Status::INSERTED));
    assert(reply_of(stream) == ReplyModel::Reply {
        status: Status::INSERTED,
        data: line,
        used: stream.len() as int,
    });
    // projecting the id back out of the decoded text
    assert forall|k: int| 0 <= k < line.len() - 1 implies #[trigger] line[k] != '\n' by {
        if k < content.len() {
        } else {
            assert(line[k] == '\r');
        }
    }
    assert(line[line.len() - 1] == '\n');
    lemma_first_sep_is(line, '\n', line.len() - 1);
    assert(spec_line_of(line) =~= line);
    assert(spec_parse_u64(digits) == Some(id));
    assert(spec_id_of(line) == Some(id));
}

/// Round trip: after enqueueing, a reply `INSERTED <id>` projects to
/// exactly `id` — whatever body, priority, delay and time to run the
/// command carried.
pub proof fn lemma_put_round_trip(id: u64, r: Result<u64, BeanstalkdError>, post: Seq<u8>)
    requires
        id_result(inserted_reply(id), post, Status::INSERTED, r),
    ensures
        r == Ok::<u64, BeanstalkdError>(id),
{
    lemma_inserted_reply_model(id);
}

/// The wire form of the reply that reports a timed-out reserve.
pub open spec fn timed_out_reply() -> Seq<u8> {
    encode_utf8("TIMED_OUT"@ + seq!['\r', '\n'])
}

/// What the stream `TIMED_OUT` followed by a line break decodes to.
pub proof fn lemma_timed_out_reply_model()
    ensures
        ({
            let stream = timed_out_reply();
            reply_of(stream) == ReplyModel::Reply {
                status: Status::TIMED_OUT,
                data: "TIMED_OUT"@ + seq!['\r', '\n'],
                used: stream.len() as int,
            }
        }),
{
    reveal_strlit("TIMED_OUT");
    reveal_strlit("OK");
    reveal_strlit("RESERVED");
    reveal_strlit("INSERTED");
    reveal_strlit("USING");
    reveal_strlit("DELETED");
    reveal_strlit("WATCHING");
    reveal_strlit("NOT_IGNORED");
    reveal_strlit("NOT_FOUND");
    reveal_strlit("FOUND");
    let content = "TIMED_OUT"@;
    let line = content + seq!['\r', '\n'];
    let stream = timed_out_reply();
    assert forall|i: int| 0 <= i < content.len() implies '\0' <= #[trigger] content[i]
        <= '\u{7f}' && content[i] != '\n' && content[i] != '\r' && content[i] != ' ' by {}
    lemma_stream_line(content, Seq::<u8>::empty());
    assert(encode_utf8(line) + Seq::<u8>::empty() =~= stream);
    assert(stream.take(stream.len() as int) =~= stream);
    lemma_first_sep_is(content, ' ', content.len() as int);
    assert(split_on(content, ' ') =~= seq![content]);
    assert(status_of(content) == Some(Status::TIMED_OUT));
    assert(reply_of(stream) == ReplyModel::Reply {
        status: Status::TIMED_OUT,
        data: line,
        used: stream.len() as int,
    });
}

/// A timed-out reserve is the explicit "no job" outcome — not an
/// error, and not a job.
pub proof fn lemma_timed_out_no_job(
    r: Result<Option<(u64, String)>, BeanstalkdError>,
    post: Seq<u8>,
)
    requires
        opt_job_result(timed_out_reply(), post, Status::RESERVED, Status::TIMED_OUT, r),
    ensures
        r == Ok::<Option<(u64, String)>, BeanstalkdError>(None),
{
    lemma_timed_out_reply_model();
}

/// The wire form of a reply whose status token is outside the
/// vocabulary.
pub open spec fn bogus_reply() -> Seq<u8> {
    encode_utf8("BOGUS 3"@ + seq!['\r', '\n'])
}

/// An unrecognized status token is reported as exactly that, carrying
/// the offending token — never decoded further and never passed off as
/// anything else.
pub proof fn lemma_unknown_status_token(
    r: Result<crate::response::Response, BeanstalkdError>,
    post: Seq<u8>,
)
    requires
        receive_post(bogus_reply(), r, post),
    ensures
        r matches Err(BeanstalkdError::UnknownStatusError(t)) && t@ == "BOGUS"@,
{
    reveal_strlit("BOGUS 3");
    reveal_strlit("BOGUS");
    reveal_strlit("OK");
    reveal_strlit("RESERVED");
    reveal_strlit("INSERTED");
    reveal_strlit("USING");
    reveal_strlit("DELETED");
    reveal_strlit("WATCHING");
    reveal_strlit("NOT_IGNORED");
    reveal_strlit("NOT_FOUND");
    reveal_strlit("FOUND");
    reveal_strlit("TIMED_OUT");
    reveal_strlit("RELEASED");
    reveal_strlit("BURIED");
    reveal_strlit("TOUCHED");
    let content = "BOGUS 3"@;
    let line = content + seq!['\r', '\n'];
    let stream = bogus_reply();
    assert forall|i: int| 0 <= i < content.len() implies ('\0' <= #[trigger] content[i]
        <= '\u{7f}') && content[i] != '\n' && content[i] != '\r' by {}
    lemma_stream_line(content, Seq::<u8>::empty());
    assert(encode_utf8(line) + Seq::<u8>::empty() =~= stream);
    assert(stream.take(stream.len() as int) =~= stream);
    lemma_first_sep_is(content, ' ', 5);
    let toks = split_on(content, ' ');
    assert(toks[0] == content.take(5));
    let tok = content.take(5);
    assert(tok =~= "BOGUS"@);
    assert(tok[0] == 'B');
    assert(tok.len() == 5);
    assert(tok != "OK"@);
    assert(tok != "RESERVED"@);
    assert(tok != "INSERTED"@);
    assert("USING"@[0] == 'U');
    assert(tok != "USING"@);
    assert(tok != "DELETED"@);
    assert(tok != "WATCHING"@);
    assert(tok != "NOT_IGNORED"@);
    assert(tok != "NOT_FOUND"@);
    assert("FOUND"@[0] == 'F');
    assert(tok != "FOUND"@);
    assert(tok != "TIMED_OUT"@);
    assert(tok != "RELEASED"@);
    assert(tok != "BURIED"@);
    assert(tok != "TOUCHED"@);
    assert(status_of(tok) is None);
    assert(reply_of(stream) == ReplyModel::Unknown { token: tok });
}

/// A reply that declares five payload bytes but whose stream ends
/// after three of them.
pub open spec fn short_found_reply() -> Seq<u8> {
    encode_utf8("FOUND 7 5"@ + seq!['\r', '\n']) + encode_utf8("hel"@)
}

/// A reply that declares five payload bytes and delivers them, line
/// break included.
pub open spec fn found_reply() -> Seq<u8> {
    encode_utf8("FOUND 7 5"@ + seq!['\r', '\n']) + encode_utf8("hello\r\n"@)
}

/// Facts shared by the two `FOUND 7 5` streams: how the status line
/// tokenizes, and what its count token is worth.
proof fn lemma_found_line(tail: Seq<u8>)
    ensures
        ({
            let content = "FOUND 7 5"@;
            let line = content + seq!['\r', '\n'];
            let lb = encode_utf8(line);
            let stream = lb + tail;
            &&& lb.len() == 11
            &&& valid_utf8(lb)
            &&& decode_utf8(lb) == line
            &&& line_len(stream) == 11
            &&& stream.take(11) == lb
            &&& stream.skip(11) == tail
            &&& strip_eol(line) == content
            &&& split_on(content, ' ') == seq!["FOUND"@, seq!['7'], seq!['5']]
            &&& status_of("FOUND"@) == Some(Status::FOUND)
            &&& is_digits(seq!['5']) && dec_value(seq!['5']) == 5
            &&& is_digits(seq!['7']) && dec_value(seq!['7']) == 7
        }),
{
    reveal_strlit("FOUND 7 5");
    reveal_strlit("FOUND");
    reveal_strlit("OK");
    reveal_strlit("RESERVED");
    reveal_strlit("INSERTED");
    reveal_strlit("USING");
    reveal_strlit("DELETED");
    reveal_strlit("WATCHING");
    reveal_strlit("NOT_IGNORED");
    reveal_strlit("NOT_FOUND");
    let content = "FOUND 7 5"@;
    let line = content + seq!['\r', '\n'];
    let lb = encode_utf8(line);
    let stream = lb + tail;
    assert forall|i: int| 0 <= i < content.len() implies ('\0' <= #[trigger] content[i]
        <= '\u{7f}') && content[i] != '\n' && content[i] != '\r' by {}
    lemma_stream_line(content, tail);
    lemma_first_sep_is(content, ' ', 5);
    let t2 = content.skip(6);
    assert(t2.len() == 3);
    assert(t2[0] == '7');
    assert(t2[1] == ' ');
    assert(t2[2] == '5');
    lemma_first_sep_is(t2, ' ', 1);
    let t3 = t2.skip(2);
    assert(t3 =~= seq!['5']);
    assert(t3[0] == '5');
    lemma_first_sep_is(t3, ' ', 1);
    assert(split_on(t3, ' ') == seq![t3]);
    assert(t2.take(1) =~= seq!['7']);
    assert(split_on(t2, ' ') =~= seq![seq!['7'], seq!['5']]);
    assert(content.take(5) =~= "FOUND"@);
    assert(split_on(content, ' ') =~= seq!["FOUND"@, seq!['7'], seq!['5']]);
    let tok = "FOUND"@;
    assert(tok[0] == 'F');
    assert(tok.len() == 5);
    assert(tok != "OK"@);
    assert(tok != "RESERVED"@);
    assert(tok != "INSERTED"@);
    assert("USING"@[0] == 'U');
    assert(tok != "USING"@);
    assert(tok != "DELETED"@);
    assert(tok != "WATCHING"@);
    assert(tok != "NOT_IGNORED"@);
    assert(tok != "NOT_FOUND"@);
    assert(status_of(tok) == Some(Status::FOUND));
    assert(dec_value(Seq::<char>::empty()) == 0);
    assert(seq!['5'].drop_last() =~= Seq::<char>::empty());
    assert(seq!['5'].last() == '5');
    assert('5' as u32 == 53);
    assert(dec_value(seq!['5']) == dec_value(seq!['5'].drop_last()) * 10 + (seq!['5'].last() as u32
        - 48));
    assert(dec_value(seq!['5']) == 5);
    assert(seq!['7'].drop_last() =~= Seq::<char>::empty());
    assert(seq!['7'].last() == '7');
    assert('7' as u32 == 55);
    assert(dec_value(seq!['7']) == dec_value(seq!['7'].drop_last()) * 10 + (seq!['7'].last() as u32
        - 48));
    assert(dec_value(seq!['7']) == 7);
}

/// Short-read detection: a stream that ends before the declared
/// payload byte count plus its line terminator is reported as a short
/// read — never a truncated or padded success.
pub proof fn lemma_short_read_detected(
    r: Result<crate::response::Response, BeanstalkdError>,
    post: Seq<u8>,
)
    requires
        receive_post(short_found_reply(), r, post),
    ensures
        r matches Err(BeanstalkdError::ShortRead),
{
    reveal_strlit("hel");
    let tail = encode_utf8("hel"@);
    assert forall|i: int| 0 <= i < "hel"@.len() implies '\0' <= #[trigger] "hel"@[i]
        <= '\u{7f}' by {}
    lemma_ascii_bytes("hel"@);
    lemma_found_line(tail);
    let stream = short_found_reply();
    assert(stream.skip(11).len() == 3);
    assert(usize::MAX >= 7);
    assert(reply_of(stream) is Short);
}

/// Payload exactness: a reply that declares five payload bytes
/// delivers a job whose body is exactly those five bytes, with the
/// trailing line terminator consumed but kept out of the body, and
/// nothing of the stream left over.
pub proof fn lemma_found_reply_exact(
    r: Result<Option<(u64, String)>, BeanstalkdError>,
    post: Seq<u8>,
)
    requires
        opt_job_result(found_reply(), post, Status::FOUND, Status::NOT_FOUND, r),
    ensures
        r matches Ok(Some(p)) && p.0 == 7 && p.1@ == "hello"@,
        post == Seq::<u8>::empty(),
{
    reveal_strlit("hello\r\n");
    reveal_strlit("hello");
    reveal_strlit("FOUND 7 5");
    let ptext = "hello\r\n"@;
    assert forall|i: int| 0 <= i < ptext.len() implies '\0' <= #[trigger] ptext[i] <= '\u{7f}' by {}
    assert forall|i: int| 0 <= i < "hello"@.len() implies '\0' <= #[trigger] "hello"@[i]
        <= '\u{7f}' by {}
    lemma_ascii_bytes(ptext);
    lemma_ascii_bytes("hello"@);
    let tail = encode_utf8(ptext);
    lemma_found_line(tail);
    let stream = found_reply();
    let content = "FOUND 7 5"@;
    let line = content + seq!['\r', '\n'];
    assert(tail.len() == 7);
    assert(stream.skip(11) == tail);
    assert(usize::MAX >= 7);
    // the declared five bytes are the text `hello`
    assert forall|i: int| 0 <= i < 5 implies #[trigger] tail.take(5)[i] == encode_utf8(
        "hello"@,
    )[i] by {
        assert(tail.take(5)[i] == tail[i]);
        assert(tail[i] == ptext[i] as u8);
        assert(ptext[i] == "hello"@[i]);
    }
    assert(tail.take(5) =~= encode_utf8("hello"@));
    assert(valid_utf8(tail.take(5)));
    assert(decode_utf8(tail.take(5)) == "hello"@);
    let data = line + "hello"@;
    assert(reply_of(stream) == ReplyModel::Reply { status: Status::FOUND, data, used: 18 });
    assert(stream.len() == 18);
    assert(stream.skip(18) =~= Seq::<u8>::empty());
    // projecting id and body back out of the decoded text
    assert(data.len() == 16);
    assert forall|k: int| 0 <= k < data.len() implies ((#[trigger] data[k] == '\n') <==> k
        == 10) by {
        if k < 9 {
            assert(data[k] == content[k]);
        } else if k == 9 {
            assert(data[k] == '\r');
        } else if k == 10 {
            assert(data[k] == '\n');
        } else {
            assert(data[k] == "hello"@[k - 11]);
        }
    }
    lemma_first_sep_is(data, '\n', 10);
    assert(spec_line_of(data) =~= line);
    assert(spec_body_of(data) =~= "hello"@);
    assert(strip_eol(line) == content);
    assert(spec_parse_u64(seq!['7']) == Some(7u64));
    assert(spec_id_of(data) == Some(7u64));
}

} // verus!

