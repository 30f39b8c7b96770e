use vstd::prelude::*;

use vstd::string::{StrSliceExecFns, StringExecFns};

use crate::error::{BeanstalkdError, BeanstalkdResult};
use crate::response::Response;
use crate::text::{find_char, first_sep, parse_u64, split_on, split_str, spec_parse_u64,
    strip_eol, strip_eol_of, views_of};

verus! {

// ---------------------------------------------------------------------------
// Projections over a decoded reply's text
// ---------------------------------------------------------------------------

/// The first line of `data`, its line feed included when present.
pub open spec fn spec_line_of(data: Seq<char>) -> Seq<char> {
    let i = first_sep(data, '\n');
    if i == data.len() {
        data
    } else {
        data.take(i + 1)
    }
}

/// Everything after the first line of `data`: the payload text.
pub open spec fn spec_body_of(data: Seq<char>) -> Seq<char> {
    let i = first_sep(data, '\n');
    if i == data.len() {
        Seq::empty()
    } else {
        data.skip(i + 1)
    }
}

/// The numeric field of a status line: the second space-delimited token
/// of the first line of `data`, read as a decimal number; nothing when
/// the token is missing, not all digits, or too large for the type.
pub open spec fn spec_id_of(data: Seq<char>) -> Option<u64> {
    let toks = split_on(strip_eol(spec_line_of(data)), ' ');
    if toks.len() < 2 {
        None
    } else {
        spec_parse_u64(toks[1])
    }
}

/// Splits `data` at the end of its first line.
fn split_first_line(data: &str) -> (r: (String, String))
    ensures
        r.0@ == spec_line_of(data@),
        r.1@ == spec_body_of(data@),
{
    let len = data.unicode_len();
    let j = find_char(data, 0, '\n');
    proof {
        assert(data@.skip(0) =~= data@);
    }
    if j == len {
        let line = data.to_owned();
        let body = "".to_owned();
        proof {
            reveal_strlit("");
            assert(""@ =~= Seq::<char>::empty());
        }
        (line, body)
    } else {
        let line = data.substring_char(0, j + 1).to_owned();
        let body = data.substring_char(j + 1, len).to_owned();
        proof {
            assert(line@ =~= spec_line_of(data@));
            assert(body@ =~= spec_body_of(data@));
        }
        (line, body)
    }
}

/// The job id (or count) carried on a reply's status line, per
/// [`spec_id_of`]; a reply without a usable numeric field is malformed.
pub fn id(r: &Response) -> (res: BeanstalkdResult<u64>)
    ensures
        ({
            match spec_id_of(r.data@) {
                Some(v) => res == Ok::<u64, BeanstalkdError>(v),
                None => res == Err::<u64, BeanstalkdError>(BeanstalkdError::MalformedReply),
            }
        }),
{
    let (line, _body) = split_first_line(r.data.as_str());
    let content = strip_eol_of(line.as_str());
    let toks = split_str(content.as_str(), ' ');
    proof {
        assert(toks@.len() == views_of(toks@).len());
    }
    if toks.len() < 2 {
        return Err(BeanstalkdError::MalformedReply);
    }
    proof {
        assert(views_of(toks@)[1] == toks@[1]@);
    }
    match parse_u64(toks[1].as_str()) {
        Some(v) => Ok(v),
        None => Err(BeanstalkdError::MalformedReply),
    }
}

/// The payload text of a reply: everything after the status line.
pub fn body(r: &Response) -> (res: String)
    ensures
        res@ == spec_body_of(r.data@),
{
    let (_line, b) = split_first_line(r.data.as_str());
    b
}

// ---------------------------------------------------------------------------
// The key: value statistics block
// ---------------------------------------------------------------------------

/// Position of the first `": "` in `line`, or `line.len()` when there
/// is none.
pub open spec fn kv_sep_at(line: Seq<char>) -> int
    decreases line.len(),
{
    if line.len() < 2 {
        line.len() as int
    } else if line[0] == ':' && line[1] == ' ' {
        0
    } else {
        1 + kv_sep_at(line.drop_first())
    }
}

pub proof fn lemma_kv_sep_at(line: Seq<char>)
    ensures
        0 <= kv_sep_at(line) <= line.len(),
        kv_sep_at(line) < line.len() ==> kv_sep_at(line) + 1 < line.len() && line[kv_sep_at(line)]
            == ':' && line[kv_sep_at(line) + 1] == ' ',
        forall|k: int|
            0 <= k < kv_sep_at(line) && k + 1 < line.len() ==> !(#[trigger] line[k] == ':' && line[k
                + 1] == ' '),
    decreases line.len(),
{
    if line.len() >= 2 && !(line[0] == ':' && line[1] == ' ') {
        lemma_kv_sep_at(line.drop_first());
        assert forall|k: int|
            0 <= k < kv_sep_at(line) && k + 1 < line.len() implies !(#[trigger] line[k] == ':'
            && line[k + 1] == ' ') by {
            if k > 0 {
                assert(line.drop_first()[k - 1] == line[k]);
                assert(line.drop_first()[k] == line[k + 1]);
            }
        }
    } else if line.len() == 1 {
        assert(kv_sep_at(line) == 1);
    }
}

pub proof fn lemma_kv_sep_at_is(line: Seq<char>, i: int)
    requires
        0 <= i <= line.len(),
        i < line.len() ==> i + 1 < line.len() && line[i] == ':' && line[i + 1] == ' ',
        i == line.len() ==> true,
        forall|k: int|
            0 <= k < i ==> !(#[trigger] line[k] == ':' && k + 1 < line.len() && line[k + 1] == ' '),
    ensures
        kv_sep_at(line) == i,
    decreases line.len(),
{
    if line.len() < 2 {
    } else if line[0] == ':' && line[1] == ' ' {
        assert(!(line[0] == ':' && 0 + 1 < line.len() && line[1] == ' ') || i == 0);
    } else {
        assert forall|k: int|
            0 <= k < i - 1 implies !(#[trigger] line.drop_first()[k] == ':' && k + 1
            < line.drop_first().len() && line.drop_first()[k + 1] == ' ') by {
            assert(line.drop_first()[k] == line[k + 1]);
            if k + 1 < line.drop_first().len() {
                assert(line.drop_first()[k + 1] == line[k + 2]);
            }
        }
        lemma_kv_sep_at_is(line.drop_first(), i - 1);
    }
}

/// The key/value pair a statistics line carries: what stands before the
/// first `": "` and what stands after it. A line without `": "` carries
/// none.
pub open spec fn spec_pair_of(line: Seq<char>) -> Option<(Seq<char>, Seq<char>)> {
    let i = kv_sep_at(line);
    if i < line.len() {
        Some((line.take(i), line.skip(i + 2)))
    } else {
        None
    }
}

/// The key/value pairs of a sequence of lines, in order, lines without
/// `": "` skipped.
pub open spec fn spec_pairs_of_lines(lines: Seq<Seq<char>>) -> Seq<(Seq<char>, Seq<char>)>
    decreases lines.len(),
{
    if lines.len() == 0 {
        Seq::empty()
    } else {
        let front = spec_pairs_of_lines(lines.drop_last());
        match spec_pair_of(lines.last()) {
            Some(p) => front.push(p),
            None => front,
        }
    }
}

/// The statistics block a payload carries: its lines split on line
/// feeds, each line with a `": "` contributing the pair around the
/// first one.
pub open spec fn spec_stats_of(payload: Seq<char>) -> Seq<(Seq<char>, Seq<char>)> {
    spec_pairs_of_lines(split_on(payload, '\n'))
}

/// The views of a sequence of owned string pairs.
pub open spec fn pair_views_of(v: Seq<(String, String)>) -> Seq<(Seq<char>, Seq<char>)> {
    v.map_values(|p: (String, String)| (p.0@, p.1@))
}

/// Finds the first `": "` in `line`, per [`kv_sep_at`].
fn find_kv_sep(line: &str) -> (j: usize)
    ensures
        j == kv_sep_at(line@),
{
    let len = line.unicode_len();
    if len < 2 {
        proof {
            lemma_kv_sep_at(line@);
        }
        return len;
    }
    let mut j: usize = 0;
    while j + 1 < len
        invariant
            0 <= j,
            j + 1 <= len == line@.len(),
            2 <= len,
            forall|k: int| 0 <= k < j ==> !(#[trigger] line@[k] == ':' && line@[k + 1] == ' '),
        decreases len - j,
    {
        if line.get_char(j) == ':' && line.get_char(j + 1) == ' ' {
            proof {
                lemma_kv_sep_at_is(line@, j as int);
            }
            return j;
        }
        j = j + 1;
    }
    proof {
        assert forall|k: int|
            0 <= k < line@.len() as int implies !(#[trigger] line@[k] == ':' && k + 1 < line@.len()
            && line@[k + 1] == ' ') by {
            if k < j {
            } else {
                assert(k + 1 >= len);
            }
        }
        lemma_kv_sep_at_is(line@, line@.len() as int);
    }
    len
}

/// Reads a statistics payload into its key/value pairs, in order of
/// appearance.
pub fn stats_pairs(payload: &str) -> (res: Vec<(String, String)>)
    ensures
        pair_views_of(res@) == spec_stats_of(payload@),
{
    let lines = split_str(payload, '\n');
    let ghost slines = views_of(lines@);
    let mut out: Vec<(String, String)> = Vec::new();
    let n = lines.len();
    proof {
        assert(slines.take(0) =~= Seq::<Seq<char>>::empty());
        assert(pair_views_of(out@) =~= spec_pairs_of_lines(slines.take(0)));
    }
    let mut i: usize = 0;
    while i < n
        invariant
            i <= n == lines@.len(),
            slines == views_of(lines@),
            pair_views_of(out@) == spec_pairs_of_lines(slines.take(i as int)),
        decreases n - i,
    {
        let line = &lines[i];
        let len = line.as_str().unicode_len();
        let j = find_kv_sep(line.as_str());
        proof {
            assert(views_of(lines@)[i as int] == lines@[i as int]@);
            lemma_kv_sep_at(lines@[i as int]@);
            assert(slines.take(i + 1).drop_last() =~= slines.take(i as int));
            assert(slines.take(i + 1).last() == slines[i as int]);
        }
        if j < len {
            let key = line.as_str().substring_char(0, j).to_owned();
            let value = line.as_str().substring_char(j + 2, len).to_owned();
            out.push((key, value));
            proof {
                let sl = slines[i as int];
                assert(key@ =~= sl.take(kv_sep_at(sl)));
                assert(value@ =~= sl.skip(kv_sep_at(sl) + 2));
                assert(pair_views_of(out@) =~= spec_pairs_of_lines(slines.take(i as int)).push(
                    (key@, value@),
                ));
            }
        }
        i = i + 1;
    }
    proof {
        assert(slines.take(n as int) =~= slines);
    }
    out
}

} // verus!
