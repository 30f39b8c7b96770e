use vstd::prelude::*;

use vstd::string::{StrSliceExecFns, StringExecFns};
use vstd::utf8::encode_utf8;

use crate::text::{dec_str, u64_to_string, views_of};

verus! {

/// `args` joined by single spaces, in the given order.
pub open spec fn joined(args: Seq<Seq<char>>) -> Seq<char>
    decreases args.len(),
{
    if args.len() == 0 {
        Seq::empty()
    } else if args.len() == 1 {
        args[0]
    } else {
        joined(args.drop_last()) + seq![' '] + args.last()
    }
}

/// The wire form of one command: the verb; when there are arguments, a
/// single space and the space-joined arguments; when the body is
/// non-empty, a single space, the decimal count of the body's bytes, a
/// line break and the raw body; and a terminating line break.
pub open spec fn spec_build(op: Seq<char>, args: Seq<Seq<char>>, body: Seq<char>) -> Seq<char> {
    let head = if args.len() == 0 {
        op
    } else {
        op + seq![' '] + joined(args)
    };
    let line_break = seq!['\r', '\n'];
    if body.len() == 0 {
        head + line_break
    } else {
        head + seq![' '] + dec_str(encode_utf8(body).len()) + line_break + body + line_break
    }
}

proof fn lemma_encode_utf8_len(chars: Seq<char>)
    ensures
        encode_utf8(chars).len() >= chars.len(),
    decreases chars.len(),
{
    if chars.len() > 0 {
        lemma_encode_utf8_len(chars.drop_first());
    }
}

/// Assembles one command from its verb, its ordered arguments and its
/// optional body. Arguments must not themselves contain whitespace or
/// line breaks; no escaping is performed here.
pub fn build(op: &str, args: Vec<String>, body: &str) -> (r: String)
    ensures
        r@ == spec_build(op@, views_of(args@), body@),
{
    proof {
        reveal_strlit(" ");
        reveal_strlit("\r\n");
        assert(" "@ =~= seq![' ']);
        assert("\r\n"@ =~= seq!['\r', '\n']);
    }
    let ghost head: Seq<char> = if args@.len() == 0 {
        op@
    } else {
        op@ + seq![' '] + joined(views_of(args@))
    };
    let mut message: String = op.to_owned();
    let n = args.len();
    if n > 0 {
        message.append(" ");
        message.append(args[0].as_str());
        proof {
            assert(views_of(args@.take(1)) =~= seq![args@[0]@]);
        }
        let mut i: usize = 1;
        while i < n
            invariant
                1 <= i <= n == args@.len(),
                message@ == op@ + seq![' '] + joined(views_of(args@.take(i as int))),
            decreases n - i,
        {
            message.append(" ");
            message.append(args[i].as_str());
            proof {
                reveal_strlit(" ");
                assert(" "@ =~= seq![' ']);
                let sp = seq![' '];
                let p = views_of(args@.take(i as int));
                let q = views_of(args@.take(i + 1));
                let ai = args@[i as int]@;
                assert(message@ == ((op@ + sp + joined(p)) + sp) + ai);
                assert(q.drop_last() =~= p);
                assert(q.len() == i + 1);
                assert(q.last() == ai);
                assert(joined(q) == joined(p) + sp + ai);
                assert(((op@ + sp + joined(p)) + sp) + ai =~= op@ + sp + (joined(p) + sp + ai));
                assert(message@ == op@ + sp + joined(q));
            }
            i = i + 1;
        }
        proof {
            assert(args@.take(n as int) =~= args@);
            assert(message@ == head);
        }
    }
    let body_bytes = body.as_bytes();
    if body_bytes.len() > 0 {
        proof {
            if body@.len() == 0 {
                assert(encode_utf8(body@) =~= Seq::<u8>::empty());
            }
        }
        message.append(" ");
        let count = u64_to_string(body_bytes.len() as u64);
        message.append(count.as_str());
        message.append("\r\n");
        message.append(body);
        message.append("\r\n");
        proof {
            assert(count@ == dec_str(encode_utf8(body@).len()));
            assert(message@ == head + seq![' '] + dec_str(encode_utf8(body@).len()) + seq![
                '\r',
                '\n',
            ] + body@ + seq!['\r', '\n']);
        }
        message
    } else {
        proof {
            lemma_encode_utf8_len(body@);
            assert(encode_utf8(body@).len() == 0);
            assert(body@.len() == 0);
        }
        message.append("\r\n");
        message
    }
}

// ---------------------------------------------------------------------------
// The command vocabulary
// ---------------------------------------------------------------------------

pub open spec fn tube_command(tube: Seq<char>) -> Seq<char> {
    spec_build("use"@, seq![tube], Seq::empty())
}

pub open spec fn put_command(body: Seq<char>, priority: u32, delay: u32, ttr: u32) -> Seq<char> {
    spec_build(
        "put"@,
        seq![dec_str(priority as nat), dec_str(delay as nat), dec_str(ttr as nat)],
        body,
    )
}

pub open spec fn reserve_command() -> Seq<char> {
    spec_build("reserve"@, Seq::empty(), Seq::empty())
}

pub open spec fn reserve_with_timeout_command(timeout: u64) -> Seq<char> {
    spec_build("reserve-with-timeout"@, seq![dec_str(timeout as nat)], Seq::empty())
}

pub open spec fn delete_command(id: u64) -> Seq<char> {
    spec_build("delete"@, seq![dec_str(id as nat)], Seq::empty())
}

pub open spec fn release_command(id: u64, priority: u32, delay: u32) -> Seq<char> {
    spec_build(
        "release"@,
        seq![dec_str(id as nat), dec_str(priority as nat), dec_str(delay as nat)],
        Seq::empty(),
    )
}

pub open spec fn bury_command(id: u64, priority: u32) -> Seq<char> {
    spec_build("bury"@, seq![dec_str(id as nat), dec_str(priority as nat)], Seq::empty())
}

pub open spec fn touch_command(id: u64) -> Seq<char> {
    spec_build("touch"@, seq![dec_str(id as nat)], Seq::empty())
}

pub open spec fn stats_command() -> Seq<char> {
    spec_build("stats"@, Seq::empty(), Seq::empty())
}

pub open spec fn stats_job_command(id: u64) -> Seq<char> {
    spec_build("stats-job"@, seq![dec_str(id as nat)], Seq::empty())
}

pub open spec fn watch_command(tube: Seq<char>) -> Seq<char> {
    spec_build("watch"@, seq![tube], Seq::empty())
}

pub open spec fn ignore_command(tube: Seq<char>) -> Seq<char> {
    spec_build("ignore"@, seq![tube], Seq::empty())
}

pub open spec fn peek_ready_command() -> Seq<char> {
    spec_build("peek-ready"@, Seq::empty(), Seq::empty())
}

pub open spec fn peek_delayed_command() -> Seq<char> {
    spec_build("peek-delayed"@, Seq::empty(), Seq::empty())
}

pub open spec fn peek_buried_command() -> Seq<char> {
    spec_build("peek-buried"@, Seq::empty(), Seq::empty())
}

/// Selects the tube that later insertions go to.
pub fn tube(name: &str) -> (r: String)
    ensures
        r@ == tube_command(name@),
{
    let mut args: Vec<String> = Vec::new();
    args.push(name.to_owned());
    proof {
        reveal_strlit("");
        assert(""@ =~= Seq::<char>::empty());
        assert(views_of(args@) =~= seq![name@]);
    }
    build("use", args, "")
}

/// Enqueues a job body with the given priority, delay and time to run.
pub fn put(body: &str, priority: u32, delay: u32, ttr: u32) -> (r: String)
    ensures
        r@ == put_command(body@, priority, delay, ttr),
{
    let mut args: Vec<String> = Vec::new();
    args.push(u64_to_string(priority as u64));
    args.push(u64_to_string(delay as u64));
    args.push(u64_to_string(ttr as u64));
    proof {
        assert(views_of(args@) =~= seq![
            dec_str(priority as nat),
            dec_str(delay as nat),
            dec_str(ttr as nat),
        ]);
    }
    build("put", args, body)
}

/// Claims the next ready job, blocking until one exists.
pub fn reserve() -> (r: String)
    ensures
        r@ == reserve_command(),
{
    proof {
        reveal_strlit("");
        assert(""@ =~= Seq::<char>::empty());
        assert(views_of(Seq::<String>::empty()) =~= Seq::<Seq<char>>::empty());
    }
    build("reserve", Vec::new(), "")
}

/// Claims the next ready job, giving up after the given number of
/// seconds.
pub fn reserve_with_timeout(timeout: u64) -> (r: String)
    ensures
        r@ == reserve_with_timeout_command(timeout),
{
    let mut args: Vec<String> = Vec::new();
    args.push(u64_to_string(timeout));
    proof {
        reveal_strlit("");
        assert(""@ =~= Seq::<char>::empty());
        assert(views_of(args@) =~= seq![dec_str(timeout as nat)]);
    }
    build("reserve-with-timeout", args, "")
}

/// Removes a job entirely.
pub fn delete(id: u64) -> (r: String)
    ensures
        r@ == delete_command(id),
{
    let mut args: Vec<String> = Vec::new();
    args.push(u64_to_string(id));
    proof {
        reveal_strlit("");
        assert(""@ =~= Seq::<char>::empty());
        assert(views_of(args@) =~= seq![dec_str(id as nat)]);
    }
    build("delete", args, "")
}

/// Puts a reserved job back in the ready (or delayed) state.
pub fn release(id: u64, priority: u32, delay: u32) -> (r: String)
    ensures
        r@ == release_command(id, priority, delay),
{
    let mut args: Vec<String> = Vec::new();
    args.push(u64_to_string(id));
    args.push(u64_to_string(priority as u64));
    args.push(u64_to_string(delay as u64));
    proof {
        reveal_strlit("");
        assert(""@ =~= Seq::<char>::empty());
        assert(views_of(args@) =~= seq![
            dec_str(id as nat),
            dec_str(priority as nat),
            dec_str(delay as nat),
        ]);
    }
    build("release", args, "")
}

/// Sets a reserved job aside with a new priority.
pub fn bury(id: u64, priority: u32) -> (r: String)
    ensures
        r@ == bury_command(id, priority),
{
    let mut args: Vec<String> = Vec::new();
    args.push(u64_to_string(id));
    args.push(u64_to_string(priority as u64));
    proof {
        reveal_strlit("");
        assert(""@ =~= Seq::<char>::empty());
        assert(views_of(args@) =~= seq![dec_str(id as nat), dec_str(priority as nat)]);
    }
    build("bury", args, "")
}

/// Refreshes the time to run of a reserved job.
pub fn touch(id: u64) -> (r: String)
    ensures
        r@ == touch_command(id),
{
    let mut args: Vec<String> = Vec::new();
    args.push(u64_to_string(id));
    proof {
        reveal_strlit("");
        assert(""@ =~= Seq::<char>::empty());
        assert(views_of(args@) =~= seq![dec_str(id as nat)]);
    }
    build("touch", args, "")
}

/// Asks for the server-wide statistics block.
pub fn stats() -> (r: String)
    ensures
        r@ == stats_command(),
{
    proof {
        reveal_strlit("");
        assert(""@ =~= Seq::<char>::empty());
        assert(views_of(Seq::<String>::empty()) =~= Seq::<Seq<char>>::empty());
    }
    build("stats", Vec::new(), "")
}

/// Asks for the statistics block of one job.
pub fn stats_job(id: u64) -> (r: String)
    ensures
        r@ == stats_job_command(id),
{
    let mut args: Vec<String> = Vec::new();
    args.push(u64_to_string(id));
    proof {
        reveal_strlit("");
        assert(""@ =~= Seq::<char>::empty());
        assert(views_of(args@) =~= seq![dec_str(id as nat)]);
    }
    build("stats-job", args, "")
}

/// Adds a tube to the watch list.
pub fn watch(tube: &str) -> (r: String)
    ensures
        r@ == watch_command(tube@),
{
    let mut args: Vec<String> = Vec::new();
    args.push(tube.to_owned());
    proof {
        reveal_strlit("");
        assert(""@ =~= Seq::<char>::empty());
        assert(views_of(args@) =~= seq![tube@]);
    }
    build("watch", args, "")
}

/// Removes a tube from the watch list.
pub fn ignore(tube: &str) -> (r: String)
    ensures
        r@ == ignore_command(tube@),
{
    let mut args: Vec<String> = Vec::new();
    args.push(tube.to_owned());
    proof {
        reveal_strlit("");
        assert(""@ =~= Seq::<char>::empty());
        assert(views_of(args@) =~= seq![tube@]);
    }
    build("ignore", args, "")
}

/// Inspects the next ready job without claiming it.
pub fn peek_ready() -> (r: String)
    ensures
        r@ == peek_ready_command(),
{
    proof {
        reveal_strlit("");
        assert(""@ =~= Seq::<char>::empty());
        assert(views_of(Seq::<String>::empty()) =~= Seq::<Seq<char>>::empty());
    }
    build("peek-ready", Vec::new(), "")
}

/// Inspects the next delayed job without claiming it.
pub fn peek_delayed() -> (r: String)
    ensures
        r@ == peek_delayed_command(),
{
    proof {
        reveal_strlit("");
        assert(""@ =~= Seq::<char>::empty());
        assert(views_of(Seq::<String>::empty()) =~= Seq::<Seq<char>>::empty());
    }
    build("peek-delayed", Vec::new(), "")
}

/// Inspects the next buried job without claiming it.
pub fn peek_buried() -> (r: String)
    ensures
        r@ == peek_buried_command(),
{
    proof {
        reveal_strlit("");
        assert(""@ =~= Seq::<char>::empty());
        assert(views_of(Seq::<String>::empty()) =~= Seq::<Seq<char>>::empty());
    }
    build("peek-buried", Vec::new(), "")
}

} // verus!
