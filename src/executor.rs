use vstd::prelude::*;
use crate::cmd::Cmd;
use crate::types::{ErrorKind, RedisError};

verus! {

/// How far the executor has come. It only ever moves forward.
#[derive(Clone, Copy, Debug, PartialEq, Eq, Structural)]
pub enum ScriptStatus {
    /// The call by digest has been sent; nothing is known of the server's cache.
    NotLoaded,
    /// The server reported a cache miss; the script body is being loaded.
    Loading,
    /// The body was loaded and the call by digest has been sent again.
    Loaded,
}

/// A request that the executor asks its driver to send.
#[derive(Clone, Copy, Debug, PartialEq, Eq, Structural)]
pub enum Request {
    /// `EVALSHA`: run the script by digest.
    Eval,
    /// `SCRIPT LOAD`: hand the script body to the server.
    Load,
}

/// The answer to the request that was sent last.
#[derive(Debug)]
pub enum Reply<T> {
    /// The answer to `EVALSHA`, decoded.
    Eval(Result<T, RedisError>),
    /// The answer to `SCRIPT LOAD`; its value is not needed.
    Load(Result<(), RedisError>),
}

/// What the executor decides on a reply.
#[derive(Debug)]
pub enum Step<T> {
    /// Send this request next.
    Send(Request),
    /// The call is over, with this result.
    Done(Result<T, RedisError>),
}

/// Whether `reply` answers the request that is outstanding in `status`: a
/// load while loading, a call by digest otherwise.
pub open spec fn answers<T>(status: ScriptStatus, reply: Reply<T>) -> bool {
    match reply {
        Reply::Eval(_) => status != ScriptStatus::Loading,
        Reply::Load(_) => status == ScriptStatus::Loading,
    }
}

/// The protocol's transition table: the next status and the decision.
pub open spec fn transition<T>(status: ScriptStatus, reply: Reply<T>) -> (ScriptStatus, Step<T>) {
    match reply {
        Reply::Eval(Ok(v)) => (status, Step::Done(Ok(v))),
        Reply::Eval(Err(e)) => if status == ScriptStatus::NotLoaded && e.is_no_script() {
            (ScriptStatus::Loading, Step::Send(Request::Load))
        } else {
            (status, Step::Done(Err(e)))
        },
        Reply::Load(Ok(_)) => (ScriptStatus::Loaded, Step::Send(Request::Eval)),
        Reply::Load(Err(e)) => (status, Step::Done(Err(e))),
    }
}

/// Runs the table on the replies in order, starting from the first call by
/// digest. Gives the status reached, every request sent (the first call and
/// the one still outstanding included) and, once a decision has ended the
/// call, its result. Replies after the end change nothing.
pub open spec fn run<T>(replies: Seq<Reply<T>>) -> (ScriptStatus, Seq<Request>, Option<Result<T, RedisError>>)
    decreases replies.len(),
{
    if replies.len() == 0 {
        (ScriptStatus::NotLoaded, seq![Request::Eval], None)
    } else {
        let (status, sent, out) = run(replies.drop_last());
        if out is Some {
            (status, sent, out)
        } else {
            match transition(status, replies.last()) {
                (next, Step::Send(q)) => (next, sent.push(q), None),
                (next, Step::Done(r)) => (next, sent, Some(r)),
            }
        }
    }
}

/// A whole call against a server that answers with `replies`: every request
/// sent, and the result once the call has ended.
pub open spec fn protocol<T>(replies: Seq<Reply<T>>) -> (Seq<Request>, Option<Result<T, RedisError>>) {
    (run(replies).1, run(replies).2)
}

/// The call before any reply: the first call by digest is outstanding.
proof fn run_empty<T>(replies: Seq<Reply<T>>)
    requires
        replies.len() == 0,
    ensures
        run(replies) == (ScriptStatus::NotLoaded, seq![Request::Eval], None::<Result<T, RedisError>>),
{
}

/// A driver that hands each reply to [`ScriptExecutor::on_reply`] follows
/// the protocol: while the call is open, one more reply moves it by exactly
/// the transition table, from the status reached so far. So a non-blocking
/// driver and the blocking `invoke` send the same requests and end with the
/// same result on the same replies.
pub proof fn one_more_reply<T>(got: Seq<Reply<T>>, reply: Reply<T>)
    requires
        run(got).2 is None,
    ensures
        run(got.push(reply)) == (match transition(run(got).0, reply) {
            (next, Step::Send(q)) => (next, run(got).1.push(q), None),
            (next, Step::Done(r)) => (next, run(got).1, Some(r)),
        }),
{
    assert(got.push(reply).drop_last() =~= got);
}

/// Once a call has ended, later replies change nothing.
pub proof fn ended_call_ignores_replies<T>(replies: Seq<Reply<T>>, rest: Seq<Reply<T>>)
    requires
        run(replies).2 is Some,
    ensures
        run(replies + rest) == run(replies),
    decreases rest.len(),
{
    if rest.len() > 0 {
        let shorter = rest.drop_last();
        ended_call_ignores_replies(replies, shorter);
        assert((replies + rest).drop_last() =~= replies + shorter);
    }
}

/// The position of a status in the order in which they are passed.
pub open spec fn rank(status: ScriptStatus) -> int {
    match status {
        ScriptStatus::NotLoaded => 0,
        ScriptStatus::Loading => 1,
        ScriptStatus::Loaded => 2,
    }
}

/// The decisions of one script call, apart from any transport: it holds the
/// two commands and the status, and is told each reply in turn. The first
/// request is always [`Request::Eval`].
pub struct ScriptExecutor {
    eval_cmd: Cmd,
    load_cmd: Cmd,
    status: ScriptStatus,
}

impl ScriptExecutor {
    /// The command that runs the script by digest.
    pub closed spec fn eval_spec(&self) -> Cmd {
        self.eval_cmd
    }

    /// The command that loads the script body.
    pub closed spec fn load_spec(&self) -> Cmd {
        self.load_cmd
    }

    /// The current status.
    pub closed spec fn status_spec(&self) -> ScriptStatus {
        self.status
    }

    /// An executor for a call whose first request is already sent.
    pub fn new(eval_cmd: Cmd, load_cmd: Cmd) -> (r: ScriptExecutor)
        ensures
            r.eval_spec() == eval_cmd,
            r.load_spec() == load_cmd,
            r.status_spec() == ScriptStatus::NotLoaded,
    {
        ScriptExecutor { eval_cmd, load_cmd, status: ScriptStatus::NotLoaded }
    }

    /// The current status.
    pub fn status(&self) -> (r: ScriptStatus)
        ensures
            r == self.status_spec(),
    {
        self.status
    }

    /// The command to send for `req`.
    pub fn command(&self, req: Request) -> (r: &Cmd)
        ensures
            req == Request::Eval ==> *r == self.eval_spec(),
            req == Request::Load ==> *r == self.load_spec(),
    {
        match req {
            Request::Eval => &self.eval_cmd,
            Request::Load => &self.load_cmd,
        }
    }

    /// Takes the reply to the outstanding request and decides what comes next,
    /// by the transition table.
    pub fn on_reply<T>(&mut self, reply: Reply<T>) -> (r: Step<T>)
        requires
            answers(old(self).status_spec(), reply),
        ensures
            (final(self).status_spec(), r) == transition(old(self).status_spec(), reply),
            final(self).eval_spec() == old(self).eval_spec(),
            final(self).load_spec() == old(self).load_spec(),
            rank(old(self).status_spec()) <= rank(final(self).status_spec()),
            r matches Step::Send(q) ==> {
                &&& rank(old(self).status_spec()) < rank(final(self).status_spec())
                &&& (q == Request::Load <==> final(self).status_spec() == ScriptStatus::Loading)
            },
    {
        match reply {
            Reply::Eval(Ok(v)) => Step::Done(Ok(v)),
            Reply::Eval(Err(e)) => {
                if self.status == ScriptStatus::NotLoaded && e.kind == ErrorKind::NoScriptError {
                    self.status = ScriptStatus::Loading;
                    Step::Send(Request::Load)
                } else {
                    Step::Done(Err(e))
                }
            },
            Reply::Load(Ok(_)) => {
                self.status = ScriptStatus::Loaded;
                Step::Send(Request::Eval)
            },
            Reply::Load(Err(e)) => Step::Done(Err(e)),
        }
    }
}

/// A blocking connection to the server, implemented by the caller.
///
/// An implementation keeps, as ghost state, the commands it was sent and the
/// replies it gave, in order; each request adds one of each. Code generic over
/// the connection sees only these contracts, never the default logs below: a
/// verified implementation that kept the defaults could not meet them, and
/// the defaults exist so that an unverified implementation compiles without
/// ghost state.
pub trait ConnectionLike<T> {
    /// The commands sent so far, in order.
    closed spec fn sent(&self) -> Seq<Cmd> {
        Seq::empty()
    }

    /// The replies given so far, in order.
    closed spec fn replies(&self) -> Seq<Reply<T>> {
        Seq::empty()
    }

    /// Sends an `EVALSHA` command and waits for its reply, decoded as `T`.
    fn eval_sha(&mut self, cmd: &Cmd) -> (r: Result<T, RedisError>)
        ensures
            final(self).sent() == old(self).sent().push(*cmd),
            final(self).replies() == old(self).replies().push(Reply::Eval(r)),
    ;

    /// Sends a `SCRIPT LOAD` command and waits for its reply.
    fn script_load(&mut self, cmd: &Cmd) -> (r: Result<(), RedisError>)
        ensures
            final(self).sent() == old(self).sent().push(*cmd),
            final(self).replies() == old(self).replies().push(Reply::Load(r)),
    ;
}

/// A cache miss once, then a successful load: the body is loaded exactly
/// once, the call by digest is made exactly twice, and the value of the
/// second call is the result.
pub proof fn retry_on_miss<T>(miss: RedisError, v: T, rest: Seq<Reply<T>>)
    requires
        miss.is_no_script(),
    ensures
        protocol(seq![Reply::Eval(Err(miss)), Reply::Load(Ok(())), Reply::Eval(Ok(v))] + rest)
            == (seq![Request::Eval, Request::Load, Request::Eval], Some(Ok::<T, RedisError>(v))),
{
    let rs = seq![Reply::Eval(Err(miss)), Reply::Load(Ok(())), Reply::Eval(Ok(v))];
    assert(rs.drop_last() =~= seq![Reply::Eval(Err(miss)), Reply::Load(Ok(()))]);
    assert(rs.drop_last().drop_last() =~= seq![Reply::Eval(Err(miss))]);
    assert(rs.drop_last().drop_last().drop_last() =~= Seq::<Reply<T>>::empty());
    let p1 = rs.drop_last().drop_last();
    let p2 = rs.drop_last();
    run_empty(p1.drop_last());
    assert(p1.last() == Reply::<T>::Eval(Err(miss)));
    assert(p2.last() == Reply::<T>::Load(Ok(())));
    assert(run(p1) == (ScriptStatus::Loading, seq![Request::Eval].push(Request::Load), None::<Result<T, RedisError>>));
    assert(run(p2) == (ScriptStatus::Loaded, seq![Request::Eval].push(Request::Load).push(Request::Eval), None::<Result<T, RedisError>>));
    assert(seq![Request::Eval].push(Request::Load).push(Request::Eval) =~= seq![Request::Eval, Request::Load, Request::Eval]);
    ended_call_ignores_replies(rs, rest);
}

/// A first call by digest that succeeds ends the call with its value, and no
/// load is ever sent.
pub proof fn no_spurious_load<T>(v: T, rest: Seq<Reply<T>>)
    ensures
        protocol(seq![Reply::Eval(Ok(v))] + rest) == (seq![Request::Eval], Some(Ok::<T, RedisError>(v))),
{
    let rs = seq![Reply::Eval(Ok(v))];
    assert(rs.drop_last() =~= Seq::<Reply<T>>::empty());
    run_empty(rs.drop_last());
    assert(rs.last() == Reply::Eval(Ok(v)));
    ended_call_ignores_replies(rs, rest);
}

/// A failure of the first call by digest other than a cache miss is the
/// result, unchanged, and no load is sent.
pub proof fn failure_passes_through<T>(e: RedisError, rest: Seq<Reply<T>>)
    requires
        !e.is_no_script(),
    ensures
        protocol(seq![Reply::Eval(Err(e))] + rest) == (seq![Request::Eval], Some(Err::<T, RedisError>(e))),
{
    let rs = seq![Reply::<T>::Eval(Err(e))];
    assert(rs.drop_last() =~= Seq::<Reply<T>>::empty());
    run_empty(rs.drop_last());
    assert(rs.last() == Reply::<T>::Eval(Err(e)));
    ended_call_ignores_replies(rs, rest);
}

/// A failure of the load that follows a cache miss is the result, unchanged,
/// and the call by digest is not made again.
pub proof fn load_failure_passes_through<T>(miss: RedisError, e: RedisError, rest: Seq<Reply<T>>)
    requires
        miss.is_no_script(),
    ensures
        protocol(seq![Reply::Eval(Err(miss)), Reply::Load(Err(e))] + rest)
            == (seq![Request::Eval, Request::Load], Some(Err::<T, RedisError>(e))),
{
    let rs = seq![Reply::<T>::Eval(Err(miss)), Reply::Load(Err(e))];
    assert(rs.drop_last() =~= seq![Reply::<T>::Eval(Err(miss))]);
    assert(rs.drop_last().drop_last() =~= Seq::<Reply<T>>::empty());
    let p1 = rs.drop_last();
    run_empty(p1.drop_last());
    assert(p1.last() == Reply::<T>::Eval(Err(miss)));
    assert(rs.last() == Reply::<T>::Load(Err(e)));
    assert(run(p1) == (ScriptStatus::Loading, seq![Request::Eval].push(Request::Load), None::<Result<T, RedisError>>));
    assert(seq![Request::Eval].push(Request::Load) =~= seq![Request::Eval, Request::Load]);
    ended_call_ignores_replies(rs, rest);
}

/// A second cache miss, after the one load, is the result: the body is never
/// loaded twice.
pub proof fn single_reload<T>(miss: RedisError, again: RedisError, rest: Seq<Reply<T>>)
    requires
        miss.is_no_script(),
    ensures
        protocol(seq![Reply::Eval(Err(miss)), Reply::Load(Ok(())), Reply::Eval(Err(again))] + rest)
            == (seq![Request::Eval, Request::Load, Request::Eval], Some(Err::<T, RedisError>(again))),
{
    let rs = seq![Reply::<T>::Eval(Err(miss)), Reply::Load(Ok(())), Reply::Eval(Err(again))];
    assert(rs.drop_last() =~= seq![Reply::<T>::Eval(Err(miss)), Reply::Load(Ok(()))]);
    assert(rs.drop_last().drop_last() =~= seq![Reply::<T>::Eval(Err(miss))]);
    assert(rs.drop_last().drop_last().drop_last() =~= Seq::<Reply<T>>::empty());
    let p1 = rs.drop_last().drop_last();
    let p2 = rs.drop_last();
    run_empty(p1.drop_last());
    assert(p1.last() == Reply::<T>::Eval(Err(miss)));
    assert(p2.last() == Reply::<T>::Load(Ok(())));
    assert(run(p1) == (ScriptStatus::Loading, seq![Request::Eval].push(Request::Load), None::<Result<T, RedisError>>));
    assert(run(p2) == (ScriptStatus::Loaded, seq![Request::Eval].push(Request::Load).push(Request::Eval), None::<Result<T, RedisError>>));
    assert(seq![Request::Eval].push(Request::Load).push(Request::Eval) =~= seq![Request::Eval, Request::Load, Request::Eval]);
    ended_call_ignores_replies(rs, rest);
}

/// The requests of a call, in the longest order the protocol allows.
pub open spec fn full_call() -> Seq<Request> {
    seq![Request::Eval, Request::Load, Request::Eval]
}

/// Whether each of `replies` has the kind of the request it answers.
pub open spec fn replies_answer<T>(replies: Seq<Reply<T>>) -> bool {
    forall|i: int| 0 <= i < replies.len() && i < run(replies).1.len()
        ==> ((#[trigger] replies[i] is Eval) <==> run(replies).1[i] == Request::Eval)
}

/// Where each reply answers its request, a call sends at most two calls by
/// digest and one load, in the order call, load, call: the load only right
/// after the first call, the second call only right after the load. While the
/// call is open, its status is the one its requests so far lead to.
pub proof fn at_most_one_reload<T>(replies: Seq<Reply<T>>)
    requires
        replies_answer(replies),
    ensures
        1 <= run(replies).1.len() <= 3,
        run(replies).1 == full_call().subrange(0, run(replies).1.len() as int),
        run(replies).2 is None ==> {
            &&& replies.len() == run(replies).1.len() - 1
            &&& run(replies).0 == (if run(replies).1.len() == 1 {
                ScriptStatus::NotLoaded
            } else if run(replies).1.len() == 2 {
                ScriptStatus::Loading
            } else {
                ScriptStatus::Loaded
            })
        },
    decreases replies.len(),
{
    if replies.len() == 0 {
        assert(run(replies).1 =~= full_call().subrange(0, 1));
    } else {
        let prev = replies.drop_last();
        let x = replies.last();
        assert forall|i: int| 0 <= i < prev.len() && i < run(prev).1.len()
            implies ((#[trigger] prev[i] is Eval) <==> run(prev).1[i] == Request::Eval) by {
            assert(prev[i] == replies[i]);
            assert(run(prev).1[i] == run(replies).1[i]);
        }
        at_most_one_reload(prev);
        if run(prev).2 is None {
            let n = prev.len() as int;
            assert(x == replies[n]);
            assert(run(replies).1[n] == run(prev).1[n]);
            assert(run(replies).1 =~= full_call().subrange(0, run(replies).1.len() as int));
        }
    }
}

} // verus!
