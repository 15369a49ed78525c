use vstd::prelude::*;
use vstd::slice::slice_to_vec;
use vstd::string::StringSliceAdditionalSpecFns;
use vstd::utf8::encode_utf8;
use crate::cmd::{append_all, bytes_seq, decimal, Cmd};
use crate::executor::{at_most_one_reload, full_call, protocol, rank, run, transition, ConnectionLike, Reply, Request, ScriptExecutor, ScriptStatus, Step};
use crate::types::RedisError;

verus! {

/// The lowercase hexadecimal SHA-1 digest of the UTF-8 bytes of `code`.
pub uninterp spec fn sha1_hex_of(code: Seq<char>) -> Seq<char>;

/// A character of a lowercase hexadecimal string.
pub open spec fn is_lower_hex_char(c: char) -> bool {
    ('0' <= c && c <= '9') || ('a' <= c && c <= 'f')
}

/// Relies on `sha1::Sha1` (`new`, `update`, `digest`) and the `Display` of
/// `sha1::Digest`: the digest of the bytes of `code`, written as five
/// `{:08x}` words, that is 40 lowercase hexadecimal characters.
#[verifier::external_body]
fn sha1_hex(code: &str) -> (r: String)
    ensures
        r@ == sha1_hex_of(code@),
        r@.len() == 40,
        forall|i: int| 0 <= i < r@.len() ==> is_lower_hex_char(#[trigger] r@[i]),
{
    let mut hash = sha1::Sha1::new();
    hash.update(code.as_bytes());
    hash.digest().to_string()
}

/// A Lua script: its source text and the SHA-1 digest under which the server
/// caches it. Immutable once built, so it can be shared freely.
pub struct Script {
    code: String,
    hash: String,
}

impl Script {
    /// The source text.
    pub closed spec fn code(&self) -> Seq<char> {
        self.code@
    }

    /// The hexadecimal digest.
    pub closed spec fn hash(&self) -> Seq<char> {
        self.hash@
    }

    /// The digest always belongs to the source text.
    pub open spec fn wf(&self) -> bool {
        &&& self.hash() == sha1_hex_of(self.code())
        &&& self.hash().len() == 40
        &&& forall|i: int| 0 <= i < self.hash().len() ==> is_lower_hex_char(#[trigger] self.hash()[i])
    }

    /// Creates a new script object, computing its digest.
    pub fn new(code: &str) -> (r: Script)
        ensures
            r.wf(),
            r.code() == code@,
    {
        let hash = sha1_hex(code);
        Script { code: code.to_owned(), hash }
    }

    /// Returns the script's SHA-1 digest in hexadecimal format.
    pub fn get_hash(&self) -> (r: &str)
        ensures
            r@ == self.hash(),
    {
        self.hash.as_str()
    }

    /// Creates a script invocation object with a key filled in.
    pub fn key(&self, key: &[u8]) -> (r: ScriptInvocation<'_>)
        ensures
            r.script() == *self,
            r.keys() == seq![key@],
            r.args() == Seq::<Seq<u8>>::empty(),
    {
        let mut r = self.prepare_invoke();
        r.key(key);
        r
    }

    /// Creates a script invocation object with an argument filled in.
    pub fn arg(&self, arg: &[u8]) -> (r: ScriptInvocation<'_>)
        ensures
            r.script() == *self,
            r.keys() == Seq::<Seq<u8>>::empty(),
            r.args() == seq![arg@],
    {
        let mut r = self.prepare_invoke();
        r.arg(arg);
        r
    }

    /// Returns an empty script invocation object, to which keys and
    /// arguments can be added one by one.
    pub fn prepare_invoke(&self) -> (r: ScriptInvocation<'_>)
        ensures
            r.script() == *self,
            r.keys() == Seq::<Seq<u8>>::empty(),
            r.args() == Seq::<Seq<u8>>::empty(),
    {
        let r = ScriptInvocation { script: self, args: Vec::new(), keys: Vec::new() };
        assert(r.keys() =~= Seq::<Seq<u8>>::empty());
        assert(r.args() =~= Seq::<Seq<u8>>::empty());
        r
    }

    /// Invokes the script without keys or arguments, as an empty invocation
    /// would.
    pub fn invoke<T, C: ConnectionLike<T>>(&self, con: &mut C) -> (r: Result<T, RedisError>)
        ensures
            invoked(*self, Seq::empty(), Seq::empty(), old(con).sent(), old(con).replies(), final(con).sent(), final(con).replies(), r),
    {
        self.prepare_invoke().invoke(con)
    }
}

/// The arguments of `EVALSHA` for a script with digest `hash`: the digest,
/// the number of keys, the keys, then the other arguments.
pub open spec fn eval_args(hash: Seq<char>, keys: Seq<Seq<u8>>, args: Seq<Seq<u8>>) -> Seq<Seq<u8>> {
    seq![encode_utf8(hash), decimal(keys.len())] + keys + args
}

/// Whether `c` is the `EVALSHA` command of a call of `script` with `keys` and `args`.
pub open spec fn is_eval_cmd(script: Script, keys: Seq<Seq<u8>>, args: Seq<Seq<u8>>, c: Cmd) -> bool {
    &&& c.name() == "EVALSHA".spec_bytes()
    &&& c.args() == eval_args(script.hash(), keys, args)
}

/// Whether `c` is the `SCRIPT LOAD` command of `script`.
pub open spec fn is_load_cmd(script: Script, c: Cmd) -> bool {
    &&& c.name() == "SCRIPT".spec_bytes()
    &&& c.args() == seq!["LOAD".spec_bytes(), encode_utf8(script.code())]
}

/// Whether `c` is the command that carries request `q` of a call of `script`
/// with `keys` and `args`.
pub open spec fn carries(script: Script, keys: Seq<Seq<u8>>, args: Seq<Seq<u8>>, q: Request, c: Cmd) -> bool {
    match q {
        Request::Eval => is_eval_cmd(script, keys, args, c),
        Request::Load => is_load_cmd(script, c),
    }
}

/// What a blocking call of `script` with `keys` and `args` did to a
/// connection whose logs went from `sent0`, `replies0` to `sent1`,
/// `replies1`, returning `r`: it only appended to the logs; it received one
/// reply per command sent, each of the kind of the request it answers; the
/// replies, run through the protocol, end the call with `r`; and the commands
/// it sent are exactly those of the protocol's requests, in order.
pub open spec fn invoked<T>(
    script: Script,
    keys: Seq<Seq<u8>>,
    args: Seq<Seq<u8>>,
    sent0: Seq<Cmd>,
    replies0: Seq<Reply<T>>,
    sent1: Seq<Cmd>,
    replies1: Seq<Reply<T>>,
    r: Result<T, RedisError>,
) -> bool {
    let got = replies1.subrange(replies0.len() as int, replies1.len() as int);
    let cmds = sent1.subrange(sent0.len() as int, sent1.len() as int);
    &&& replies0.len() <= replies1.len()
    &&& replies1.subrange(0, replies0.len() as int) == replies0
    &&& sent0.len() <= sent1.len()
    &&& sent1.subrange(0, sent0.len() as int) == sent0
    &&& protocol(got).1 == Some(r)
    &&& cmds.len() == got.len()
    &&& cmds.len() == protocol(got).0.len()
    &&& forall|i: int| 0 <= i < got.len() ==> ((#[trigger] got[i] is Eval) <==> protocol(got).0[i] == Request::Eval)
    &&& forall|i: int| 0 <= i < cmds.len() ==> carries(script, keys, args, #[trigger] protocol(got).0[i], cmds[i])
}

/// A prepared call of a script: the keys and the other arguments, each kept
/// in the order in which it was added.
pub struct ScriptInvocation<'a> {
    script: &'a Script,
    args: Vec<Vec<u8>>,
    keys: Vec<Vec<u8>>,
}

impl<'a> ScriptInvocation<'a> {
    /// The script to call.
    pub closed spec fn script(&self) -> Script {
        *self.script
    }

    /// The keys, in order (`KEYS` on the server).
    pub closed spec fn keys(&self) -> Seq<Seq<u8>> {
        bytes_seq(self.keys@)
    }

    /// The other arguments, in order (`ARGV` on the server).
    pub closed spec fn args(&self) -> Seq<Seq<u8>> {
        bytes_seq(self.args@)
    }

    /// Adds a regular argument to the invocation. It ends up as `ARGV[i]` in
    /// the script.
    pub fn arg(&mut self, arg: &[u8]) -> (r: &mut ScriptInvocation<'a>)
        ensures
            r.script() == old(self).script(),
            r.keys() == old(self).keys(),
            r.args() == old(self).args().push(arg@),
            *final(self) == *final(r),
    {
        self.args.push(slice_to_vec(arg));
        assert(self.args() =~= old(self).args().push(arg@));
        self
    }

    /// Adds a key to the invocation. It ends up as `KEYS[i]` in the script.
    pub fn key(&mut self, key: &[u8]) -> (r: &mut ScriptInvocation<'a>)
        ensures
            r.script() == old(self).script(),
            r.args() == old(self).args(),
            r.keys() == old(self).keys().push(key@),
            *final(self) == *final(r),
    {
        self.keys.push(slice_to_vec(key));
        assert(self.keys() =~= old(self).keys().push(key@));
        self
    }

    /// Adds a value that serializes to several byte strings (or none) as
    /// regular arguments, in order.
    pub fn arg_all(&mut self, parts: &Vec<Vec<u8>>) -> (r: &mut ScriptInvocation<'a>)
        ensures
            r.script() == old(self).script(),
            r.keys() == old(self).keys(),
            r.args() == old(self).args() + bytes_seq(parts@),
            *final(self) == *final(r),
    {
        append_all(&mut self.args, parts);
        self
    }

    /// Adds a value that serializes to several byte strings (or none) as
    /// keys, in order.
    pub fn key_all(&mut self, parts: &Vec<Vec<u8>>) -> (r: &mut ScriptInvocation<'a>)
        ensures
            r.script() == old(self).script(),
            r.args() == old(self).args(),
            r.keys() == old(self).keys() + bytes_seq(parts@),
            *final(self) == *final(r),
    {
        append_all(&mut self.keys, parts);
        self
    }

    /// The `EVALSHA` command of this call.
    pub fn eval_cmd(&self) -> (r: Cmd)
        ensures
            r.name() == "EVALSHA".spec_bytes(),
            r.args() == eval_args(self.script().hash(), self.keys(), self.args()),
    {
        let mut c = Cmd::new("EVALSHA".as_bytes());
        c.arg(self.script.hash.as_str().as_bytes());
        c.arg_usize(self.keys.len());
        c.arg_all(&self.keys);
        c.arg_all(&self.args);
        assert(c.args() =~= eval_args(self.script().hash(), self.keys(), self.args()));
        c
    }

    /// The `SCRIPT LOAD` command of this call's script.
    pub fn load_cmd(&self) -> (r: Cmd)
        ensures
            r.name() == "SCRIPT".spec_bytes(),
            r.args() == seq!["LOAD".spec_bytes(), encode_utf8(self.script().code())],
    {
        let mut c = Cmd::new("SCRIPT".as_bytes());
        c.arg("LOAD".as_bytes());
        c.arg(self.script.code.as_str().as_bytes());
        assert(c.args() =~= seq!["LOAD".spec_bytes(), encode_utf8(self.script().code())]);
        c
    }

    /// An executor for this call, for a driver that does not block.
    pub fn executor(&self) -> (r: ScriptExecutor)
        ensures
            r.eval_spec().name() == "EVALSHA".spec_bytes(),
            r.eval_spec().args() == eval_args(self.script().hash(), self.keys(), self.args()),
            r.load_spec().name() == "SCRIPT".spec_bytes(),
            r.load_spec().args() == seq!["LOAD".spec_bytes(), encode_utf8(self.script().code())],
            r.status_spec() == ScriptStatus::NotLoaded,
    {
        ScriptExecutor::new(self.eval_cmd(), self.load_cmd())
    }

    /// Invokes the script over a blocking connection and returns the result.
    /// A cache miss on the first call loads the body and calls once more;
    /// every other outcome ends the call.
    pub fn invoke<T, C: ConnectionLike<T>>(&self, con: &mut C) -> (r: Result<T, RedisError>)
        ensures
            invoked(self.script(), self.keys(), self.args(), old(con).sent(), old(con).replies(), final(con).sent(), final(con).replies(), r),
    {
        let ghost script = self.script();
        let ghost keys = self.keys();
        let ghost args = self.args();
        let ghost sent0 = con.sent();
        let ghost replies0 = con.replies();
        let ghost mut got: Seq<Reply<T>> = Seq::empty();
        let mut exec = self.executor();
        let mut req = Request::Eval;
        loop
            invariant
                sent0 == old(con).sent(),
                replies0 == old(con).replies(),
                script == self.script(),
                keys == self.keys(),
                args == self.args(),
                is_eval_cmd(script, keys, args, exec.eval_spec()),
                is_load_cmd(script, exec.load_spec()),
                req == Request::Load <==> exec.status_spec() == ScriptStatus::Loading,
                con.replies() == replies0 + got,
                con.sent().len() == sent0.len() + got.len(),
                con.sent().subrange(0, sent0.len() as int) == sent0,
                run(got).0 == exec.status_spec(),
                run(got).2 is None,
                run(got).1.len() == got.len() + 1,
                run(got).1.last() == req,
                forall|i: int| 0 <= i < got.len() ==> carries(script, keys, args, #[trigger] run(got).1[i], con.sent()[sent0.len() + i]),
                forall|i: int| 0 <= i < got.len() ==> ((#[trigger] got[i] is Eval) <==> run(got).1[i] == Request::Eval),
            decreases 2 - rank(exec.status_spec()),
        {
            let ghost before = con.sent();
            let cmd = exec.command(req);
            let reply = match req {
                Request::Eval => Reply::Eval(con.eval_sha(cmd)),
                Request::Load => Reply::Load(con.script_load(cmd)),
            };
            let ghost status = exec.status_spec();
            let ghost g = reply;
            let ghost qs = run(got).1;
            proof {
                assert(con.sent() == before.push(*cmd));
                assert(con.replies() == replies0 + got.push(g)) by {
                    assert(replies0 + got.push(g) =~= (replies0 + got).push(g));
                }
                assert(got.push(g).drop_last() =~= got);
                got = got.push(g);
                assert(con.sent().subrange(0, sent0.len() as int) =~= sent0);
                assert forall|i: int| 0 <= i < got.len() implies carries(script, keys, args, #[trigger] qs[i], con.sent()[sent0.len() + i]) by {
                    if i == got.len() - 1 {
                        assert(qs[i] == req);
                    }
                }
                assert forall|i: int| 0 <= i < got.len() implies ((#[trigger] got[i] is Eval) <==> qs[i] == Request::Eval) by {
                    if i == got.len() - 1 {
                        assert(qs[i] == req);
                        assert(got[i] == g);
                    } else {
                        assert(got[i] == got.drop_last()[i]);
                    }
                }
            }
            match exec.on_reply(reply) {
                Step::Done(r) => {
                    proof {
                        assert(transition(status, g) == (exec.status_spec(), Step::Done(r)));
                        assert(run(got) == (exec.status_spec(), qs, Some(r)));
                        let cmds = con.sent().subrange(sent0.len() as int, con.sent().len() as int);
                        assert(con.replies().subrange(0, replies0.len() as int) =~= replies0);
                        assert(con.replies().subrange(replies0.len() as int, con.replies().len() as int) =~= got);
                        assert forall|i: int| 0 <= i < cmds.len() implies carries(script, keys, args, #[trigger] protocol(got).0[i], cmds[i]) by {
                            assert(cmds[i] == con.sent()[sent0.len() + i]);
                        }
                        assert(invoked(script, keys, args, sent0, replies0, con.sent(), con.replies(), r));
                    }
                    return r;
                },
                Step::Send(q) => {
                    proof {
                        assert(run(got) == (exec.status_spec(), qs.push(q), None::<Result<T, RedisError>>));
                        assert forall|i: int| 0 <= i < got.len() implies carries(script, keys, args, #[trigger] run(got).1[i], con.sent()[sent0.len() + i]) by {
                            assert(run(got).1[i] == qs[i]);
                        }
                        assert forall|i: int| 0 <= i < got.len() implies ((#[trigger] got[i] is Eval) <==> run(got).1[i] == Request::Eval) by {
                            assert(run(got).1[i] == qs[i]);
                        }
                    }
                    req = q;
                },
            }
        }
    }
}

/// Scripts with the same source text have the same digest.
pub proof fn hash_is_deterministic(a: Script, b: Script)
    requires
        a.wf(),
        b.wf(),
        a.code() == b.code(),
    ensures
        a.hash() == b.hash(),
{
}

/// Two keys and two arguments are laid out as the digest, the key count 2,
/// the keys in order, then the arguments in order.
pub proof fn positional_layout(hash: Seq<char>, k1: Seq<u8>, k2: Seq<u8>, a1: Seq<u8>, a2: Seq<u8>)
    ensures
        eval_args(hash, seq![k1, k2], seq![a1, a2]) == seq![encode_utf8(hash), seq![50u8], k1, k2, a1, a2],
{
    assert(decimal(2) == seq![50u8]);
    assert(eval_args(hash, seq![k1, k2], seq![a1, a2]) =~= seq![encode_utf8(hash), seq![50u8], k1, k2, a1, a2]);
}

/// A blocking call sends at most two calls by digest and one load, in the
/// order call, load, call, whatever the connection answers.
pub proof fn blocking_call_is_bounded<T>(
    script: Script,
    keys: Seq<Seq<u8>>,
    args: Seq<Seq<u8>>,
    sent0: Seq<Cmd>,
    replies0: Seq<Reply<T>>,
    sent1: Seq<Cmd>,
    replies1: Seq<Reply<T>>,
    r: Result<T, RedisError>,
)
    requires
        invoked(script, keys, args, sent0, replies0, sent1, replies1, r),
    ensures
        1 <= sent1.len() - sent0.len() <= 3,
        protocol(replies1.subrange(replies0.len() as int, replies1.len() as int)).0
            == full_call().subrange(0, sent1.len() - sent0.len()),
{
    let got = replies1.subrange(replies0.len() as int, replies1.len() as int);
    at_most_one_reload(got);
}

} // verus!
