use redis_script::{
    Cmd, ConnectionLike, ErrorKind, RedisError, Reply, Request, Script, ScriptExecutor, ScriptStatus,
    Step,
};

fn is_lower_hex(s: &str) -> bool {
    s.chars().all(|c| c.is_ascii_digit() || ('a'..='f').contains(&c))
}

#[test]
fn hash_of_known_scripts() {
    assert_eq!(Script::new("return 1").get_hash(), "e0e1f9fabfc9d4800c877a703b823ac0578ff8db");
    assert_eq!(Script::new("").get_hash(), "da39a3ee5e6b4b0d3255bfef95601890afd80709");
    assert_eq!(Script::new("Hello World!").get_hash(), "2ef7bde608ce5404e97d5f042f95f89f1c232871");
}

#[test]
fn hash_is_deterministic_and_sensitive() {
    let a = Script::new("return redis.call('GET', KEYS[1])");
    let b = Script::new("return redis.call('GET', KEYS[1])");
    let c = Script::new("return redis.call('GET', KEYS[2])");
    assert_eq!(a.get_hash(), b.get_hash());
    assert_ne!(a.get_hash(), c.get_hash());
    assert_eq!(a.get_hash().len(), 40);
    assert!(is_lower_hex(a.get_hash()));
}

#[test]
fn positional_layout_of_eval() {
    let script = Script::new("return {KEYS[1], KEYS[2], ARGV[1], ARGV[2]}");
    let mut inv = script.key(b"k1");
    inv.key(b"k2").arg(b"a1").arg(b"a2");
    let cmd = inv.eval_cmd();
    assert_eq!(cmd.get_name(), b"EVALSHA");
    let expected: Vec<Vec<u8>> = vec![
        script.get_hash().as_bytes().to_vec(),
        b"2".to_vec(),
        b"k1".to_vec(),
        b"k2".to_vec(),
        b"a1".to_vec(),
        b"a2".to_vec(),
    ];
    assert_eq!(cmd.get_args(), &expected);
}

#[test]
fn keys_and_args_keep_their_order_when_interleaved() {
    let script = Script::new("return 0");
    let mut inv = script.arg(b"a1");
    inv.key(b"k1");
    inv.arg(b"a2");
    inv.key(b"k2");
    inv.key(b"k3");
    let cmd = inv.eval_cmd();
    let expected: Vec<Vec<u8>> = vec![
        script.get_hash().as_bytes().to_vec(),
        b"3".to_vec(),
        b"k1".to_vec(),
        b"k2".to_vec(),
        b"k3".to_vec(),
        b"a1".to_vec(),
        b"a2".to_vec(),
    ];
    assert_eq!(cmd.get_args(), &expected);
}

#[test]
fn bindings_chain_and_expand() {
    let script = Script::new("x");
    let mut inv = script.prepare_invoke();
    inv.arg_all(&vec![b"a".to_vec(), b"b".to_vec()]).arg(b"42");
    inv.key(b"k1").key_all(&vec![b"k2".to_vec(), b"k3".to_vec()]);
    let expected: Vec<Vec<u8>> = vec![
        script.get_hash().as_bytes().to_vec(),
        b"3".to_vec(),
        b"k1".to_vec(),
        b"k2".to_vec(),
        b"k3".to_vec(),
        b"a".to_vec(),
        b"b".to_vec(),
        b"42".to_vec(),
    ];
    assert_eq!(inv.eval_cmd().get_args(), &expected);
}

#[test]
fn empty_binding_changes_nothing() {
    let script = Script::new("x");
    let mut inv = script.key(b"k");
    inv.key_all(&Vec::new()).arg_all(&Vec::new());
    let expected: Vec<Vec<u8>> = vec![script.get_hash().as_bytes().to_vec(), b"1".to_vec(), b"k".to_vec()];
    assert_eq!(inv.eval_cmd().get_args(), &expected);
}

#[test]
fn empty_invocation_has_zero_keys() {
    let script = Script::new("return 1");
    let cmd = script.prepare_invoke().eval_cmd();
    let expected: Vec<Vec<u8>> = vec![script.get_hash().as_bytes().to_vec(), b"0".to_vec()];
    assert_eq!(cmd.get_args(), &expected);
}

#[test]
fn load_command_carries_the_body() {
    let script = Script::new("return ARGV[1]");
    let cmd = script.arg(b"x").load_cmd();
    assert_eq!(cmd.get_name(), b"SCRIPT");
    let expected: Vec<Vec<u8>> = vec![b"LOAD".to_vec(), b"return ARGV[1]".to_vec()];
    assert_eq!(cmd.get_args(), &expected);
}

#[test]
fn numbers_are_written_in_decimal() {
    let mut cmd = Cmd::new(b"X");
    cmd.arg_usize(0);
    cmd.arg_usize(7);
    cmd.arg_usize(10);
    cmd.arg_usize(1234);
    cmd.arg_usize(usize::MAX);
    let expected: Vec<Vec<u8>> = vec![
        b"0".to_vec(),
        b"7".to_vec(),
        b"10".to_vec(),
        b"1234".to_vec(),
        usize::MAX.to_string().into_bytes(),
    ];
    assert_eq!(cmd.get_args(), &expected);
}

#[test]
fn error_kinds() {
    for kind in [ErrorKind::ResponseError, ErrorKind::NoScriptError, ErrorKind::TypeError, ErrorKind::IoError] {
        let e = RedisError::new(kind, "some detail");
        assert_eq!(e.kind(), kind);
        assert_eq!(e.detail, "some detail");
    }
}

fn miss() -> RedisError {
    RedisError::new(ErrorKind::NoScriptError, "NOSCRIPT No matching script")
}

/// A connection that answers from scripted lists and records what it was sent.
struct Stub {
    evals: Vec<Result<i64, RedisError>>,
    loads: Vec<Result<(), RedisError>>,
    sent: Vec<(Vec<u8>, Vec<Vec<u8>>)>,
}

impl Stub {
    fn new(evals: Vec<Result<i64, RedisError>>, loads: Vec<Result<(), RedisError>>) -> Stub {
        Stub { evals, loads, sent: Vec::new() }
    }

    fn names(&self) -> Vec<String> {
        self.sent.iter().map(|(n, _)| String::from_utf8(n.clone()).unwrap()).collect()
    }
}

impl ConnectionLike<i64> for Stub {
    fn eval_sha(&mut self, cmd: &Cmd) -> Result<i64, RedisError> {
        self.sent.push((cmd.get_name().to_vec(), cmd.get_args().clone()));
        self.evals.remove(0)
    }

    fn script_load(&mut self, cmd: &Cmd) -> Result<(), RedisError> {
        self.sent.push((cmd.get_name().to_vec(), cmd.get_args().clone()));
        self.loads.remove(0)
    }
}

/// Drives an executor by hand, as a non-blocking driver would.
fn drive(exec: &mut ScriptExecutor, con: &mut Stub) -> Result<i64, RedisError> {
    let mut req = Request::Eval;
    loop {
        let reply = match req {
            Request::Eval => Reply::Eval(con.eval_sha(exec.command(req))),
            Request::Load => Reply::Load(con.script_load(exec.command(req))),
        };
        match exec.on_reply(reply) {
            Step::Done(r) => return r,
            Step::Send(q) => req = q,
        }
    }
}

#[test]
fn retry_on_miss_blocking() {
    let script = Script::new("return 5");
    let mut con = Stub::new(vec![Err(miss()), Ok(5)], vec![Ok(())]);
    assert_eq!(script.invoke(&mut con), Ok(5));
    assert_eq!(con.names(), vec!["EVALSHA", "SCRIPT", "EVALSHA"]);
    assert_eq!(con.sent[1].1, vec![b"LOAD".to_vec(), b"return 5".to_vec()]);
}

#[test]
fn retry_on_miss_non_blocking() {
    let script = Script::new("return 5");
    let inv = script.prepare_invoke();
    let mut exec = inv.executor();
    let mut con = Stub::new(vec![Err(miss()), Ok(5)], vec![Ok(())]);
    assert_eq!(drive(&mut exec, &mut con), Ok(5));
    assert_eq!(con.names(), vec!["EVALSHA", "SCRIPT", "EVALSHA"]);
    assert_eq!(exec.status(), ScriptStatus::Loaded);
}

#[test]
fn no_spurious_load() {
    let script = Script::new("return 5");
    let mut con = Stub::new(vec![Ok(9)], vec![]);
    assert_eq!(script.key(b"k").invoke(&mut con), Ok(9));
    assert_eq!(con.names(), vec!["EVALSHA"]);

    let inv = script.prepare_invoke();
    let mut exec = inv.executor();
    let mut con = Stub::new(vec![Ok(9)], vec![]);
    assert_eq!(drive(&mut exec, &mut con), Ok(9));
    assert_eq!(con.names(), vec!["EVALSHA"]);
    assert_eq!(exec.status(), ScriptStatus::NotLoaded);
}

#[test]
fn other_failure_passes_through() {
    let script = Script::new("return 5");
    for kind in [ErrorKind::ResponseError, ErrorKind::TypeError, ErrorKind::IoError] {
        let e = RedisError::new(kind, "boom");
        let mut con = Stub::new(vec![Err(e.clone())], vec![]);
        assert_eq!(script.invoke(&mut con), Err(e.clone()));
        assert_eq!(con.names(), vec!["EVALSHA"]);

        let inv = script.prepare_invoke();
        let mut exec = inv.executor();
        let mut con = Stub::new(vec![Err(e.clone())], vec![]);
        assert_eq!(drive(&mut exec, &mut con), Err(e));
        assert_eq!(con.names(), vec!["EVALSHA"]);
    }
}

#[test]
fn load_failure_passes_through() {
    let script = Script::new("return (");
    let e = RedisError::new(ErrorKind::ResponseError, "Error compiling script");
    let mut con = Stub::new(vec![Err(miss())], vec![Err(e.clone())]);
    assert_eq!(script.invoke(&mut con), Err(e.clone()));
    assert_eq!(con.names(), vec!["EVALSHA", "SCRIPT"]);

    let inv = script.prepare_invoke();
    let mut exec = inv.executor();
    let mut con = Stub::new(vec![Err(miss())], vec![Err(e.clone())]);
    assert_eq!(drive(&mut exec, &mut con), Err(e));
    assert_eq!(con.names(), vec!["EVALSHA", "SCRIPT"]);
}

#[test]
fn second_miss_is_surfaced() {
    let script = Script::new("return 5");
    let again = RedisError::new(ErrorKind::NoScriptError, "still missing");
    let mut con = Stub::new(vec![Err(miss()), Err(again.clone())], vec![Ok(())]);
    assert_eq!(script.invoke(&mut con), Err(again.clone()));
    assert_eq!(con.names(), vec!["EVALSHA", "SCRIPT", "EVALSHA"]);

    let inv = script.prepare_invoke();
    let mut exec = inv.executor();
    let mut con = Stub::new(vec![Err(miss()), Err(again.clone())], vec![Ok(())]);
    assert_eq!(drive(&mut exec, &mut con), Err(again));
    assert_eq!(con.names(), vec!["EVALSHA", "SCRIPT", "EVALSHA"]);
}

#[test]
fn executor_table() {
    let script = Script::new("return 5");
    let inv = script.prepare_invoke();
    let mut exec = inv.executor();
    assert_eq!(exec.status(), ScriptStatus::NotLoaded);
    assert!(matches!(exec.on_reply::<i64>(Reply::Eval(Err(miss()))), Step::Send(Request::Load)));
    assert_eq!(exec.status(), ScriptStatus::Loading);
    assert!(matches!(exec.on_reply::<i64>(Reply::Load(Ok(()))), Step::Send(Request::Eval)));
    assert_eq!(exec.status(), ScriptStatus::Loaded);
    assert!(matches!(exec.on_reply::<i64>(Reply::Eval(Ok(3))), Step::Done(Ok(3))));
}

/// A store that runs `return 1` and keeps a cache of loaded script bodies.
struct Store {
    cache: Vec<(Vec<u8>, Vec<u8>)>,
    calls: Vec<String>,
    sent: Vec<Vec<Vec<u8>>>,
}

fn whole(cmd: &Cmd) -> Vec<Vec<u8>> {
    let mut all = vec![cmd.get_name().to_vec()];
    all.extend(cmd.get_args().iter().cloned());
    all
}

impl ConnectionLike<i64> for Store {
    fn eval_sha(&mut self, cmd: &Cmd) -> Result<i64, RedisError> {
        self.calls.push("EVALSHA".to_string());
        self.sent.push(whole(cmd));
        let hash = &cmd.get_args()[0];
        match self.cache.iter().find(|(h, _)| h == hash) {
            Some((_, body)) if body == b"return 1" => Ok(1),
            Some(_) => Err(RedisError::new(ErrorKind::ResponseError, "unsupported")),
            None => Err(miss()),
        }
    }

    fn script_load(&mut self, cmd: &Cmd) -> Result<(), RedisError> {
        self.calls.push("SCRIPT LOAD".to_string());
        self.sent.push(whole(cmd));
        let body = cmd.get_args()[1].clone();
        let hash = Script::new(std::str::from_utf8(&body).unwrap()).get_hash().as_bytes().to_vec();
        self.cache.push((hash, body));
        Ok(())
    }
}

#[test]
fn end_to_end_against_a_fresh_store() {
    let script = Script::new("return 1");
    let mut store = Store { cache: Vec::new(), calls: Vec::new(), sent: Vec::new() };
    assert_eq!(script.invoke(&mut store), Ok(1));
    assert_eq!(store.calls, vec!["EVALSHA", "SCRIPT LOAD", "EVALSHA"]);
    let h = script.get_hash().as_bytes().to_vec();
    let eval = vec![b"EVALSHA".to_vec(), h.clone(), b"0".to_vec()];
    let load = vec![b"SCRIPT".to_vec(), b"LOAD".to_vec(), b"return 1".to_vec()];
    assert_eq!(store.sent, vec![eval.clone(), load, eval.clone()]);
    assert_eq!(store.cache[0].0, b"e0e1f9fabfc9d4800c877a703b823ac0578ff8db".to_vec());
    // The body is cached now: the next call goes by digest alone.
    assert_eq!(script.invoke(&mut store), Ok(1));
    assert_eq!(store.calls.len(), 4);
    assert_eq!(store.sent[3], eval);

    // Calling through an empty invocation sends the same commands.
    let mut other = Store { cache: Vec::new(), calls: Vec::new(), sent: Vec::new() };
    assert_eq!(script.prepare_invoke().invoke(&mut other), Ok(1));
    assert_eq!(other.sent, store.sent[..3].to_vec());
}
