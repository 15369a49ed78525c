//! Client-side execution of server-cached Lua scripts.
//!
//! A [`script::Script`] pairs a script body with its SHA-1 digest. Calls are
//! built as [`script::ScriptInvocation`]s and sent by hash; when the server
//! reports that it has not cached the body, the body is loaded once and the
//! call is repeated. The decisions of that protocol live in
//! [`executor::ScriptExecutor`], which any driver (blocking or not) can run.
pub mod cmd;
pub mod executor;
pub mod script;
pub mod types;

pub use cmd::Cmd;
pub use executor::{ConnectionLike, Reply, Request, ScriptExecutor, ScriptStatus, Step};
pub use script::{Script, ScriptInvocation};
pub use types::{ErrorKind, RedisError};

