//! Messages the script logs, tagged as coming from the user.
use vstd::prelude::*;

verus! {

/// Log target that marks a record as written by the script.
pub const USER_LOG_TARGET: &'static str = "polymer::user";

/// Severity of a user log record.
#[derive(Clone, Copy, Debug, PartialEq, Eq, Structural)]
pub enum LogLevel {
    Trace,
    Info,
    Warn,
    Error,
}

/// A message for the host's log sink, under `USER_LOG_TARGET`.
pub struct UserLogRecord {
    pub level: LogLevel,
    pub message: String,
}

/// Tags `msg` for the log sink at `level`; this never fails.
pub fn user_log(level: LogLevel, msg: String) -> (r: UserLogRecord)
    ensures
        r.level == level,
        r.message@ == msg@,
{
    UserLogRecord { level, message: msg }
}

pub fn lua_trace(msg: String) -> (r: UserLogRecord)
    ensures
        r.level == LogLevel::Trace,
        r.message@ == msg@,
{
    user_log(LogLevel::Trace, msg)
}

pub fn lua_info(msg: String) -> (r: UserLogRecord)
    ensures
        r.level == LogLevel::Info,
        r.message@ == msg@,
{
    user_log(LogLevel::Info, msg)
}

pub fn lua_warn(msg: String) -> (r: UserLogRecord)
    ensures
        r.level == LogLevel::Warn,
        r.message@ == msg@,
{
    user_log(LogLevel::Warn, msg)
}

pub fn lua_error(msg: String) -> (r: UserLogRecord)
    ensures
        r.level == LogLevel::Error,
        r.message@ == msg@,
{
    user_log(LogLevel::Error, msg)
}

} // verus!
