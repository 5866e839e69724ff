use polymer::bindings::{create_bindings, Binding, BINDINGS_GLOBAL};
use polymer::sys::{lua_error, lua_info, lua_trace, lua_warn, user_log, LogLevel, USER_LOG_TARGET};

#[test]
fn bindings_are_named_and_distinct() {
    let names: Vec<&str> = create_bindings().iter().map(|b| b.name()).collect();
    assert_eq!(
        names,
        vec!["request_redraw", "add_timer", "connect_signal", "emit_signal", "trace", "info", "warn", "error"]
    );
    for (i, a) in names.iter().enumerate() {
        for b in &names[i + 1..] {
            assert_ne!(a, b);
        }
    }
    assert_eq!(BINDINGS_GLOBAL, "__polymer_sys");
}

#[test]
fn logging_bindings_have_levels() {
    assert_eq!(Binding::Trace.log_level(), Some(LogLevel::Trace));
    assert_eq!(Binding::Info.log_level(), Some(LogLevel::Info));
    assert_eq!(Binding::Warn.log_level(), Some(LogLevel::Warn));
    assert_eq!(Binding::Error.log_level(), Some(LogLevel::Error));
    assert_eq!(Binding::AddTimer.log_level(), None);
    assert_eq!(Binding::RequestRedraw.log_level(), None);
}

#[test]
fn user_log_records_keep_message_and_level() {
    assert_eq!(USER_LOG_TARGET, "polymer::user");
    let r = lua_info("hello".to_string());
    assert_eq!((r.level, r.message.as_str()), (LogLevel::Info, "hello"));
    let r = lua_warn("w".to_string());
    assert_eq!(r.level, LogLevel::Warn);
    let r = lua_error("e".to_string());
    assert_eq!(r.level, LogLevel::Error);
    let r = lua_trace(String::new());
    assert_eq!((r.level, r.message.as_str()), (LogLevel::Trace, ""));
    let r = user_log(LogLevel::Warn, "x".to_string());
    assert_eq!(r.message, "x");
}
