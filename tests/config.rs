use polymer::config::{extended_search_path, join_path, StartupError, DEFAULT_CONFIG};
use polymer::Config;

#[test]
fn join_inserts_one_separator() {
    assert_eq!(join_path("/home/u/.config", "polymer/"), "/home/u/.config/polymer/");
    assert_eq!(join_path("/home/u/.config/", "polymer/"), "/home/u/.config/polymer/");
    assert_eq!(join_path("", "config.lua"), "config.lua");
    assert_eq!(join_path("/a", "/b"), "/b");
    assert_eq!(join_path("/a", ""), "/a/");
}

#[test]
fn data_root_and_config_path_under_a_directory() {
    let root = Config::data_root_in("/home/u/.config");
    assert_eq!(root, "/home/u/.config/polymer/");
    assert_eq!(Config::config_path_in(&root), "/home/u/.config/polymer/config.lua");
}

#[test]
fn config_path_ends_with_script_name() {
    if let Some(root) = Config::data_root() {
        assert!(root.ends_with("/polymer/"));
        assert!(root.len() > "/polymer/".len());
    }
    if let Some(path) = Config::config_path() {
        assert!(path.ends_with("/polymer/config.lua"));
    }
}

#[test]
fn search_path_puts_user_directory_first() {
    let p = extended_search_path("/home/u/.config/polymer/", "/opt/polymer/lib", "./?.lua;/usr/share/lua/?.lua");
    assert_eq!(
        p,
        "/home/u/.config/polymer/?.lua;/opt/polymer/lib/?.lua;./?.lua;/usr/share/lua/?.lua"
    );
}

#[test]
fn script_error_exits_with_its_own_status_and_text() {
    let e = StartupError::ScriptFailed("[string \"config\"]:1: unexpected symbol near '='".to_string());
    assert_eq!(e.exit_code(), 2);
    assert_eq!(
        e.message(),
        "Error loading user config file:\n\n[string \"config\"]:1: unexpected symbol near '='"
    );
}

#[test]
fn missing_config_exits_with_status_one() {
    let e = StartupError::ConfigUnavailable;
    assert_eq!(e.exit_code(), 1);
    assert_eq!(e.message(), "Unable to load config file");
}

#[test]
fn default_script_is_blank() {
    assert!(DEFAULT_CONFIG.trim().is_empty());
}
