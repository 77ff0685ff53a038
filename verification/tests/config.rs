use qmk_state_daemon::config::{
    default_config_path, default_config_text, default_socket_path, default_state_file,
    expand_home, join_path, parse_u16_auto, resolve_path_opt, Config, ConfigError, PathEnv,
    Platform, SinkConfig,
};
use qmk_state_daemon::text::IntParseError;

fn env(home: Option<&str>) -> PathEnv {
    PathEnv {
        home: home.map(|h| h.to_string()),
        xdg_config_home: None,
        xdg_state_home: None,
        xdg_runtime_dir: None,
        platform: Platform::Other,
    }
}

#[test]
fn parses_hex_and_decimal_u16() {
    assert_eq!(parse_u16_auto(Some("0x303A")).unwrap().unwrap(), 0x303A);
    assert_eq!(parse_u16_auto(Some("12346")).unwrap().unwrap(), 12346);
    assert!(parse_u16_auto(Some("70000")).unwrap().is_err());
}

#[test]
fn parse_u16_auto_errors_and_none() {
    assert!(parse_u16_auto(None).is_none());
    assert_eq!(parse_u16_auto(Some("")).unwrap(), Err(IntParseError::Empty));
    assert_eq!(parse_u16_auto(Some("0x")).unwrap(), Err(IntParseError::Empty));
    assert_eq!(parse_u16_auto(Some("12a")).unwrap(), Err(IntParseError::InvalidDigit));
    assert_eq!(parse_u16_auto(Some("+")).unwrap(), Err(IntParseError::InvalidDigit));
    assert_eq!(parse_u16_auto(Some("+65535")).unwrap(), Ok(65535));
    assert_eq!(parse_u16_auto(Some("0XfF")).unwrap(), Ok(255));
    assert_eq!(parse_u16_auto(Some("65536")).unwrap(), Err(IntParseError::PosOverflow));
}

#[test]
fn parses_command_config() {
    let cfg = Config {
        vid: Some("0x303A".to_string()),
        pid: Some("0x4044".to_string()),
        state_file: Some("/tmp/state.json".to_string()),
        socket: Some("/tmp/sock".to_string()),
        sink: Some(SinkConfig::Command {
            event: Some("e".to_string()),
            program: vec!["/bin/true".to_string()],
            commands: vec![],
        }),
    };
    let resolved = cfg.resolve(&env(None)).unwrap();
    assert_eq!(resolved.vid, 0x303A);
    assert_eq!(resolved.pid, 0x4044);
    assert_eq!(resolved.state_file, "/tmp/state.json");
    assert_eq!(resolved.socket, "/tmp/sock");
    match resolved.sink {
        SinkConfig::Command { event, program, .. } => {
            assert_eq!(event.as_deref(), Some("e"));
            assert_eq!(program, vec!["/bin/true"]);
        }
        _ => panic!("wrong sink"),
    }
}

#[test]
fn default_config_contains_sink() {
    let text = default_config_text(Platform::Other);
    assert!(text.contains("[sink]"));
    assert!(text.contains("qmk_state_changed"));
}

#[test]
fn default_config_text_per_platform() {
    let mac = default_config_text(Platform::MacOs);
    assert!(mac.contains("kind = \"sketchybar\""));
    assert!(mac.starts_with("# qmk-state-daemon config\nvid = \"0x303A\""));
    let other = default_config_text(Platform::Other);
    assert!(other.contains("kind = \"command\""));
    assert!(other.contains("program = [\"/bin/sh\", \"-lc\""));
}

#[test]
fn resolve_uses_defaults() {
    let resolved = Config::default().resolve(&env(Some("/home/u"))).unwrap();
    assert_eq!(resolved.vid, 0x303A);
    assert_eq!(resolved.pid, 0x4044);
    assert_eq!(resolved.state_file, "/home/u/.local/state/qmk-state-daemon/state.json");
    assert_eq!(resolved.socket, "/tmp/qmk-state-daemon.sock");
    match resolved.sink {
        SinkConfig::Null { event } => assert_eq!(event.as_deref(), Some("qmk_state_changed")),
        _ => panic!("wrong sink"),
    }
}

#[test]
fn resolve_reports_bad_ids() {
    let mut cfg = Config::default();
    cfg.vid = Some("zz".to_string());
    cfg.pid = Some("70000".to_string());
    assert_eq!(
        cfg.clone().resolve(&env(None)).unwrap_err(),
        ConfigError::BadVid(IntParseError::InvalidDigit)
    );
    cfg.vid = None;
    assert_eq!(
        cfg.resolve(&env(None)).unwrap_err(),
        ConfigError::BadPid(IntParseError::PosOverflow)
    );
}

#[test]
fn default_paths_follow_environment() {
    let mut e = env(Some("/home/u"));
    assert_eq!(default_config_path(&e), "/home/u/.config/qmk-state-daemon/config.toml");
    assert_eq!(default_state_file(&e), "/home/u/.local/state/qmk-state-daemon/state.json");
    assert_eq!(default_socket_path(&e), "/tmp/qmk-state-daemon.sock");
    e.xdg_config_home = Some("/cfg/".to_string());
    e.xdg_state_home = Some("/st".to_string());
    e.xdg_runtime_dir = Some("/run/user/1000".to_string());
    assert_eq!(default_config_path(&e), "/cfg/qmk-state-daemon/config.toml");
    assert_eq!(default_state_file(&e), "/st/qmk-state-daemon/state.json");
    assert_eq!(default_socket_path(&e), "/run/user/1000/qmk-state-daemon.sock");
    let bare = env(None);
    assert_eq!(default_config_path(&bare), "qmk-state-daemon.toml");
    assert_eq!(default_state_file(&bare), "/tmp/qmk_state.json");
}

#[test]
fn paths_join_and_expand() {
    assert_eq!(join_path("", "a"), "a");
    assert_eq!(join_path("a", ""), "a/");
    assert_eq!(join_path("a", "/b"), "/b");
    assert_eq!(expand_home("~", Some("/h")), "/h");
    assert_eq!(expand_home("~/x/y", Some("/h")), "/h/x/y");
    assert_eq!(expand_home("~/x", None), "~/x");
    assert_eq!(expand_home("~x", Some("/h")), "~x");
    assert_eq!(resolve_path_opt(None, "d".to_string(), None), "d");
    assert_eq!(resolve_path_opt(Some(""), "d".to_string(), None), "d");
    assert_eq!(resolve_path_opt(Some("auto"), "d".to_string(), None), "d");
    assert_eq!(resolve_path_opt(Some("~/s.json"), "d".to_string(), Some("/h")), "/h/s.json");
}
