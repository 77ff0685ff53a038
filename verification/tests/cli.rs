use qmk_state_daemon::cli::{
    event_name_for, make_sink, parse_hex_u16, parse_width, sink_config_from_args, CliError,
    SinkArgs, SinkChoice,
};
use qmk_state_daemon::config::{Platform, SinkConfig};
use qmk_state_daemon::sink::SinkError;

#[test]
fn parses_hex_prefix() {
    assert_eq!(parse_hex_u16("0x303A").unwrap(), 0x303A);
    assert_eq!(parse_hex_u16("0X4044").unwrap(), 0x4044);
}

#[test]
fn parses_decimal() {
    assert_eq!(parse_hex_u16("12346").unwrap(), 12346);
}

#[test]
fn rejects_out_of_range() {
    assert!(parse_hex_u16("70000").is_err());
    assert!(parse_hex_u16("0xFFFFF").is_err());
}

#[test]
fn parse_errors_carry_std_messages() {
    assert_eq!(parse_hex_u16("70000").unwrap_err(), "number too large to fit in target type");
    assert_eq!(parse_hex_u16("").unwrap_err(), "cannot parse integer from empty string");
    assert_eq!(parse_hex_u16("0xg").unwrap_err(), "invalid digit found in string");
    assert_eq!(parse_hex_u16("-1").unwrap_err(), "invalid digit found in string");
}

#[test]
fn parses_width_option() {
    assert_eq!(parse_width(&None), None);
    assert_eq!(parse_width(&Some("4".to_string())), Some(4));
    assert_eq!(parse_width(&Some("2".to_string())), Some(2));
}

fn args(dry_run: bool, sink: Option<&str>, command: &[&str]) -> SinkArgs {
    SinkArgs {
        dry_run,
        sink: sink.map(|s| s.to_string()),
        command: command.iter().map(|s| s.to_string()).collect(),
        event_name: "ev".to_string(),
    }
}

#[test]
fn chooses_sink_from_arguments() {
    let fallback = SinkConfig::Sketchybar { event: None };
    match sink_config_from_args(&args(true, Some("command"), &["x"]), fallback.clone()).unwrap() {
        SinkConfig::Null { event } => assert_eq!(event.as_deref(), Some("ev")),
        _ => panic!("dry run must be null"),
    }
    match sink_config_from_args(&args(false, None, &[]), fallback.clone()).unwrap() {
        SinkConfig::Sketchybar { event } => assert_eq!(event, None),
        _ => panic!("fallback expected"),
    }
    match sink_config_from_args(&args(false, None, &["/bin/echo", "hi"]), fallback.clone()).unwrap() {
        SinkConfig::Command { event, program, commands } => {
            assert_eq!(event.as_deref(), Some("ev"));
            assert_eq!(program, vec!["/bin/echo", "hi"]);
            assert!(commands.is_empty());
        }
        _ => panic!("command expected"),
    }
    assert_eq!(
        sink_config_from_args(&args(false, Some("bogus"), &[]), fallback).unwrap_err(),
        CliError::UnknownSink("bogus".to_string())
    );
}

#[test]
fn event_name_prefers_sink_config() {
    assert_eq!(event_name_for(&SinkConfig::Null { event: Some("a".into()) }, "d"), "a");
    assert_eq!(event_name_for(&SinkConfig::Null { event: None }, "d"), "d");
}

#[test]
fn builds_sinks() {
    let cmd = SinkConfig::Command {
        event: None,
        program: vec!["a".to_string()],
        commands: vec![vec!["b".to_string(), "c".to_string()]],
    };
    match make_sink(&cmd, "/s.json", false, Platform::Other).unwrap() {
        SinkChoice::Command(s) => {
            let argvs = s.invocations("e", &[], "{}");
            assert_eq!(argvs, vec![vec!["a".to_string()], vec!["b".to_string(), "c".to_string()]]);
        }
        _ => panic!("command expected"),
    }
    assert!(matches!(make_sink(&cmd, "/s.json", true, Platform::Other).unwrap(), SinkChoice::Null(_)));
    let empty = SinkConfig::Command { event: None, program: vec![], commands: vec![] };
    assert!(matches!(make_sink(&empty, "/s", false, Platform::Other), Err(SinkError::EmptyCommand)));
    let bar = SinkConfig::Sketchybar { event: None };
    assert!(matches!(
        make_sink(&bar, "/s", false, Platform::Other),
        Err(SinkError::SketchybarUnavailable)
    ));
    assert!(matches!(make_sink(&bar, "/s", false, Platform::MacOs).unwrap(), SinkChoice::Sketchybar(_)));
}
