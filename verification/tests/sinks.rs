use qmk_state_daemon::sink::{substitute, EventArg, EventSink, SinkError};
use qmk_state_daemon::sinks::command::CommandSink;
use qmk_state_daemon::sinks::dbus::{expand_template, template_values, DbusSink, DbusSinkConfig};
use qmk_state_daemon::sinks::null::NullSink;
use qmk_state_daemon::sinks::sketchybar::sketchybar_trigger_args;
use qmk_state_daemon::sketchybar;
use qmk_state_daemon::sketchybar::{Notifier, NullNotifier};

#[test]
fn event_arg_new_and_env_key() {
    let a = EventArg::new("top_layer_name", "BASE");
    assert_eq!(a.key, "top_layer_name");
    assert_eq!(a.value, "BASE");
    assert_eq!(a.env_key(), "QMK_TOP_LAYER_NAME");
}

#[test]
fn env_key_only_uppercases_ascii() {
    assert_eq!(EventArg::new("mods_state2", "x").env_key(), "QMK_MODS_STATE2");
    assert_eq!(EventArg::new("é-a", "x").env_key(), "QMK_é-A");
}

#[test]
fn event_arg_new() {
    let a = sketchybar::EventArg::new("k", "v");
    assert_eq!(a.key, "k");
    assert_eq!(a.value, "v");
}

#[test]
fn rejects_empty_program() {
    assert!(CommandSink::new(Vec::<String>::new(), "/tmp/state.json").is_err());
}

#[test]
fn rejects_empty_command_lists() {
    assert_eq!(CommandSink::with_commands(vec![], "/s").unwrap_err(), SinkError::EmptyCommand);
    assert_eq!(
        CommandSink::with_commands(vec![vec!["a".into()], vec![]], "/s").unwrap_err(),
        SinkError::EmptyCommand
    );
}

#[test]
fn builds_env_pairs() {
    let sink = CommandSink::new(vec!["/bin/true".into()], "/tmp/qmk.json").unwrap();
    let args = vec![
        EventArg::new("top_layer_name", "BASE"),
        EventArg::new("mods_state", "held"),
    ];
    let env = sink.env_pairs("qmk_state_changed", &args, r#"{"top_layer_name":"BASE"}"#);
    assert!(env.contains(&("QMK_EVENT_NAME".into(), "qmk_state_changed".into())));
    assert!(env.contains(&("QMK_STATE_JSON".into(), "/tmp/qmk.json".into())));
    assert!(env.contains(&("QMK_TOP_LAYER_NAME".into(), "BASE".into())));
    assert!(env.contains(&(
        "QMK_STATE_PAYLOAD_JSON".into(),
        r#"{"top_layer_name":"BASE"}"#.into()
    )));
    assert!(env.contains(&("QMK_MODS_STATE".into(), "held".into())));
}

#[test]
fn command_args_expand_templates() {
    let sink = CommandSink::with_commands(
        vec![
            vec!["printf".into(), "layer={top_layer_name} mods={mods_letters}\n".into()],
            vec![
                "busctl".into(),
                "SetText".into(),
                "{top_layer_name} {mods_letters}".into(),
                "{QMK_TOP_LAYER_NAME}".into(),
                "{event_name}:{state_json}:{unknown}".into(),
            ],
        ],
        "/tmp/s.json",
    )
    .unwrap();
    let args = vec![
        EventArg::new("top_layer_name", "NAS"),
        EventArg::new("mods_letters", "CS"),
    ];
    let argvs = sink.invocations("qmk_state_changed", &args, "{}");
    assert_eq!(argvs.len(), 2);
    assert_eq!(argvs[0], vec!["printf", "layer=NAS mods=CS\n"]);
    assert_eq!(
        argvs[1],
        vec!["busctl", "SetText", "NAS CS", "NAS", "qmk_state_changed:/tmp/s.json:{unknown}"]
    );
}

#[test]
fn substitute_keeps_unmatched_braces() {
    let values = vec![("a".to_string(), "1".to_string())];
    assert_eq!(substitute("{a}{b}{", &values), "1{b}{");
    assert_eq!(substitute("{{a}}", &values), "{1}");
    assert_eq!(substitute("no braces", &vec![]), "no braces");
    let later_wins = vec![("a".to_string(), "1".to_string()), ("a".to_string(), "2".to_string())];
    assert_eq!(substitute("{a}", &later_wins), "2");
}

#[test]
fn default_config_targets_i3status_rust() {
    let cfg = DbusSinkConfig::default();
    assert_eq!(cfg.service, "rs.i3status");
    assert_eq!(cfg.path, "/qmk_state");
    assert_eq!(cfg.interface, "rs.i3status.custom");
}

#[test]
fn renders_text_templates() {
    let cfg = DbusSinkConfig {
        text: "{top_layer_name} {mods_letters}".to_string(),
        short_text: "{QMK_TOP_LAYER_NAME}".to_string(),
        ..Default::default()
    };
    let values = template_values(
        "qmk_state_changed",
        &[
            EventArg::new("top_layer_name", "BASE"),
            EventArg::new("mods_letters", "CS"),
        ],
        "{}",
    );
    let text = expand_template(&cfg.text, &values);
    let short = expand_template(&cfg.short_text, &values);
    assert_eq!(text, "BASE CS");
    assert_eq!(short, "BASE");
}

#[test]
fn dbus_sink_renders_and_trims() {
    let sink = DbusSink::new(DbusSinkConfig::default());
    assert_eq!(sink.target(), ("rs.i3status", "/qmk_state", "rs.i3status.custom"));
    assert_eq!(sink.icon(), None);
    let (text, short) = sink.rendered_text(
        "e",
        &[EventArg::new("top_layer_name", "FN"), EventArg::new("mods_letters", "")],
        "{}",
    );
    assert_eq!(text, "FN");
    assert_eq!(short, "FN");
}

#[test]
fn formats_sketchybar_trigger_args() {
    let args = vec![
        EventArg::new("top_layer_name", "BASE"),
        EventArg::new("mods_letters", "CS"),
    ];
    assert_eq!(
        sketchybar_trigger_args("qmk_state_changed", &args),
        vec![
            "--trigger",
            "qmk_state_changed",
            "top_layer_name=BASE",
            "mods_letters=CS",
        ]
    );
}

#[test]
fn null_sinks_accept_everything() {
    assert_eq!(NullSink.emit("e", &[], "{}"), Ok(()));
    assert!(NullNotifier.notify("e", &[]).is_ok());
}

#[test]
fn sink_error_messages() {
    assert_eq!(SinkError::EmptyCommand.message(), "command sink program must not be empty");
    assert_eq!(
        SinkError::SketchybarUnavailable.message(),
        "sketchybar sink is only available on macOS"
    );
    assert_eq!(SinkError::Emit("boom".to_string()).message(), "boom");
}

#[test]
fn command_run_stops_at_first_failure() {
    let mut run = qmk_state_daemon::sinks::command::CommandRun::new(3);
    let mut ran = Vec::new();
    let outcomes = [true, false, true];
    while let Some(i) = run.next_command() {
        ran.push(i);
        run.record(outcomes[i]);
    }
    assert_eq!(ran, vec![0, 1]);

    let mut all = qmk_state_daemon::sinks::command::CommandRun::new(2);
    let mut ran_all = Vec::new();
    while let Some(i) = all.next_command() {
        ran_all.push(i);
        all.record(true);
    }
    assert_eq!(ran_all, vec![0, 1]);
}
