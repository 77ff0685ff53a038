//! D-Bus sink for i3status-rust `custom_dbus` blocks.
//!
//! i3status-rust owns the D-Bus object. This sink is a client that calls
//! `SetText` and optionally `SetIcon` on that object for each deduped
//! keyboard state change; the daemon's binary holds the bus connection.

use vstd::prelude::*;

use crate::sink::{
    push_pair, spec_env_key, spec_substitute, substitute, values_view, EventArg,
};
use crate::text::{spec_is_trim_of, to_string, trim};

verus! {

pub const DEFAULT_DBUS_SERVICE: &'static str = "rs.i3status";

pub const DEFAULT_DBUS_PATH: &'static str = "/qmk_state";

pub const DEFAULT_DBUS_INTERFACE: &'static str = "rs.i3status.custom";

pub const DEFAULT_DBUS_TEXT: &'static str = "{top_layer_name} {mods_letters}";

pub const DEFAULT_DBUS_SHORT_TEXT: &'static str = "{top_layer_name}";

#[derive(Debug, Clone)]
pub struct DbusSinkConfig {
    pub service: String,
    pub path: String,
    pub interface: String,
    pub text: String,
    pub short_text: String,
    pub icon: Option<String>,
}

impl Default for DbusSinkConfig {
    fn default() -> (c: Self)
        ensures
            c.service@ == DEFAULT_DBUS_SERVICE@,
            c.path@ == DEFAULT_DBUS_PATH@,
            c.interface@ == DEFAULT_DBUS_INTERFACE@,
            c.text@ == DEFAULT_DBUS_TEXT@,
            c.short_text@ == DEFAULT_DBUS_SHORT_TEXT@,
            c.icon is None,
    {
        DbusSinkConfig {
            service: to_string(DEFAULT_DBUS_SERVICE),
            path: to_string(DEFAULT_DBUS_PATH),
            interface: to_string(DEFAULT_DBUS_INTERFACE),
            text: to_string(DEFAULT_DBUS_TEXT),
            short_text: to_string(DEFAULT_DBUS_SHORT_TEXT),
            icon: None,
        }
    }
}

/// The D-Bus target and the text templates of an i3status-rust block.
pub struct DbusSink {
    service: String,
    path: String,
    interface: String,
    text: String,
    short_text: String,
    icon: Option<String>,
}

/// The names that text placeholders can use: `event_name`,
/// `state_payload_json`, their environment names, and each argument under
/// its key and its environment name. A later entry wins.
pub open spec fn spec_template_values(
    event: Seq<char>,
    args: Seq<EventArg>,
    payload_json: Seq<char>,
) -> Seq<(Seq<char>, Seq<char>)> {
    seq![
        ("event_name"@, event),
        ("QMK_EVENT_NAME"@, event),
        ("state_payload_json"@, payload_json),
        ("QMK_STATE_PAYLOAD_JSON"@, payload_json),
    ] + spec_arg_values(args)
}

/// Each argument under its key, then under its environment name.
pub open spec fn spec_arg_values(args: Seq<EventArg>) -> Seq<(Seq<char>, Seq<char>)>
    decreases args.len(),
{
    if args.len() == 0 {
        Seq::empty()
    } else {
        spec_arg_values(args.drop_last()) + seq![
            (args.last().key@, args.last().value@),
            (spec_env_key(args.last().key@), args.last().value@),
        ]
    }
}

pub fn template_values(event: &str, args: &[EventArg], payload_json: &str) -> (values: Vec<
    (String, String),
>)
    ensures
        values_view(values@) == spec_template_values(event@, args@, payload_json@),
{
    let mut out: Vec<(String, String)> = Vec::new();
    push_pair(&mut out, "event_name", event);
    push_pair(&mut out, "QMK_EVENT_NAME", event);
    push_pair(&mut out, "state_payload_json", payload_json);
    push_pair(&mut out, "QMK_STATE_PAYLOAD_JSON", payload_json);
    let ghost base = values_view(out@);
    let n = args.len();
    let mut i: usize = 0;
    assert(spec_arg_values(args@.subrange(0, 0)) =~= Seq::<(Seq<char>, Seq<char>)>::empty());
    assert(base + Seq::<(Seq<char>, Seq<char>)>::empty() =~= base);
    while i < n
        invariant
            n == args@.len(),
            i <= n,
            values_view(out@) == base + spec_arg_values(args@.subrange(0, i as int)),
        decreases n - i,
    {
        push_pair(&mut out, args[i].key.as_str(), args[i].value.as_str());
        let env = args[i].env_key();
        push_pair(&mut out, env.as_str(), args[i].value.as_str());
        i = i + 1;
        assert(args@.subrange(0, i as int).drop_last() =~= args@.subrange(0, i - 1));
        assert(values_view(out@) =~= base + spec_arg_values(args@.subrange(0, i as int)));
    }
    assert(args@.subrange(0, n as int) =~= args@);
    out
}

/// Fills the placeholders of a template and trims surrounding whitespace.
pub fn expand_template(raw: &str, values: &Vec<(String, String)>) -> (r: String)
    ensures
        spec_is_trim_of(spec_substitute(raw@, values_view(values@)), r@),
{
    let filled = substitute(raw, values);
    trim(filled.as_str())
}

impl DbusSink {
    pub closed spec fn spec_text(&self) -> Seq<char> {
        self.text@
    }

    pub closed spec fn spec_short_text(&self) -> Seq<char> {
        self.short_text@
    }

    pub closed spec fn spec_target(&self) -> (Seq<char>, Seq<char>, Seq<char>) {
        (self.service@, self.path@, self.interface@)
    }

    pub closed spec fn spec_icon(&self) -> Option<Seq<char>> {
        match self.icon {
            Some(i) => Some(i@),
            None => None,
        }
    }

    pub fn new(config: DbusSinkConfig) -> (s: Self)
        ensures
            s.spec_target() == (config.service@, config.path@, config.interface@),
            s.spec_text() == config.text@,
            s.spec_short_text() == config.short_text@,
            s.spec_icon() == (match config.icon {
                Some(i) => Some(i@),
                None => None::<Seq<char>>,
            }),
    {
        DbusSink {
            service: config.service,
            path: config.path,
            interface: config.interface,
            text: config.text,
            short_text: config.short_text,
            icon: config.icon,
        }
    }

    /// Full and short text for one event.
    pub fn rendered_text(&self, event: &str, args: &[EventArg], payload_json: &str) -> (r: (
        String,
        String,
    ))
        ensures
            spec_is_trim_of(
                spec_substitute(self.spec_text(), spec_template_values(event@, args@, payload_json@)),
                r.0@,
            ),
            spec_is_trim_of(
                spec_substitute(
                    self.spec_short_text(),
                    spec_template_values(event@, args@, payload_json@),
                ),
                r.1@,
            ),
    {
        let values = template_values(event, args, payload_json);
        (expand_template(self.text.as_str(), &values), expand_template(self.short_text.as_str(), &values))
    }

    /// Service, object path and interface of the target object.
    pub fn target(&self) -> (t: (&str, &str, &str))
        ensures
            (t.0@, t.1@, t.2@) == self.spec_target(),
    {
        (self.service.as_str(), self.path.as_str(), self.interface.as_str())
    }

    /// The icon set before each text update, if any.
    pub fn icon(&self) -> (i: Option<&str>)
        ensures
            match i {
                Some(s) => self.spec_icon() == Some(s@),
                None => self.spec_icon() is None,
            },
    {
        match &self.icon {
            Some(s) => Some(s.as_str()),
            None => None,
        }
    }
}

} // verus!
