//! The decisions behind the command line: parsing option values and
//! choosing the sink and event name from arguments and config.

use vstd::prelude::*;

use crate::config::{spec_parse_u16_auto, parse_u16_text, Platform, SinkConfig};
use crate::handlers::state::{PayloadView, StatePayload};
use crate::sink::{EventArg, SinkError};
use crate::sinks::command::{commands_view, CommandSink};
use crate::sinks::null::NullSink;
use crate::sinks::sketchybar::SketchybarSink;
use crate::text::{parse_uint_from, spec_parse_uint, str_eq, to_string};

verus! {

/// A `u16` option value: `0x303A`, `0X303A`, or decimal `12346`; on failure
/// the standard library's message for the kind of failure.
pub fn parse_hex_u16(s: &str) -> (r: Result<u16, String>)
    ensures
        match spec_parse_u16_auto(s@) {
            Ok(v) => r == Ok::<u16, String>(v),
            Err(e) => r matches Err(m) && m@ == e.spec_message(),
        },
{
    match parse_u16_text(s) {
        Ok(v) => Ok(v),
        Err(e) => Err(e.message()),
    }
}

/// The `--width` option as a number. The option only admits `1`, `2` and
/// `4`; any value given must parse.
pub fn parse_width(w: &Option<String>) -> (r: Option<usize>)
    requires
        w matches Some(s) ==> spec_parse_uint(s@, 10, usize::MAX as nat) is Ok,
    ensures
        match w {
            None => r is None,
            Some(s) => r == Some(spec_parse_uint(s@, 10, usize::MAX as nat)->Ok_0 as usize),
        },
{
    match w {
        None => None,
        Some(s) => {
            assert(s@.subrange(0, s@.len() as int) =~= s@);
            match parse_uint_from(s.as_str(), 0, 10, usize::MAX as u64) {
                Ok(v) => Some(v as usize),
                Err(_) => None,
            }
        },
    }
}

/// The command-line options that choose the sink.
#[derive(Debug, Clone)]
pub struct SinkArgs {
    pub dry_run: bool,
    pub sink: Option<String>,
    pub command: Vec<String>,
    pub event_name: String,
}

#[derive(Debug, Clone, PartialEq, Eq)]
pub enum CliError {
    /// `--sink` named no known sink.
    UnknownSink(String),
}

/// The event name of a sink config.
pub open spec fn spec_sink_event(cfg: SinkConfig) -> Option<String> {
    match cfg {
        SinkConfig::Sketchybar { event } => event,
        SinkConfig::Command { event, .. } => event,
        SinkConfig::Null { event } => event,
    }
}

/// What the options choose: a dry run is the null sink; otherwise `--sink`
/// names the sink, and without it a `--command` makes a command sink and
/// no `--command` keeps the config's sink. Chosen sinks carry the
/// `--event-name`.
pub fn sink_config_from_args(args: &SinkArgs, fallback: SinkConfig) -> (r: Result<
    SinkConfig,
    CliError,
>)
    ensures
        args.dry_run ==> (r matches Ok(SinkConfig::Null { event }) && event matches Some(e) && e@
            == args.event_name@),
        !args.dry_run && args.sink is None && args.command@.len() == 0 ==> r == Ok::<
            SinkConfig,
            CliError,
        >(fallback),
        !args.dry_run && args.sink is None && args.command@.len() > 0 ==> (r matches Ok(
            SinkConfig::Command { event, program, commands },
        ) && event matches Some(e) && e@ == args.event_name@ && program@ == args.command@
            && commands@.len() == 0),
        !args.dry_run ==> (args.sink matches Some(s) ==> (if s@ == "null"@ {
            r matches Ok(SinkConfig::Null { event }) && event matches Some(e) && e@
                == args.event_name@
        } else if s@ == "command"@ {
            r matches Ok(SinkConfig::Command { event, program, commands }) && event matches Some(
                e,
            ) && e@ == args.event_name@ && program@ == args.command@ && commands@.len() == 0
        } else if s@ == "sketchybar"@ {
            r matches Ok(SinkConfig::Sketchybar { event }) && event matches Some(e) && e@
                == args.event_name@
        } else {
            r matches Err(CliError::UnknownSink(n)) && n@ == s@
        })),
{
    if args.dry_run {
        return Ok(SinkConfig::Null { event: Some(args.event_name.clone()) });
    }
    match &args.sink {
        None => {
            if args.command.len() == 0 {
                Ok(fallback)
            } else {
                Ok(
                    SinkConfig::Command {
                        event: Some(args.event_name.clone()),
                        program: args.command.clone(),
                        commands: Vec::new(),
                    },
                )
            }
        },
        Some(s) => {
            if str_eq(s.as_str(), "null") {
                Ok(SinkConfig::Null { event: Some(args.event_name.clone()) })
            } else if str_eq(s.as_str(), "command") {
                Ok(
                    SinkConfig::Command {
                        event: Some(args.event_name.clone()),
                        program: args.command.clone(),
                        commands: Vec::new(),
                    },
                )
            } else if str_eq(s.as_str(), "sketchybar") {
                Ok(SinkConfig::Sketchybar { event: Some(args.event_name.clone()) })
            } else {
                Err(CliError::UnknownSink(s.clone()))
            }
        },
    }
}

/// The sink's own event name, else the command-line default.
pub fn event_name_for(cfg: &SinkConfig, cli_default: &str) -> (name: String)
    ensures
        name@ == (match spec_sink_event(*cfg) {
            Some(e) => e@,
            None => cli_default@,
        }),
{
    let event = match cfg {
        SinkConfig::Sketchybar { event } => event,
        SinkConfig::Command { event, .. } => event,
        SinkConfig::Null { event } => event,
    };
    match event {
        Some(e) => e.clone(),
        None => to_string(cli_default),
    }
}

/// The sink a config selects.
pub enum SinkChoice {
    Null(NullSink),
    Command(CommandSink),
    Sketchybar(SketchybarSink),
}

/// An argv as character sequences.
pub open spec fn argv_view(v: Vec<String>) -> Seq<Seq<char>> {
    v@.map_values(|a: String| a@)
}

/// The argvs a command config runs: `program` (when given), then
/// `commands`.
pub open spec fn spec_command_list(program: Seq<Seq<char>>, commands: Seq<Seq<Seq<char>>>) -> Seq<
    Seq<Seq<char>>,
> {
    if program.len() > 0 {
        seq![program] + commands
    } else {
        commands
    }
}

/// Is the list of argvs empty, or some argv of it?
pub open spec fn lacks_program(commands: Seq<Seq<Seq<char>>>) -> bool {
    commands.len() == 0 || exists|i: int| 0 <= i < commands.len() && #[trigger] commands[i].len() == 0
}

fn clone_argv(v: &Vec<String>) -> (c: Vec<String>)
    ensures
        argv_view(c) == argv_view(*v),
{
    let mut c: Vec<String> = Vec::new();
    let n = v.len();
    let mut i: usize = 0;
    while i < n
        invariant
            n == v@.len(),
            i <= n,
            argv_view(c) == v@.subrange(0, i as int).map_values(|a: String| a@),
        decreases n - i,
    {
        let ghost prev = c@;
        let a = v[i].clone();
        assert(a@ == v@[i as int]@);
        c.push(a);
        assert(v@.subrange(0, i + 1) =~= v@.subrange(0, i as int).push(v@[i as int]));
        assert(c@.map_values(|a: String| a@) =~= prev.map_values(|a: String| a@).push(a@));
        i = i + 1;
        assert(argv_view(c) =~= v@.subrange(0, i as int).map_values(|a: String| a@));
    }
    assert(v@.subrange(0, n as int) =~= v@);
    c
}

/// The sketchybar sink, which exists on macOS only.
pub fn make_sketchybar_sink(platform: Platform) -> (r: Result<SinkChoice, SinkError>)
    ensures
        platform == Platform::MacOs ==> r matches Ok(SinkChoice::Sketchybar(_)),
        platform == Platform::Other ==> r == Err::<SinkChoice, SinkError>(
            SinkError::SketchybarUnavailable,
        ),
{
    match platform {
        Platform::MacOs => Ok(SinkChoice::Sketchybar(SketchybarSink)),
        Platform::Other => Err(SinkError::SketchybarUnavailable),
    }
}

/// Builds the sink that a config selects; a dry run always gets the null
/// sink.
pub fn make_sink(cfg: &SinkConfig, state_file: &str, dry_run: bool, platform: Platform) -> (r:
    Result<SinkChoice, SinkError>)
    ensures
        dry_run ==> r matches Ok(SinkChoice::Null(_)),
        !dry_run ==> match *cfg {
            SinkConfig::Null { .. } => r matches Ok(SinkChoice::Null(_)),
            SinkConfig::Sketchybar { .. } => if platform == Platform::MacOs {
                r matches Ok(SinkChoice::Sketchybar(_))
            } else {
                r == Err::<SinkChoice, SinkError>(SinkError::SketchybarUnavailable)
            },
            SinkConfig::Command { program, commands, .. } => if lacks_program(
                spec_command_list(argv_view(program), commands_view(commands@)),
            ) {
                r == Err::<SinkChoice, SinkError>(SinkError::EmptyCommand)
            } else {
                r matches Ok(SinkChoice::Command(s)) && s.spec_commands() == spec_command_list(
                    argv_view(program),
                    commands_view(commands@),
                ) && s.spec_state_file() == state_file@
            },
        },
{
    if dry_run {
        return Ok(SinkChoice::Null(NullSink));
    }
    match cfg {
        SinkConfig::Null { .. } => Ok(SinkChoice::Null(NullSink)),
        SinkConfig::Command { program, commands, .. } => {
            let mut all: Vec<Vec<String>> = Vec::new();
            if program.len() > 0 {
                all.push(clone_argv(program));
            }
            let n = commands.len();
            let mut i: usize = 0;
            let ghost head = commands_view(all@);
            assert(head + commands_view(commands@.subrange(0, 0)) =~= head);
            while i < n
                invariant
                    n == commands@.len(),
                    i <= n,
                    commands_view(all@) == head + commands_view(commands@.subrange(0, i as int)),
                decreases n - i,
            {
                let ghost prev = all@;
                let a = clone_argv(&commands[i]);
                all.push(a);
                assert(commands@.subrange(0, i + 1) =~= commands@.subrange(0, i as int).push(commands@[i as int]));
                assert(commands_view(all@) =~= commands_view(prev).push(argv_view(a)));
                i = i + 1;
                assert(commands_view(all@) =~= head + commands_view(commands@.subrange(0, i as int)));
            }
            assert(commands@.subrange(0, n as int) =~= commands@);
            assert(commands_view(all@) =~= spec_command_list(argv_view(*program), commands_view(commands@)));
            assert(lacks_program(commands_view(all@)) == (all@.len() == 0 || exists|i: int|
                0 <= i < all@.len() && #[trigger] all@[i]@.len() == 0)) by {
                if exists|i: int| 0 <= i < all@.len() && #[trigger] all@[i]@.len() == 0 {
                    let i = choose|i: int| 0 <= i < all@.len() && #[trigger] all@[i]@.len() == 0;
                    assert(commands_view(all@)[i].len() == 0);
                }
                if exists|i: int| 0 <= i < commands_view(all@).len() && #[trigger] commands_view(all@)[i].len() == 0 {
                    let i = choose|i: int| 0 <= i < commands_view(all@).len() && #[trigger] commands_view(all@)[i].len() == 0;
                    assert(all@[i]@.len() == 0);
                }
            }
            match CommandSink::with_commands(all, state_file) {
                Ok(s) => Ok(SinkChoice::Command(s)),
                Err(e) => Err(e),
            }
        },
        SinkConfig::Sketchybar { .. } => make_sketchybar_sink(platform),
    }
}

/// The event arguments handed to sinks: the display fields only, in this
/// order.
pub open spec fn spec_sink_args(p: PayloadView) -> Seq<(Seq<char>, Seq<char>)> {
    seq![
        ("top_layer_name"@, p.top_layer_name),
        ("default_layer_name"@, p.default_layer_name),
        ("mods_letters"@, p.mods_letters),
        ("mods_state"@, p.mods_state),
    ]
}

pub fn event_args_from(p: &StatePayload) -> (args: Vec<EventArg>)
    ensures
        args@.map_values(|a: EventArg| (a.key@, a.value@)) == spec_sink_args(p@),
{
    let mut out: Vec<EventArg> = Vec::new();
    out.push(EventArg::new("top_layer_name", p.top_layer_name.as_str()));
    out.push(EventArg::new("default_layer_name", p.default_layer_name.as_str()));
    out.push(EventArg::new("mods_letters", p.mods_letters.as_str()));
    out.push(EventArg::new("mods_state", p.mods_state));
    assert(out@.map_values(|a: EventArg| (a.key@, a.value@)) =~= spec_sink_args(p@));
    out
}

/// The payload field that an argument key names.
pub open spec fn sink_payload_field(p: PayloadView, key: Seq<char>) -> Option<Seq<char>> {
    if key == "top_layer_name"@ {
        Some(p.top_layer_name)
    } else if key == "default_layer_name"@ {
        Some(p.default_layer_name)
    } else if key == "mods_letters"@ {
        Some(p.mods_letters)
    } else if key == "mods_state"@ {
        Some(p.mods_state)
    } else {
        None
    }
}

/// Each forwarded argument carries the payload's own field of its name:
/// the top and default layer names, the mod letters and the mod state, each
/// once, whatever the other fields hold.
pub proof fn lemma_sink_args_carry_named_fields(p: PayloadView)
    ensures
        spec_sink_args(p).len() == 4,
        forall|i: int|
            0 <= i < 4 ==> sink_payload_field(p, #[trigger] spec_sink_args(p)[i].0) == Some(spec_sink_args(p)[i].1),
        forall|i: int, j: int| 0 <= i < j < 4 ==> spec_sink_args(p)[i].0 != spec_sink_args(p)[j].0,
{
    reveal_strlit("top_layer_name");
    reveal_strlit("default_layer_name");
    reveal_strlit("mods_letters");
    reveal_strlit("mods_state");
    let a = spec_sink_args(p);
    assert(a[0].0 == "top_layer_name"@);
    assert(a[1].0 == "default_layer_name"@);
    assert(a[2].0 == "mods_letters"@);
    assert(a[3].0 == "mods_state"@);
    assert("top_layer_name"@ != "default_layer_name"@) by {
        assert("top_layer_name"@[0] != "default_layer_name"@[0]);
    }
    assert("top_layer_name"@ != "mods_letters"@) by {
        assert("top_layer_name"@[0] != "mods_letters"@[0]);
    }
    assert("top_layer_name"@ != "mods_state"@) by {
        assert("top_layer_name"@[0] != "mods_state"@[0]);
    }
    assert("default_layer_name"@ != "mods_letters"@) by {
        assert("default_layer_name"@[0] != "mods_letters"@[0]);
    }
    assert("default_layer_name"@ != "mods_state"@) by {
        assert("default_layer_name"@[0] != "mods_state"@[0]);
    }
    assert("mods_letters"@ != "mods_state"@) by {
        assert("mods_letters"@[5] != "mods_state"@[5]);
    }
}

} // verus!
