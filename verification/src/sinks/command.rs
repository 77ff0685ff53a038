//! Generic command sink for Linux and other non-sketchybar consumers.
//!
//! Each configured command runs once per event, in order, with the event in
//! its environment; `{name}` placeholders in the argv are replaced by event
//! fields, so no shell is needed.

use vstd::prelude::*;

use crate::sink::{
    push_pair, spec_env_key, spec_substitute, substitute, values_view, EventArg, SinkError,
};

verus! {

#[derive(Debug, Clone)]
pub struct CommandSink {
    commands: Vec<Vec<String>>,
    state_file: String,
}

/// The argvs of a list of commands as character sequences.
pub open spec fn commands_view(commands: Seq<Vec<String>>) -> Seq<Seq<Seq<char>>> {
    commands.map_values(|c: Vec<String>| c@.map_values(|s: String| s@))
}

/// The environment every command of an event runs with: event name, state
/// file path and payload, then `QMK_<KEY>` for each argument.
pub open spec fn spec_env_pairs(
    event: Seq<char>,
    state_file: Seq<char>,
    payload_json: Seq<char>,
    args: Seq<EventArg>,
) -> Seq<(Seq<char>, Seq<char>)> {
    seq![
        ("QMK_EVENT_NAME"@, event),
        ("QMK_STATE_JSON"@, state_file),
        ("QMK_STATE_PAYLOAD_JSON"@, payload_json),
    ] + args.map_values(|a: EventArg| (spec_env_key(a.key@), a.value@))
}

/// The names that argv placeholders can use: the environment names, the
/// lower-case `event_name`, `state_json`, `state_payload_json`, and each
/// argument's key. A later entry wins over an earlier one of the same name.
pub open spec fn spec_template_values(
    event: Seq<char>,
    state_file: Seq<char>,
    payload_json: Seq<char>,
    args: Seq<EventArg>,
) -> Seq<(Seq<char>, Seq<char>)> {
    spec_env_pairs(event, state_file, payload_json, args) + seq![
        ("event_name"@, event),
        ("state_json"@, state_file),
        ("state_payload_json"@, payload_json),
    ] + args.map_values(|a: EventArg| (a.key@, a.value@))
}

impl CommandSink {
    /// The commands, each an argv.
    pub closed spec fn spec_commands(&self) -> Seq<Seq<Seq<char>>> {
        commands_view(self.commands@)
    }

    /// The state file path handed to the commands.
    pub closed spec fn spec_state_file(&self) -> Seq<char> {
        self.state_file@
    }

    /// A sink that runs one program.
    pub fn new(program: Vec<String>, state_file: &str) -> (r: Result<Self, SinkError>)
        ensures
            program@.len() == 0 ==> r == Err::<Self, SinkError>(SinkError::EmptyCommand),
            program@.len() > 0 ==> (r matches Ok(s) && s.spec_commands() == seq![
                program@.map_values(|a: String| a@),
            ] && s.spec_state_file() == state_file@),
    {
        if program.len() == 0 {
            return Err(SinkError::EmptyCommand);
        }
        let ghost argv = program@.map_values(|a: String| a@);
        let mut commands: Vec<Vec<String>> = Vec::new();
        commands.push(program);
        let s = CommandSink { commands, state_file: crate::text::to_string(state_file) };
        assert(s.spec_commands() =~= seq![argv]);
        Ok(s)
    }

    /// A sink that runs several commands in order; each must name a program.
    pub fn with_commands(commands: Vec<Vec<String>>, state_file: &str) -> (r: Result<
        Self,
        SinkError,
    >)
        ensures
            (commands@.len() == 0 || exists|i: int|
                0 <= i < commands@.len() && #[trigger] commands@[i]@.len() == 0) ==> r == Err::<
                Self,
                SinkError,
            >(SinkError::EmptyCommand),
            !(commands@.len() == 0 || exists|i: int|
                0 <= i < commands@.len() && #[trigger] commands@[i]@.len() == 0) ==> (r matches Ok(
                s,
            ) && s.spec_commands() == commands_view(commands@) && s.spec_state_file()
                == state_file@),
    {
        if commands.len() == 0 {
            return Err(SinkError::EmptyCommand);
        }
        let n = commands.len();
        let mut i: usize = 0;
        while i < n
            invariant
                n == commands@.len(),
                i <= n,
                forall|j: int| 0 <= j < i ==> #[trigger] commands@[j]@.len() > 0,
            decreases n - i,
        {
            if commands[i].len() == 0 {
                return Err(SinkError::EmptyCommand);
            }
            i = i + 1;
        }
        Ok(CommandSink { commands, state_file: crate::text::to_string(state_file) })
    }

    /// The environment for one event.
    pub fn env_pairs(&self, event: &str, args: &[EventArg], payload_json: &str) -> (env: Vec<
        (String, String),
    >)
        ensures
            values_view(env@) == spec_env_pairs(event@, self.spec_state_file(), payload_json@, args@),
    {
        let mut out: Vec<(String, String)> = Vec::new();
        push_pair(&mut out, "QMK_EVENT_NAME", event);
        push_pair(&mut out, "QMK_STATE_JSON", self.state_file.as_str());
        push_pair(&mut out, "QMK_STATE_PAYLOAD_JSON", payload_json);
        let n = args.len();
        let mut i: usize = 0;
        assert(values_view(out@) =~= spec_env_pairs(
            event@,
            self.spec_state_file(),
            payload_json@,
            args@.subrange(0, 0),
        ));
        while i < n
            invariant
                n == args@.len(),
                i <= n,
                values_view(out@) == spec_env_pairs(
                    event@,
                    self.spec_state_file(),
                    payload_json@,
                    args@.subrange(0, i as int),
                ),
            decreases n - i,
        {
            let key = args[i].env_key();
            push_pair(&mut out, key.as_str(), args[i].value.as_str());
            i = i + 1;
            assert(values_view(out@) =~= spec_env_pairs(
                event@,
                self.spec_state_file(),
                payload_json@,
                args@.subrange(0, i as int),
            ));
        }
        assert(args@.subrange(0, n as int) =~= args@);
        out
    }

    /// The named values that argv placeholders are filled from.
    pub fn template_values(&self, event: &str, args: &[EventArg], payload_json: &str) -> (values:
        Vec<(String, String)>)
        ensures
            values_view(values@) == spec_template_values(
                event@,
                self.spec_state_file(),
                payload_json@,
                args@,
            ),
    {
        let mut out = self.env_pairs(event, args, payload_json);
        push_pair(&mut out, "event_name", event);
        push_pair(&mut out, "state_json", self.state_file.as_str());
        push_pair(&mut out, "state_payload_json", payload_json);
        let ghost base = values_view(out@);
        let n = args.len();
        let mut i: usize = 0;
        assert(base + args@.subrange(0, 0).map_values(|a: EventArg| (a.key@, a.value@)) =~= base);
        while i < n
            invariant
                n == args@.len(),
                i <= n,
                values_view(out@) == base + args@.subrange(0, i as int).map_values(
                    |a: EventArg| (a.key@, a.value@),
                ),
            decreases n - i,
        {
            push_pair(&mut out, args[i].key.as_str(), args[i].value.as_str());
            i = i + 1;
            assert(values_view(out@) =~= base + args@.subrange(0, i as int).map_values(
                |a: EventArg| (a.key@, a.value@),
            ));
        }
        assert(args@.subrange(0, n as int) =~= args@);
        assert(values_view(out@) =~= spec_template_values(
            event@,
            self.spec_state_file(),
            payload_json@,
            args@,
        ));
        out
    }

    /// The argvs to run for one event, in order, with placeholders filled.
    pub fn invocations(&self, event: &str, args: &[EventArg], payload_json: &str) -> (argvs: Vec<
        Vec<String>,
    >)
        ensures
            argvs@.len() == self.spec_commands().len(),
            forall|i: int|
                0 <= i < argvs@.len() ==> #[trigger] argvs@[i]@.len()
                    == self.spec_commands()[i].len() && forall|j: int|
                    0 <= j < argvs@[i]@.len() ==> #[trigger] argvs@[i]@[j]@ == spec_substitute(
                        self.spec_commands()[i][j],
                        spec_template_values(
                            event@,
                            self.spec_state_file(),
                            payload_json@,
                            args@,
                        ),
                    ),
    {
        let values = self.template_values(event, args, payload_json);
        let ghost vals = values_view(values@);
        let n = self.commands.len();
        let mut out: Vec<Vec<String>> = Vec::new();
        let mut i: usize = 0;
        while i < n
            invariant
                n == self.commands@.len(),
                i <= n,
                out@.len() == i,
                vals == values_view(values@),
                vals == spec_template_values(event@, self.spec_state_file(), payload_json@, args@),
                forall|k: int|
                    0 <= k < i ==> #[trigger] out@[k]@.len() == self.spec_commands()[k].len()
                        && forall|j: int|
                        0 <= j < out@[k]@.len() ==> #[trigger] out@[k]@[j]@ == spec_substitute(
                            self.spec_commands()[k][j],
                            vals,
                        ),
            decreases n - i,
        {
            let cmd = &self.commands[i];
            let m = cmd.len();
            let mut argv: Vec<String> = Vec::new();
            let mut j: usize = 0;
            while j < m
                invariant
                    m == cmd@.len(),
                    cmd == self.commands@[i as int],
                    j <= m,
                    argv@.len() == j,
                    vals == values_view(values@),
                    forall|l: int|
                        0 <= l < j ==> #[trigger] argv@[l]@ == spec_substitute(cmd@[l]@, vals),
                decreases m - j,
            {
                argv.push(substitute(cmd[j].as_str(), &values));
                j = j + 1;
            }
            out.push(argv);
            i = i + 1;
        }
        out
    }
}

/// Progress through the commands of one event: they run in order, and the
/// first one that fails ends the sequence.
pub struct CommandRun {
    total: usize,
    done: usize,
    failed: bool,
}

impl CommandRun {
    #[verifier::type_invariant]
    spec fn within_total(self) -> bool {
        self.done <= self.total && (self.failed ==> self.done > 0)
    }

    /// How many commands the event has.
    pub closed spec fn spec_total(self) -> nat {
        self.total as nat
    }

    /// How many of them have run.
    pub closed spec fn spec_done(self) -> nat {
        self.done as nat
    }

    /// Whether the last one that ran failed.
    pub closed spec fn spec_failed(self) -> bool {
        self.failed
    }

    /// Nothing has run yet.
    pub fn new(total: usize) -> (r: Self)
        ensures
            r.spec_total() == total,
            r.spec_done() == 0,
            !r.spec_failed(),
    {
        CommandRun { total, done: 0, failed: false }
    }

    /// The index of the command to run next: the one after those that ran,
    /// unless one failed or all have run.
    pub fn next_command(&self) -> (i: Option<usize>)
        ensures
            i == (if !self.spec_failed() && self.spec_done() < self.spec_total() {
                Some(self.spec_done() as usize)
            } else {
                None::<usize>
            }),
    {
        if !self.failed && self.done < self.total {
            Some(self.done)
        } else {
            None
        }
    }

    /// Records whether the command that `next_command` gave succeeded.
    pub fn record(&mut self, ok: bool)
        requires
            !old(self).spec_failed(),
            old(self).spec_done() < old(self).spec_total(),
        ensures
            final(self).spec_done() == old(self).spec_done() + 1,
            final(self).spec_failed() == !ok,
            final(self).spec_total() == old(self).spec_total(),
    {
        proof {
            use_type_invariant(&*self);
        }
        self.done = self.done + 1;
        self.failed = !ok;
    }
}

} // verus!
