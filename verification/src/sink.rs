//! Event sink abstraction for state-change notifications.
//!
//! The HID/state pipeline is platform-neutral. Sinks are the integration
//! boundary where decoded keyboard state becomes a desktop status update,
//! a script invocation, or nothing.

use vstd::prelude::*;
use vstd::string::*;

use crate::text::{push_char, push_str, spec_ascii_upper, to_ascii_uppercase, to_string};

verus! {

/// A single key=value pair emitted with a state-change event.
#[derive(Debug, Clone, PartialEq, Eq)]
pub struct EventArg {
    pub key: String,
    pub value: String,
}

/// The environment variable that carries an argument: `QMK_` and the key in
/// upper case.
pub open spec fn spec_env_key(key: Seq<char>) -> Seq<char> {
    "QMK_"@ + key.map_values(|c: char| spec_ascii_upper(c))
}

impl EventArg {
    pub fn new(key: &str, value: &str) -> (a: Self)
        ensures
            a.key@ == key@,
            a.value@ == value@,
    {
        EventArg { key: to_string(key), value: to_string(value) }
    }

    pub fn env_key(&self) -> (k: String)
        ensures
            k@ == spec_env_key(self.key@),
    {
        let mut k = to_string("QMK_");
        let upper = to_ascii_uppercase(self.key.as_str());
        push_str(&mut k, upper.as_str());
        k
    }
}

/// Why a sink could not be set up or could not deliver an event.
#[derive(Debug, Clone, PartialEq, Eq)]
pub enum SinkError {
    /// A command sink was configured without a program to run.
    EmptyCommand,
    /// The sketchybar sink was chosen on a system other than macOS.
    SketchybarUnavailable,
    /// Delivering the event failed; the description comes from the sink.
    Emit(String),
}

impl SinkError {
    /// The text shown to a user for this error.
    pub open spec fn spec_message(self) -> Seq<char> {
        match self {
            SinkError::EmptyCommand => "command sink program must not be empty"@,
            SinkError::SketchybarUnavailable => "sketchybar sink is only available on macOS"@,
            SinkError::Emit(m) => m@,
        }
    }

    pub fn message(&self) -> (m: String)
        ensures
            m@ == self.spec_message(),
    {
        match self {
            SinkError::EmptyCommand => to_string("command sink program must not be empty"),
            SinkError::SketchybarUnavailable => to_string(
                "sketchybar sink is only available on macOS",
            ),
            SinkError::Emit(m) => m.clone(),
        }
    }
}

/// Receives deduped state changes after the state file is written.
pub trait EventSink {
    fn emit(&self, event: &str, args: &[EventArg], payload_json: &str) -> Result<(), SinkError>;
}

/// Named values that `{name}` placeholders are replaced with; when a name
/// occurs twice, the later entry counts.
pub open spec fn spec_lookup(values: Seq<(Seq<char>, Seq<char>)>, name: Seq<char>) -> Option<
    Seq<char>,
>
    decreases values.len(),
{
    if values.len() == 0 {
        None
    } else if values.last().0 == name {
        Some(values.last().1)
    } else {
        spec_lookup(values.drop_last(), name)
    }
}

/// The position of the first `}` in `s` at or after `from`.
pub open spec fn spec_find_close(s: Seq<char>, from: int) -> Option<int>
    decreases s.len() - from,
{
    if from < 0 || from >= s.len() {
        None
    } else if s[from] == '}' {
        Some(from)
    } else {
        spec_find_close(s, from + 1)
    }
}

/// Replaces, from left to right, each `{name}` whose name has a value with
/// that value. Inserted values are not scanned again; every other character
/// is kept.
pub open spec fn spec_substitute(s: Seq<char>, values: Seq<(Seq<char>, Seq<char>)>) -> Seq<char>
    decreases s.len(),
{
    if s.len() == 0 {
        Seq::empty()
    } else {
        let keep_first = seq![s[0]] + spec_substitute(s.drop_first(), values);
        if s[0] == '{' {
            match spec_find_close(s, 1) {
                Some(k) => match spec_lookup(values, s.subrange(1, k)) {
                    Some(v) => {
                        proof {
                            lemma_find_close_bounds(s, 1);
                        }
                        v + spec_substitute(s.skip(k + 1), values)
                    },
                    None => keep_first,
                },
                None => keep_first,
            }
        } else {
            keep_first
        }
    }
}

/// Without values, substitution changes nothing.
pub proof fn lemma_substitute_without_values(s: Seq<char>)
    ensures
        spec_substitute(s, Seq::empty()) == s,
    decreases s.len(),
{
    if s.len() > 0 {
        lemma_substitute_without_values(s.drop_first());
        assert(seq![s[0]] + s.drop_first() =~= s);
    }
}

/// The string views of a list of named values.
pub open spec fn values_view(values: Seq<(String, String)>) -> Seq<(Seq<char>, Seq<char>)> {
    values.map_values(|p: (String, String)| (p.0@, p.1@))
}

/// Appends the named value `(name, value)`.
pub fn push_pair(values: &mut Vec<(String, String)>, name: &str, value: &str)
    ensures
        values_view(final(values)@) == values_view(old(values)@).push((name@, value@)),
{
    values.push((to_string(name), to_string(value)));
    assert(values_view(values@) =~= values_view(old(values)@).push((name@, value@)));
}

fn lookup(values: &Vec<(String, String)>, name: &str) -> (r: Option<usize>)
    ensures
        match spec_lookup(values_view(values@), name@) {
            Some(v) => r matches Some(i) && i < values@.len() && values@[i as int].1@ == v,
            None => r is None,
        },
{
    let mut i = values.len();
    assert(values@.subrange(0, i as int) =~= values@);
    while i > 0
        invariant
            i <= values@.len(),
            spec_lookup(values_view(values@), name@) == spec_lookup(
                values_view(values@.subrange(0, i as int)),
                name@,
            ),
        decreases i,
    {
        let ghost sub = values_view(values@.subrange(0, i as int));
        assert(sub.last() == (values@[i - 1].0@, values@[i - 1].1@));
        assert(sub.drop_last() =~= values_view(values@.subrange(0, i - 1)));
        if crate::text::str_eq(values[i - 1].0.as_str(), name) {
            return Some(i - 1);
        }
        i = i - 1;
    }
    assert(values_view(values@.subrange(0, 0)) =~= Seq::<(Seq<char>, Seq<char>)>::empty());
    None
}

fn find_close(s: &str, from: usize) -> (r: Option<usize>)
    requires
        from <= s@.len(),
    ensures
        match spec_find_close(s@, from as int) {
            Some(k) => r == Some(k as usize),
            None => r is None,
        },
{
    let n = s.unicode_len();
    let mut i = from;
    while i < n
        invariant
            n == s@.len(),
            from <= i <= n,
            spec_find_close(s@, from as int) == spec_find_close(s@, i as int),
        decreases n - i,
    {
        if s.get_char(i) == '}' {
            return Some(i);
        }
        i = i + 1;
    }
    None
}

pub proof fn lemma_find_close_bounds(s: Seq<char>, from: int)
    ensures
        spec_find_close(s, from) matches Some(k) ==> from <= k < s.len() && s[k] == '}',
    decreases s.len() - from,
{
    if 0 <= from < s.len() && s[from] != '}' {
        lemma_find_close_bounds(s, from + 1);
    }
}

/// `spec_substitute` of a suffix starting at `i`, unfolded once.
proof fn lemma_substitute_suffix(s: Seq<char>, i: int, values: Seq<(Seq<char>, Seq<char>)>)
    requires
        0 <= i < s.len(),
    ensures
        spec_substitute(s.skip(i), values) == ({
            let t = s.skip(i);
            let keep_first = seq![s[i]] + spec_substitute(s.skip(i + 1), values);
            if s[i] == '{' {
                match spec_find_close(t, 1) {
                    Some(k) => match spec_lookup(values, t.subrange(1, k)) {
                        Some(v) => v + spec_substitute(s.skip(i + k + 1), values),
                        None => keep_first,
                    },
                    None => keep_first,
                }
            } else {
                keep_first
            }
        }),
{
    let t = s.skip(i);
    assert(t.drop_first() =~= s.skip(i + 1));
    lemma_find_close_bounds(t, 1);
    if let Some(k) = spec_find_close(t, 1) {
        assert(t.skip(k + 1) =~= s.skip(i + k + 1));
    }
}

/// The first `}` after position `i` in `s` sits `i` further on than in
/// the suffix from `i`.
proof fn lemma_find_close_shift(s: Seq<char>, i: int, from: int)
    requires
        0 <= i <= s.len(),
        1 <= from,
    ensures
        match spec_find_close(s.skip(i), from) {
            Some(k) => spec_find_close(s, i + from) == Some(i + k),
            None => spec_find_close(s, i + from) is None,
        },
    decreases s.len() - i - from,
{
    if i + from < s.len() {
        assert(s.skip(i)[from] == s[i + from]);
        if s[i + from] != '}' {
            lemma_find_close_shift(s, i, from + 1);
        }
    }
}

/// Replaces the `{name}` placeholders of `s` whose names have values.
pub fn substitute(s: &str, values: &Vec<(String, String)>) -> (r: String)
    ensures
        r@ == spec_substitute(s@, values_view(values@)),
{
    let ghost vals = values_view(values@);
    let n = s.unicode_len();
    let mut out = String::new();
    let mut i: usize = 0;
    assert(s@.skip(0) =~= s@);
    while i < n
        invariant
            n == s@.len(),
            i <= n,
            vals == values_view(values@),
            out@ + spec_substitute(s@.skip(i as int), vals) == spec_substitute(s@, vals),
        decreases n - i,
    {
        let c = s.get_char(i);
        proof {
            lemma_substitute_suffix(s@, i as int, vals);
            lemma_find_close_shift(s@, i as int, 1);
            lemma_find_close_bounds(s@, i + 1);
        }
        let ghost keep = seq![c] + spec_substitute(s@.skip(i + 1), vals);
        let mut replaced = false;
        if c == '{' {
            if let Some(k) = find_close(s, i + 1) {
                let name = s.substring_char(i + 1, k);
                assert(name@ =~= s@.skip(i as int).subrange(1, k - i));
                if let Some(j) = lookup(values, name) {
                    push_str(&mut out, values[j].1.as_str());
                    assert(out@ + spec_substitute(s@.skip(k + 1), vals) =~= spec_substitute(s@, vals));
                    i = k + 1;
                    replaced = true;
                }
            }
        }
        if !replaced {
            let ghost before = out@;
            push_char(&mut out, c);
            assert(out@ + spec_substitute(s@.skip(i + 1), vals) =~= before + keep);
            i = i + 1;
        }
    }
    assert(s@.skip(n as int) =~= Seq::<char>::empty());
    assert(out@ + Seq::<char>::empty() =~= out@);
    out
}

} // verus!
