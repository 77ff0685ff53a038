//! macOS sketchybar event sink: `sketchybar --trigger EVENT k=v ...`.

use vstd::prelude::*;

use crate::sink::EventArg;
use crate::text::{push_str, to_string};

verus! {

/// Triggers a sketchybar event; the daemon's binary runs the command.
pub struct SketchybarSink;

/// The `key=value` word for one argument.
pub open spec fn spec_trigger_word(key: Seq<char>, value: Seq<char>) -> Seq<char> {
    key + "="@ + value
}

/// The argv after `sketchybar`: `--trigger`, the event, then one
/// `key=value` per argument in order.
pub open spec fn spec_trigger_args(event: Seq<char>, args: Seq<EventArg>) -> Seq<Seq<char>> {
    seq!["--trigger"@, event] + args.map_values(|a: EventArg| spec_trigger_word(a.key@, a.value@))
}

pub fn sketchybar_trigger_args(event: &str, args: &[EventArg]) -> (argv: Vec<String>)
    ensures
        argv@.map_values(|s: String| s@) == spec_trigger_args(event@, args@),
{
    let mut out: Vec<String> = Vec::new();
    out.push(to_string("--trigger"));
    out.push(to_string(event));
    let n = args.len();
    let mut i: usize = 0;
    assert(out@.map_values(|s: String| s@) =~= spec_trigger_args(event@, args@.subrange(0, 0)));
    while i < n
        invariant
            n == args@.len(),
            i <= n,
            out@.map_values(|s: String| s@) == spec_trigger_args(event@, args@.subrange(0, i as int)),
        decreases n - i,
    {
        let mut word = args[i].key.clone();
        push_str(&mut word, "=");
        push_str(&mut word, args[i].value.as_str());
        assert(word@ == spec_trigger_word(args@[i as int].key@, args@[i as int].value@));
        let ghost before = out@;
        out.push(word);
        let ghost sub = args@.subrange(0, i as int);
        let ghost a = args@[i as int];
        assert(args@.subrange(0, i + 1) =~= sub.push(a));
        assert(out@.map_values(|s: String| s@) =~= before.map_values(|s: String| s@).push(word@));
        assert(sub.push(a).map_values(|x: EventArg| spec_trigger_word(x.key@, x.value@))
            =~= sub.map_values(|x: EventArg| spec_trigger_word(x.key@, x.value@)).push(
            spec_trigger_word(a.key@, a.value@),
        ));
        i = i + 1;
        assert(out@.map_values(|s: String| s@) =~= spec_trigger_args(event@, args@.subrange(0, i as int)));
    }
    assert(args@.subrange(0, n as int) =~= args@);
    out
}

} // verus!
