//! The event sinks: a generic command runner, a D-Bus client for
//! i3status-rust, sketchybar triggers, and a sink that does nothing.

pub mod command;
pub mod dbus;
pub mod null;
pub mod sketchybar;

pub use command::CommandSink;
pub use null::NullSink;
pub use sketchybar::SketchybarSink;
