//! Session control for a two-port MIDI sniffer.
//!
//! The crate holds the decisions of the sniffer and none of its input or
//! output: which ports are on offer, what each of the two inputs is bound to,
//! how incoming messages are folded into the message list, and what the
//! controller does next. A driver and a user interface are expected around it;
//! they hand in plain values and carry out the commands they get back.

pub mod midi;
pub mod ui;
