//! MIDI ports, connections and messages.

pub mod catalog;
pub mod io;
pub mod msg;
pub mod name;
pub mod port;

pub use io::MidiIO;
pub use msg::Msg;
pub use port::{PortNb, Ports};
