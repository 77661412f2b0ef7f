//! The connection of one input.
//!
//! An input owns either the driver session it would connect with or the
//! stream it is connected by, never both. Opening and closing a stream is the
//! driver's work and takes the handle away for a while: the input is then
//! `Transitioning`, and the handle that the driver gives back settles it.

use vstd::prelude::*;

verus! {

/// A stream could not be opened.
#[derive(Debug)]
pub enum Error {
    /// Connecting to the port of this name failed.
    Connection(String),
}

/// What an input holds: `IO` is the driver session of an input that is not
/// connected, `C` the stream of one that is.
#[derive(Debug, PartialEq)]
pub enum MidiIO<IO, C> {
    Connected(C),
    Disconnected(IO),
    /// The handle is with the driver.
    Transitioning,
}

impl<IO, C> MidiIO<IO, C> {
    /// The input holds a handle.
    pub open spec fn at_rest(self) -> bool {
        !(self is Transitioning)
    }

    /// What `take` leaves behind.
    pub open spec fn taken(self) -> Self {
        MidiIO::Transitioning
    }

    /// The input after an attempt to open a stream.
    pub open spec fn settled(outcome: Result<C, IO>) -> Self {
        match outcome {
            Ok(stream) => MidiIO::Connected(stream),
            Err(input) => MidiIO::Disconnected(input),
        }
    }

    /// An input that is not connected.
    pub fn new(input: IO) -> (link: Self)
        ensures
            link == MidiIO::<IO, C>::Disconnected(input),
    {
        MidiIO::Disconnected(input)
    }

    pub fn is_connected(&self) -> (yes: bool)
        ensures
            yes == (*self is Connected),
    {
        match self {
            MidiIO::Connected(_) => true,
            _ => false,
        }
    }

    /// Hands out what the input holds, for the driver to act on.
    pub fn take(&mut self) -> (held: Self)
        ensures
            held == *old(self),
            *final(self) == old(self).taken(),
    {
        let mut held = MidiIO::Transitioning;
        core::mem::swap(self, &mut held);
        held
    }

    /// Gives up the stream of a connected input, for the driver to close.
    /// An input that is not connected stays as it is.
    pub fn disconnect(&mut self) -> (stream: Option<C>)
        ensures
            *old(self) is Connected ==> stream == Some((*old(self))->Connected_0) && *final(self)
                == old(self).taken(),
            !(*old(self) is Connected) ==> stream is None && *final(self) == *old(self),
    {
        match self.take() {
            MidiIO::Connected(stream) => Some(stream),
            MidiIO::Disconnected(input) => {
                *self = MidiIO::Disconnected(input);
                None
            },
            MidiIO::Transitioning => None,
        }
    }

    /// Takes back the driver session that closing a stream released.
    pub fn closed(&mut self, input: IO)
        requires
            *old(self) is Transitioning,
        ensures
            *final(self) == MidiIO::<IO, C>::Disconnected(input),
    {
        *self = MidiIO::Disconnected(input);
    }

    /// Settles the input after an attempt to open a stream to the port of
    /// the given name: with the stream where there is one, else with the
    /// driver session that the failed attempt gave back.
    pub fn connect(&mut self, port_name: String, outcome: Result<C, IO>) -> (res: Result<(), Error>)
        requires
            *old(self) is Transitioning,
        ensures
            *final(self) == Self::settled(outcome),
            outcome is Ok ==> res is Ok,
            outcome is Err ==> res == Err::<(), Error>(Error::Connection(port_name)),
    {
        match outcome {
            Ok(stream) => {
                *self = MidiIO::Connected(stream);
                Ok(())
            },
            Err(input) => {
                *self = MidiIO::Disconnected(input);
                Err(Error::Connection(port_name))
            },
        }
    }
}

} // verus!
