//! What the user interface asks of the controller.

use vstd::prelude::*;
use crate::midi::port::PortNb;

verus! {

/// A request to the controller. Requests are served one at a time, in the
/// order in which they were made.
#[derive(Debug)]
pub enum Request {
    /// Bind the input to the port of the given name.
    Connect((PortNb, String)),
    /// Release the input.
    Disconnect(PortNb),
    /// Look again for the ports on offer.
    RefreshPorts,
    /// Stop.
    Shutdown,
}

} // verus!
