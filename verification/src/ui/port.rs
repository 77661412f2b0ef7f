//! The ports as the user sees them: the names on offer and, for each input,
//! the name it is bound to.

use vstd::prelude::*;
use vstd::string::StringExecFns;
use crate::midi::catalog::{lists, names_in_order};
use crate::midi::name::{rank, Rank};
use crate::midi::port::{PerPort, PortNb, Ports, PortsView};

verus! {

/// What is shown for an input that is bound to no port.
pub open spec fn disconnected() -> Seq<char> {
    "Disconnected"@
}

/// The name shown for an input: the port it is bound to, if any.
pub open spec fn shown_cur(cur: Option<Seq<char>>) -> Seq<char> {
    match cur {
        Some(name) => name,
        None => disconnected(),
    }
}

/// A choice that the user can make for an input.
#[derive(Clone, Debug, PartialEq)]
pub struct UniquePort {
    pub nb: PortNb,
    pub name: String,
}

impl UniquePort {
    /// The choice of no port for the input.
    pub fn disconnected(port_nb: PortNb) -> (port: Self)
        ensures
            port.nb == port_nb,
            port.name@ == disconnected(),
    {
        UniquePort { nb: port_nb, name: String::from_str("Disconnected") }
    }

    /// Tells whether two choices are the same: for the same input and of the
    /// same name.
    pub fn same(&self, other: &UniquePort) -> (yes: bool)
        ensures
            yes == (self.nb == other.nb && self.name@ == other.name@),
    {
        self.nb == other.nb && self.name == other.name
    }
}

/// The ports as one input sees them.
#[derive(Debug)]
pub struct DirectionalPortView<'a> {
    pub list: &'a Vec<String>,
    pub port_nb: PortNb,
    pub cur: String,
}

impl<'a> DirectionalPortView<'a> {
    /// The choices on offer to the input, in the order of the list.
    pub fn unique_ports(&self) -> (ports: Vec<UniquePort>)
        ensures
            ports@.len() == self.list@.len(),
            forall|i: int|
                0 <= i < ports@.len() ==> (#[trigger] ports@[i]).nb == self.port_nb && ports@[i].name@
                    == self.list@[i]@,
    {
        let mut ports: Vec<UniquePort> = Vec::new();
        let mut i: usize = 0;
        while i < self.list.len()
            invariant
                i <= self.list@.len(),
                ports@.len() == i,
                forall|k: int|
                    0 <= k < i ==> (#[trigger] ports@[k]).nb == self.port_nb && ports@[k].name@
                        == self.list@[k]@,
            decreases self.list.len() - i,
        {
            ports.push(UniquePort { nb: self.port_nb, name: self.list[i].clone() });
            i += 1;
        }
        ports
    }

    /// The choice that stands for the input.
    pub fn cur(&self) -> (port: UniquePort)
        ensures
            port.nb == self.port_nb,
            port.name@ == self.cur@,
    {
        UniquePort { nb: self.port_nb, name: self.cur.clone() }
    }
}

/// The names on offer and the name shown for each input.
#[derive(Debug)]
pub struct DirectionalPorts {
    pub list: Vec<String>,
    pub cur: PerPort<String>,
}

impl DirectionalPorts {
    /// The names on offer.
    pub open spec fn names(self) -> Seq<Seq<char>> {
        self.list@.map_values(|name: String| name@)
    }

    /// The struct shows the given ports: the names on offer, each once and
    /// in ascending order, and for each input the port it is bound to.
    pub open spec fn shows<P, IO, C>(self, ports: PortsView<P, IO, C>) -> bool {
        &&& self.names() == names_in_order(ports.catalog)
        &&& lists(self.names(), ports.catalog)
        &&& self.cur.one@ == shown_cur(ports.cur.one)
        &&& self.cur.two@ == shown_cur(ports.cur.two)
    }

    /// The ports as the given input sees them.
    pub fn view(&self, port_nb: PortNb) -> (view: DirectionalPortView<'_>)
        ensures
            view.list@ == self.list@,
            view.port_nb == port_nb,
            view.cur@ == self.cur.at(port_nb)@,
    {
        DirectionalPortView { list: &self.list, port_nb, cur: self.cur.get(port_nb).clone() }
    }

    /// Shows the given ports.
    pub fn update_from<P, IO, C>(&mut self, ports: &Ports<P, IO, C>)
        requires
            ports.wf(),
        ensures
            final(self).shows(ports@),
    {
        self.list = ports.list();
        self.update_cur(PortNb::One, ports);
        self.update_cur(PortNb::Two, ports);
    }

    /// Shows what the given input is bound to.
    pub fn update_cur<P, IO, C>(&mut self, port_nb: PortNb, ports: &Ports<P, IO, C>)
        ensures
            final(self).list == old(self).list,
            final(self).cur.at(port_nb)@ == shown_cur(ports@.cur.at(port_nb)),
            final(self).cur.at(port_nb.other()) == old(self).cur.at(port_nb.other()),
    {
        let shown = match ports.cur(port_nb) {
            Some(name) => name.clone(),
            None => String::from_str("Disconnected"),
        };
        let _ = self.cur.replace(port_nb, shown);
    }
}

impl Default for DirectionalPorts {
    /// Nothing on offer, no input bound.
    fn default() -> (ports: Self)
        ensures
            ports.list@.len() == 0,
            ports.cur.one@ == disconnected(),
            ports.cur.two@ == disconnected(),
    {
        Self {
            list: Vec::new(),
            cur: PerPort {
                one: String::from_str("Disconnected"),
                two: String::from_str("Disconnected"),
            },
        }
    }
}

/// What the user did with the ports of an input.
#[derive(Debug)]
pub enum Response {
    /// Chose the port of the given name.
    Connect((PortNb, String)),
    /// Chose no port.
    Disconnect(PortNb),
    /// Opened the list of ports and chose nothing.
    CheckingList,
}

/// The user's last choice for an input, as it was stored, asks for a
/// connection.
pub open spec fn asks_to_connect(stored: Option<String>) -> bool {
    stored is Some && stored->0@ != disconnected()
}

/// The response is the choice of the port of the given name for the input.
pub open spec fn is_connect(response: Response, port_nb: PortNb, name: Seq<char>) -> bool {
    response matches Response::Connect((nb, port_name)) && nb == port_nb && port_name@ == name
}

/// The panel that shows the ports.
#[derive(Debug)]
pub struct PortsPanel {
    pub ports: DirectionalPorts,
}

impl Default for PortsPanel {
    /// A panel with nothing on offer and no input bound.
    fn default() -> (panel: Self)
        ensures
            panel.ports.list@.len() == 0,
            panel.ports.cur.one@ == disconnected(),
            panel.ports.cur.two@ == disconnected(),
    {
        Self { ports: DirectionalPorts::default() }
    }
}

impl PortsPanel {
    /// The responses that bring back the user's last choices, given what was
    /// stored for each input: a connection for each input that was bound to
    /// a port, the first input first.
    pub fn setup(stored: PerPort<Option<String>>) -> (responses: Vec<Response>)
        ensures
            responses@.len() == (if asks_to_connect(stored.one) {
                1int
            } else {
                0int
            }) + (if asks_to_connect(stored.two) {
                1int
            } else {
                0int
            }),
            asks_to_connect(stored.one) ==> is_connect(responses@[0], PortNb::One, stored.one->0@),
            asks_to_connect(stored.two) ==> is_connect(
                responses@[responses@.len() - 1],
                PortNb::Two,
                stored.two->0@,
            ),
    {
        let mut responses: Vec<Response> = Vec::new();
        let PerPort { one, two } = stored;
        if let Some(name) = one {
            if rank(name.as_str(), "Disconnected") != Rank::Same {
                responses.push(Response::Connect((PortNb::One, name)));
            }
        }
        if let Some(name) = two {
            if rank(name.as_str(), "Disconnected") != Rank::Same {
                responses.push(Response::Connect((PortNb::Two, name)));
            }
        }
        responses
    }

    /// What the user did, given what came of showing the list of ports:
    /// nothing if the list stayed shut, a look at the list if it was opened
    /// and nothing chosen, else the choice.
    pub fn response(popup: Option<Option<Response>>) -> (response: Option<Response>)
        ensures
            response == (match popup {
                None => None,
                Some(None) => Some(Response::CheckingList),
                Some(Some(choice)) => Some(choice),
            }),
    {
        match popup {
            None => None,
            Some(None) => Some(Response::CheckingList),
            Some(Some(choice)) => Some(choice),
        }
    }

    /// What to store for each input: the name shown for it.
    pub fn save(&self) -> (stored: PerPort<String>)
        ensures
            stored.one@ == self.ports.cur.one@,
            stored.two@ == self.ports.cur.two@,
    {
        PerPort { one: self.ports.cur.one.clone(), two: self.ports.cur.two.clone() }
    }

    /// Shows the given ports.
    pub fn update<P, IO, C>(&mut self, midi_ports: &Ports<P, IO, C>)
        requires
            midi_ports.wf(),
        ensures
            final(self).ports.shows(midi_ports@),
    {
        self.ports.update_from(midi_ports);
    }
}

} // verus!
