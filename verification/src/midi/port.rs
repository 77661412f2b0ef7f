//! The two inputs of the sniffer, the ports on offer, and what each input is
//! bound to.

use vstd::prelude::*;
use vstd::string::StringExecFns;
use super::catalog::{lists, names_in_order, Catalog, Row};
use super::io::MidiIO;
use super::name::{name_starts_with, name_without_prefix, starts_with, without_prefix};

verus! {

/// One of the two inputs that a device port can be bound to.
#[derive(Clone, Copy, Debug, PartialEq, Eq, Structural)]
pub enum PortNb {
    One,
    Two,
}

impl PortNb {
    /// The position of this input in a pair: 0 for the first, 1 for the second.
    pub open spec fn index(self) -> int {
        match self {
            PortNb::One => 0,
            PortNb::Two => 1,
        }
    }

    /// The other input.
    pub open spec fn other(self) -> PortNb {
        match self {
            PortNb::One => PortNb::Two,
            PortNb::Two => PortNb::One,
        }
    }

    pub fn idx(self) -> (i: usize)
        ensures
            i == self.index(),
    {
        match self {
            PortNb::One => 0,
            PortNb::Two => 1,
        }
    }

    /// The label shown for this input.
    pub fn as_str(&self) -> (label: &'static str)
        ensures
            label@ == (match *self {
                PortNb::One => "Port 1"@,
                PortNb::Two => "Port 2"@,
            }),
    {
        match self {
            PortNb::One => "Port 1",
            PortNb::Two => "Port 2",
        }
    }

    /// The digit shown for this input.
    pub fn as_char(&self) -> (digit: char)
        ensures
            digit == (match *self {
                PortNb::One => '1',
                PortNb::Two => '2',
            }),
    {
        match self {
            PortNb::One => '1',
            PortNb::Two => '2',
        }
    }
}

/// One value for each of the two inputs.
#[derive(Debug)]
pub struct PerPort<T> {
    pub one: T,
    pub two: T,
}

impl<T> PerPort<T> {
    /// The value for the given input.
    pub open spec fn at(self, port_nb: PortNb) -> T {
        match port_nb {
            PortNb::One => self.one,
            PortNb::Two => self.two,
        }
    }

    /// The pair with another value for the given input.
    pub open spec fn with(self, port_nb: PortNb, value: T) -> Self {
        match port_nb {
            PortNb::One => PerPort { one: value, two: self.two },
            PortNb::Two => PerPort { one: self.one, two: value },
        }
    }

    /// The value for the given input.
    pub fn get(&self, port_nb: PortNb) -> (value: &T)
        ensures
            *value == self.at(port_nb),
    {
        match port_nb {
            PortNb::One => &self.one,
            PortNb::Two => &self.two,
        }
    }

    /// Puts a value in for the given input and hands out the one that was there.
    pub fn replace(&mut self, port_nb: PortNb, value: T) -> (previous: T)
        ensures
            previous == old(self).at(port_nb),
            *final(self) == old(self).with(port_nb, value),
    {
        let mut value = value;
        match port_nb {
            PortNb::One => core::mem::swap(&mut self.one, &mut value),
            PortNb::Two => core::mem::swap(&mut self.two, &mut value),
        }
        value
    }
}

/// What can go wrong with the ports.
#[derive(Debug)]
pub enum Error {
    /// The driver could not be set up.
    Init,
    /// The stream to a port could not be opened.
    PortConnection,
    /// The driver could not tell the name of a port.
    PortInfo,
    /// No port of this name is on offer.
    PortNotFound(String),
}

/// What a bridge puts in front of the names of the ports it passes on.
pub open spec fn bridge_prefix() -> Seq<char> {
    "Midi-Bridge:"@
}

/// The name under which a port of the given name is on offer.
pub open spec fn shown_name(name: Seq<char>) -> Seq<char> {
    name_without_prefix(name, bridge_prefix())
}

/// The ports on offer, given the driver's ports in the order it listed them:
/// every port but the sniffer's own, which are those whose name begins with
/// the client name. Of two ports under one name the later one is on offer.
pub open spec fn offered<P>(client_name: Seq<char>, found: Seq<Row<P>>) -> Map<Seq<char>, P>
    decreases found.len(),
{
    if found.len() == 0 {
        Map::empty()
    } else {
        let before = offered(client_name, found.drop_last());
        let (name, port) = found.last();
        if name_starts_with(name, client_name) {
            before
        } else {
            before.insert(shown_name(name), port)
        }
    }
}

/// The choice for an input after a refresh: it stands while a port of that
/// name is on offer, and while the input has a stream, on offer or not.
pub open spec fn kept<P, IO, C>(
    cur: Option<Seq<char>>,
    catalog: Map<Seq<char>, P>,
    link: MidiIO<IO, C>,
) -> Option<Seq<char>> {
    match cur {
        Some(name) => if catalog.contains_key(name) || link is Connected {
            cur
        } else {
            None
        },
        None => None,
    }
}

/// The driver's ports as rows.
pub open spec fn rows_of<P>(found: Seq<(String, P)>) -> Seq<Row<P>> {
    found.map_values(|entry: (String, P)| (entry.0@, entry.1))
}

/// The text of a name, if there is one.
pub open spec fn text_of(name: Option<String>) -> Option<Seq<char>> {
    match name {
        Some(name) => Some(name@),
        None => None,
    }
}

/// The ports and the two inputs as contracts see them.
#[verifier::ext_equal]
pub struct PortsView<P, IO, C> {
    /// The ports on offer, by name.
    pub catalog: Map<Seq<char>, P>,
    /// The port that each input was last bound to, by name.
    pub cur: PerPort<Option<Seq<char>>>,
    /// What each input holds.
    pub links: PerPort<MidiIO<IO, C>>,
    /// The name under which the sniffer shows itself to the driver.
    pub client_name: Seq<char>,
}

impl<P, IO, C> PortsView<P, IO, C> {
    /// Both inputs hold a handle.
    pub open spec fn at_rest(self) -> bool {
        self.links.one.at_rest() && self.links.two.at_rest()
    }

    /// After the driver listed its ports: the catalog is made anew; the
    /// choice of an input stands while its port is on offer or the input has
    /// a stream; and no input gains or loses a handle.
    pub open spec fn refreshed(self, found: Seq<Row<P>>) -> Self {
        let catalog = offered(self.client_name, found);
        PortsView {
            catalog,
            cur: PerPort {
                one: kept(self.cur.one, catalog, self.links.one),
                two: kept(self.cur.two, catalog, self.links.two),
            },
            links: self.links,
            client_name: self.client_name,
        }
    }

    /// After an input gave up its stream, if it had one, and its choice.
    pub open spec fn disconnected(self, port_nb: PortNb) -> Self {
        PortsView {
            catalog: self.catalog,
            cur: self.cur.with(port_nb, None),
            links: if self.links.at(port_nb) is Connected {
                self.links.with(port_nb, MidiIO::Transitioning)
            } else {
                self.links
            },
            client_name: self.client_name,
        }
    }

    /// After an input handed out what it held.
    pub open spec fn taken(self, port_nb: PortNb) -> Self {
        PortsView {
            catalog: self.catalog,
            cur: self.cur,
            links: self.links.with(port_nb, MidiIO::Transitioning),
            client_name: self.client_name,
        }
    }

    /// After an input got back the driver session of a closed stream.
    pub open spec fn closed(self, port_nb: PortNb, input: IO) -> Self {
        PortsView {
            catalog: self.catalog,
            cur: self.cur,
            links: self.links.with(port_nb, MidiIO::Disconnected(input)),
            client_name: self.client_name,
        }
    }

    /// After an attempt to open a stream for an input to the port of the
    /// given name.
    pub open spec fn opened(self, port_nb: PortNb, port_name: Seq<char>, outcome: Result<C, IO>) -> Self {
        PortsView {
            catalog: self.catalog,
            cur: self.cur.with(
                port_nb,
                if outcome is Ok {
                    Some(port_name)
                } else {
                    None
                },
            ),
            links: self.links.with(port_nb, MidiIO::settled(outcome)),
            client_name: self.client_name,
        }
    }
}

/// The ports on offer and the two inputs.
pub struct Ports<P, IO, C> {
    map: Catalog<P>,
    cur: PerPort<Option<String>>,
    midi_in: PerPort<MidiIO<IO, C>>,
    client_name: String,
}

impl<P, IO, C> View for Ports<P, IO, C> {
    type V = PortsView<P, IO, C>;

    closed spec fn view(&self) -> PortsView<P, IO, C> {
        PortsView {
            catalog: self.map.as_map(),
            cur: PerPort { one: text_of(self.cur.one), two: text_of(self.cur.two) },
            links: self.midi_in,
            client_name: self.client_name@,
        }
    }
}

/// The client name for the short session that lists the ports.
pub open spec fn refresh_label_of(client_name: Seq<char>) -> Seq<char> {
    client_name + " referesh ports"@
}

/// The name under which an input shows to the port it is connected to.
pub open spec fn port_label_of(client_name: Seq<char>, port_nb: PortNb) -> Seq<char> {
    client_name + " "@ + (match port_nb {
        PortNb::One => "Port 1"@,
        PortNb::Two => "Port 2"@,
    })
}

impl<P, IO, C> Ports<P, IO, C> {
    /// The catalog is in order.
    pub closed spec fn wf(&self) -> bool {
        self.map.wf()
    }

    /// The ports and inputs at the start: nothing on offer, nothing chosen,
    /// no input connected. The driver sessions of the two inputs come from
    /// the driver; where it gave none, there are no ports.
    pub fn try_new(client_name: String, first: Option<IO>, second: Option<IO>) -> (res: Result<
        Self,
        Error,
    >)
        ensures
            res is Ok <==> first is Some && second is Some,
            res is Err ==> res->Err_0 == Error::Init,
            res is Ok ==> res->Ok_0.wf() && res->Ok_0@ == (PortsView::<P, IO, C> {
                catalog: Map::empty(),
                cur: PerPort { one: None, two: None },
                links: PerPort {
                    one: MidiIO::Disconnected(first->0),
                    two: MidiIO::Disconnected(second->0),
                },
                client_name: client_name@,
            }),
    {
        match (first, second) {
            (Some(one), Some(two)) => {
                let ports = Ports {
                    map: Catalog::new(),
                    cur: PerPort { one: None, two: None },
                    midi_in: PerPort { one: MidiIO::new(one), two: MidiIO::new(two) },
                    client_name,
                };
                Ok(ports)
            },
            _ => Err(Error::Init),
        }
    }

    /// The names on offer, in the order of names.
    pub fn list(&self) -> (names: Vec<String>)
        requires
            self.wf(),
        ensures
            names@.map_values(|name: String| name@) == names_in_order(self@.catalog),
            lists(names@.map_values(|name: String| name@), self@.catalog),
    {
        self.map.list()
    }

    /// The names on offer in order ascend strictly, and they are the names of
    /// the catalog.
    pub proof fn lemma_names(&self)
        requires
            self.wf(),
        ensures
            lists(names_in_order(self@.catalog), self@.catalog),
    {
        self.map.lemma_names();
    }

    /// The port that the input was last bound to.
    pub fn cur(&self, port_nb: PortNb) -> (name: Option<&String>)
        ensures
            name is Some <==> self@.cur.at(port_nb) is Some,
            name is Some ==> name->0@ == self@.cur.at(port_nb)->0,
    {
        match port_nb {
            PortNb::One => self.cur.one.as_ref(),
            PortNb::Two => self.cur.two.as_ref(),
        }
    }

    /// The handle of the port on offer under the given name.
    pub fn get(&self, name: &str) -> (port: Option<&P>)
        requires
            self.wf(),
        ensures
            port is Some <==> self@.catalog.contains_key(name@),
            port is Some ==> *port->0 == self@.catalog[name@],
    {
        self.map.get(name)
    }

    /// Tells whether the input has a stream.
    pub fn is_connected(&self, port_nb: PortNb) -> (yes: bool)
        ensures
            yes == (self@.links.at(port_nb) is Connected),
    {
        self.midi_in.get(port_nb).is_connected()
    }

    /// The name under which the sniffer shows itself to the driver.
    pub fn client_name(&self) -> (name: &String)
        ensures
            name@ == self@.client_name,
    {
        &self.client_name
    }

    /// The client name for the short session that lists the ports.
    pub fn refresh_label(&self) -> (label: String)
        ensures
            label@ == refresh_label_of(self@.client_name),
    {
        self.client_name.clone().concat(" referesh ports")
    }

    /// The name under which the input shows to the port it is connected to.
    pub fn port_label(&self, port_nb: PortNb) -> (label: String)
        ensures
            label@ == port_label_of(self@.client_name, port_nb),
    {
        self.client_name.clone().concat(" ").concat(port_nb.as_str())
    }

    /// Takes in what the driver listed, or the reason why it listed nothing.
    /// A listing makes the catalog anew; a failure changes nothing. Neither
    /// touches what the inputs hold.
    pub fn refresh(&mut self, found: Result<Vec<(String, P)>, Error>) -> (res: Result<(), Error>)
        requires
            old(self).wf(),
        ensures
            final(self).wf(),
            final(self)@.links == old(self)@.links,
            match found {
                Ok(ports) => res is Ok && final(self)@ == old(self)@.refreshed(rows_of(ports@)),
                Err(err) => res == Err::<(), Error>(err) && final(self)@ == old(self)@,
            },
    {
        match found {
            Ok(ports) => {
                let mut map: Catalog<P> = Catalog::new();
                let ghost all = rows_of(ports@);
                let ghost client = self.client_name@;
                for entry in it: ports
                    invariant
                        map.wf(),
                        client == self.client_name@,
                        all == rows_of(it.seq()),
                        map.as_map() == offered(client, all.take(it.index() as int)),
                {
                    proof {
                        let k = it.index() as int;
                        assert(all.take(k + 1).drop_last() =~= all.take(k));
                        assert(all.take(k + 1).last() == (entry.0@, entry.1));
                    }
                    let (name, port) = entry;
                    if !starts_with(name.as_str(), self.client_name.as_str()) {
                        let shown = without_prefix(name, "Midi-Bridge:");
                        map.insert(shown, port);
                    }
                }
                assert(all.take(all.len() as int) =~= all);
                let one = keep(
                    self.cur.replace(PortNb::One, None),
                    &map,
                    self.midi_in.one.is_connected(),
                );
                let two = keep(
                    self.cur.replace(PortNb::Two, None),
                    &map,
                    self.midi_in.two.is_connected(),
                );
                self.cur = PerPort { one, two };
                self.map = map;
                assert(self@ =~= old(self)@.refreshed(all));
                Ok(())
            },
            Err(err) => Err(err),
        }
    }

    /// Clears the choice of an input and gives up its stream, if it has one,
    /// for the driver to close.
    pub fn disconnect(&mut self, port_nb: PortNb) -> (stream: Option<C>)
        requires
            old(self).wf(),
        ensures
            final(self).wf(),
            final(self)@ == old(self)@.disconnected(port_nb),
            stream == (match old(self)@.links.at(port_nb) {
                MidiIO::Connected(stream) => Some(stream),
                _ => None,
            }),
    {
        let _ = self.cur.replace(port_nb, None);
        let stream = match port_nb {
            PortNb::One => self.midi_in.one.disconnect(),
            PortNb::Two => self.midi_in.two.disconnect(),
        };
        assert(self@ =~= old(self)@.disconnected(port_nb));
        stream
    }

    /// Gives an input the driver session that closing its stream released.
    pub fn closed(&mut self, port_nb: PortNb, input: IO)
        requires
            old(self).wf(),
            old(self)@.links.at(port_nb) is Transitioning,
        ensures
            final(self).wf(),
            final(self)@ == old(self)@.closed(port_nb, input),
    {
        match port_nb {
            PortNb::One => self.midi_in.one.closed(input),
            PortNb::Two => self.midi_in.two.closed(input),
        }
        assert(self@ =~= old(self)@.closed(port_nb, input));
    }

    /// Begins to connect an input to the port of the given name. Where no
    /// such port is on offer nothing changes. Else the input hands out what
    /// it holds: a stream to close first, or the driver session to open the
    /// new stream with.
    pub fn connect(&mut self, port_nb: PortNb, port_name: &str) -> (res: Result<MidiIO<IO, C>, Error>)
        requires
            old(self).wf(),
        ensures
            final(self).wf(),
            res is Ok <==> old(self)@.catalog.contains_key(port_name@),
            res is Ok ==> res->Ok_0 == old(self)@.links.at(port_nb) && final(self)@ == old(
                self,
            )@.taken(port_nb),
            res is Err ==> final(self)@ == old(self)@ && (res->Err_0 matches Error::PortNotFound(name)
                && name@ == port_name@),
    {
        if !self.map.contains(port_name) {
            return Err(Error::PortNotFound(port_name.to_owned()));
        }
        let held = match port_nb {
            PortNb::One => self.midi_in.one.take(),
            PortNb::Two => self.midi_in.two.take(),
        };
        assert(self@ =~= old(self)@.taken(port_nb));
        Ok(held)
    }

    /// Settles an input after an attempt to open a stream to the port of the
    /// given name. With a stream the input is connected and bound to that
    /// name; without one it is not connected and bound to nothing.
    pub fn opened(&mut self, port_nb: PortNb, port_name: String, outcome: Result<C, IO>) -> (res:
        Result<(), Error>)
        requires
            old(self).wf(),
            old(self)@.links.at(port_nb) is Transitioning,
        ensures
            final(self).wf(),
            final(self)@ == old(self)@.opened(port_nb, port_name@, outcome),
            outcome is Ok ==> res is Ok,
            outcome is Err ==> res == Err::<(), Error>(Error::PortConnection),
    {
        let ghost name = port_name@;
        let bound = port_name.clone();
        let settled = match port_nb {
            PortNb::One => self.midi_in.one.connect(port_name, outcome),
            PortNb::Two => self.midi_in.two.connect(port_name, outcome),
        };
        match settled {
            Ok(()) => {
                let _ = self.cur.replace(port_nb, Some(bound));
                assert(self@ =~= old(self)@.opened(port_nb, name, outcome));
                Ok(())
            },
            Err(_) => {
                let _ = self.cur.replace(port_nb, None);
                assert(self@ =~= old(self)@.opened(port_nb, name, outcome));
                Err(Error::PortConnection)
            },
        }
    }
}

/// The choice for an input after a refresh.
fn keep<P>(cur: Option<String>, map: &Catalog<P>, connected: bool) -> (res: Option<String>)
    requires
        map.wf(),
    ensures
        text_of(res) == (match text_of(cur) {
            Some(name) => if map.as_map().contains_key(name) || connected {
                text_of(cur)
            } else {
                None
            },
            None => None,
        }),
{
    match cur {
        Some(name) => {
            if connected || map.contains(name.as_str()) {
                Some(name)
            } else {
                None
            }
        },
        None => None,
    }
}

/// Disconnecting an input a second time changes nothing and gives up no
/// stream, whatever driver session the first time left the input with.
pub proof fn lemma_disconnect_is_idempotent<P, IO, C>(
    ports: PortsView<P, IO, C>,
    port_nb: PortNb,
    input: IO,
)
    requires
        ports.links.at(port_nb).at_rest(),
    ensures
        ({
            let first = ports.disconnected(port_nb);
            let once = if ports.links.at(port_nb) is Connected {
                first.closed(port_nb, input)
            } else {
                first
            };
            &&& !(once.links.at(port_nb) is Connected)
            &&& once.cur.at(port_nb) is None
            &&& once.disconnected(port_nb) == once
        }),
{
    let first = ports.disconnected(port_nb);
    let once = if ports.links.at(port_nb) is Connected {
        first.closed(port_nb, input)
    } else {
        first
    };
    assert(once.disconnected(port_nb) =~= once);
}

/// Connecting an input that is connected to one port to another port hands
/// the stream to the first port out for closing, and leaves the input with
/// the stream to the second port and bound to its name. The other input
/// keeps what it holds and what it is bound to.
pub proof fn lemma_reconnect_replaces_stream<P, IO, C>(
    ports: PortsView<P, IO, C>,
    port_nb: PortNb,
    first_name: Seq<char>,
    first_stream: C,
    second_name: Seq<char>,
    second_stream: C,
)
    ensures
        ({
            let connected = ports.taken(port_nb).opened(port_nb, first_name, Ok(first_stream));
            let held = connected.links.at(port_nb);
            let reconnected = connected.taken(port_nb).opened(
                port_nb,
                second_name,
                Ok(second_stream),
            );
            &&& held == MidiIO::<IO, C>::Connected(first_stream)
            &&& reconnected.links.at(port_nb) == MidiIO::<IO, C>::Connected(second_stream)
            &&& reconnected.cur.at(port_nb) == Some(second_name)
            &&& reconnected.links.at(port_nb.other()) == ports.links.at(port_nb.other())
            &&& reconnected.cur.at(port_nb.other()) == ports.cur.at(port_nb.other())
            &&& reconnected.catalog == ports.catalog
        }),
{
}

/// A refresh leaves every input with what it holds, whether or not the port
/// it is bound to is still on offer; and an input that has a stream stays
/// bound to the name it is bound to. What is on offer after the refresh
/// depends on what the driver listed, and on nothing that the inputs hold.
pub proof fn lemma_refresh_keeps_streams<P, IO, C>(ports: PortsView<P, IO, C>, found: Seq<Row<P>>)
    ensures
        ports.refreshed(found).links == ports.links,
        ports.refreshed(found).at_rest() == ports.at_rest(),
        ports.refreshed(found).catalog == offered(ports.client_name, found),
        forall|port_nb: PortNb| #[trigger]
            ports.links.at(port_nb) is Connected ==> ports.refreshed(found).cur.at(port_nb)
                == ports.cur.at(port_nb),
        forall|port_nb: PortNb|
            ports.refreshed(found).cur.at(port_nb) is Some ==> #[trigger] ports.refreshed(
                found,
            ).cur.at(port_nb) == ports.cur.at(port_nb),
{
}

} // verus!
