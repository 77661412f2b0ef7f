//! The controller: what the sniffer does next.
//!
//! The controller owns the ports and the two inputs. It does no waiting and
//! no driver work itself. It hands out one command at a time; whoever runs it
//! carries the command out and comes back with the event that the command
//! produced. One round of the controller is: wait for a request, serve it,
//! take in the messages that arrived meanwhile, ask for a repaint if the
//! message list changed.

use vstd::prelude::*;
use crate::midi::io::MidiIO;
use crate::midi::msg::Parsed;
use crate::midi::port::{
    port_label_of, refresh_label_of, rows_of, Error, PortNb, Ports, PortsView,
};
use super::app::Request;
use super::msg_list::{any_updated, pushed_all, MsgListPanel};

verus! {

/// How long to wait for a request before looking at the messages, in
/// milliseconds.
pub const MSG_POLLING_INTERVAL_MS: u64 = 20;

/// How many messages are taken in at once.
pub const MSG_LIST_BATCH_SIZE: usize = 5;

/// How many batches of messages are taken in between two waits for a request.
pub const MAX_MSG_BATCHES_PER_UPDATE: usize = 6;

/// Whether the controller goes on serving requests.
#[derive(Clone, Copy, Debug, PartialEq, Eq, Structural)]
pub enum Phase {
    Running,
    /// A shutdown was requested. No request is served after it.
    ShuttingDown,
}

/// What the controller asked for last and has no answer to yet.
#[derive(Debug)]
pub enum Stage {
    /// Nothing: the controller has not been started.
    Idle,
    /// The next request.
    Polling,
    /// The closing of the input's stream. With a name, a stream to the port
    /// of that name is opened next.
    Closing { port_nb: PortNb, reopen: Option<String> },
    /// The opening of a stream from the input to the port of the given name.
    Opening { port_nb: PortNb, port_name: String },
    /// The list of the driver's ports.
    Enumerating,
    /// A batch of messages, after that many batches in this round.
    Draining { batches: usize },
    /// Nothing: the controller has finished.
    Finished,
}

/// A stage as contracts see it.
pub enum StageView {
    Idle,
    Polling,
    Closing { port_nb: PortNb, reopen: Option<Seq<char>> },
    Opening { port_nb: PortNb, port_name: Seq<char> },
    Enumerating,
    Draining { batches: int },
    Finished,
}

impl View for Stage {
    type V = StageView;

    open spec fn view(&self) -> StageView {
        match *self {
            Stage::Idle => StageView::Idle,
            Stage::Polling => StageView::Polling,
            Stage::Closing { port_nb, reopen } => StageView::Closing {
                port_nb,
                reopen: match reopen {
                    Some(name) => Some(name@),
                    None => None,
                },
            },
            Stage::Opening { port_nb, port_name } => StageView::Opening {
                port_nb,
                port_name: port_name@,
            },
            Stage::Enumerating => StageView::Enumerating,
            Stage::Draining { batches } => StageView::Draining { batches: batches as int },
            Stage::Finished => StageView::Finished,
        }
    }
}

/// What came of the last command.
#[derive(Debug)]
pub enum Event<P, IO, C> {
    /// A request arrived.
    Request(Request),
    /// No request arrived in time.
    Timeout,
    /// No request can arrive any more: nobody is left to make one.
    RequestsClosed,
    /// No message can arrive any more: nobody is left to send one.
    MessagesClosed,
    /// The stream is closed; this is the driver session it released.
    Closed(IO),
    /// The stream is open, or it is not and this is the driver session that
    /// the attempt gave back.
    Opened(Result<C, IO>),
    /// The driver's ports, each with its name, in the driver's order; or the
    /// reason why the driver listed none.
    Found(Result<Vec<(String, P)>, Error>),
}

/// What to do next.
#[derive(Debug)]
pub enum Command<IO, C> {
    /// Wait for a request, `MSG_POLLING_INTERVAL_MS` at most. Answered by
    /// `Request`, `Timeout` or `RequestsClosed`.
    Poll,
    /// Take up to `MSG_LIST_BATCH_SIZE` messages that have arrived, without
    /// waiting, and hand them to `absorb`; or answer `MessagesClosed`.
    Drain,
    /// Close the stream. Answered by `Closed`.
    Close(C),
    /// Open a stream from the input to the port that is on offer under
    /// `port_name`, and show to that port as `label`. Answered by `Opened`.
    Open { input: IO, port_nb: PortNb, port_name: String, label: String },
    /// List the driver's ports in a session of its own, named `label`.
    /// Answered by `Found`.
    Enumerate { label: String },
    /// Stop: the controller has finished.
    Exit,
}

/// What the controller wants done after an event.
#[derive(Debug)]
pub struct Outcome<IO, C> {
    /// The command to carry out next.
    pub command: Command<IO, C>,
    /// A failure to report to the user.
    pub error: Option<Error>,
    /// The ports or the inputs may have changed: show them anew.
    pub publish: bool,
    /// The message list changed: paint it anew.
    pub repaint: bool,
}

/// The controller as contracts see it.
#[verifier::ext_equal]
pub struct ControllerView<P, IO, C> {
    pub ports: PortsView<P, IO, C>,
    pub phase: Phase,
    pub stage: StageView,
    /// The message list changed in this round.
    pub must_repaint: bool,
}

/// The command is to list the driver's ports for the given client.
pub open spec fn is_enumerate<IO, C>(command: Command<IO, C>, client_name: Seq<char>) -> bool {
    command matches Command::Enumerate { label } && label@ == refresh_label_of(client_name)
}

/// The command is to open a stream with the given driver session, from the
/// given input to the port of the given name, for the given client.
pub open spec fn is_open<IO, C>(
    command: Command<IO, C>,
    with: IO,
    nb: PortNb,
    name: Seq<char>,
    client_name: Seq<char>,
) -> bool {
    command matches Command::Open { input, port_nb, port_name, label } && input == with && port_nb
        == nb && port_name@ == name && label@ == port_label_of(client_name, nb)
}

/// The failure is that no port of the given name is on offer.
pub open spec fn is_not_found(error: Option<Error>, name: Seq<char>) -> bool {
    error matches Some(Error::PortNotFound(missing)) && missing@ == name
}

/// The outcome is the given command and nothing else.
pub open spec fn only_command<IO, C>(out: Outcome<IO, C>) -> bool {
    out.error is None && !out.publish && !out.repaint
}

impl<P, IO, C> ControllerView<P, IO, C> {
    /// The inputs hold what the stage says: the input that a stream is being
    /// closed or opened for has handed out its handle, every other input
    /// holds one; a port that a stream is to be opened to is on offer; a
    /// round takes in fewer than `MAX_MSG_BATCHES_PER_UPDATE` batches before
    /// its last; and once a shutdown was requested the controller only takes
    /// in messages or has finished.
    pub open spec fn wf(self) -> bool {
        &&& self.phase == Phase::ShuttingDown ==> self.stage is Draining || self.stage is Finished
        &&& match self.stage {
            StageView::Closing { port_nb, reopen } => {
                &&& self.ports.links.at(port_nb) is Transitioning
                &&& self.ports.links.at(port_nb.other()).at_rest()
                &&& reopen is Some ==> self.ports.catalog.contains_key(reopen->0)
            },
            StageView::Opening { port_nb, port_name } => {
                &&& self.ports.links.at(port_nb) is Transitioning
                &&& self.ports.links.at(port_nb.other()).at_rest()
                &&& self.ports.catalog.contains_key(port_name)
            },
            StageView::Draining { batches } => {
                &&& self.ports.at_rest()
                &&& 0 <= batches < MAX_MSG_BATCHES_PER_UPDATE
            },
            StageView::Finished => true,
            _ => self.ports.at_rest(),
        }
    }

    /// The event answers the command that the controller gave last.
    pub open spec fn awaits(self, event: Event<P, IO, C>) -> bool {
        match self.stage {
            StageView::Polling => event is Request || event is Timeout || event is RequestsClosed,
            StageView::Closing { .. } => event is Closed,
            StageView::Opening { .. } => event is Opened,
            StageView::Enumerating => event is Found,
            StageView::Draining { .. } => event is MessagesClosed,
            _ => false,
        }
    }

    /// The controller with other ports and at another stage.
    pub open spec fn moved(self, ports: PortsView<P, IO, C>, stage: StageView) -> Self {
        ControllerView { ports, phase: self.phase, stage, must_repaint: self.must_repaint }
    }

    /// What serving a request comes to.
    pub open spec fn served(self, request: Request, post: Self, out: Outcome<IO, C>) -> bool {
        let client = self.ports.client_name;
        match request {
            Request::Connect((port_nb, port_name)) => {
                if !self.ports.catalog.contains_key(port_name@) {
                    // Nothing to connect to: say so, and look at the ports again.
                    &&& post == self.moved(self.ports, StageView::Enumerating)
                    &&& is_enumerate(out.command, client)
                    &&& is_not_found(out.error, port_name@)
                    &&& !out.publish
                    &&& !out.repaint
                } else {
                    match self.ports.links.at(port_nb) {
                        // The stream that the input has is closed first.
                        MidiIO::Connected(stream) => {
                            &&& post == self.moved(
                                self.ports.taken(port_nb),
                                StageView::Closing { port_nb, reopen: Some(port_name@) },
                            )
                            &&& out.command == Command::<IO, C>::Close(stream)
                            &&& only_command(out)
                        },
                        MidiIO::Disconnected(input) => {
                            &&& post == self.moved(
                                self.ports.taken(port_nb),
                                StageView::Opening { port_nb, port_name: port_name@ },
                            )
                            &&& is_open(out.command, input, port_nb, port_name@, client)
                            &&& only_command(out)
                        },
                        MidiIO::Transitioning => false,
                    }
                }
            },
            Request::Disconnect(port_nb) => {
                match self.ports.links.at(port_nb) {
                    MidiIO::Connected(stream) => {
                        &&& post == self.moved(
                            self.ports.disconnected(port_nb),
                            StageView::Closing { port_nb, reopen: None },
                        )
                        &&& out.command == Command::<IO, C>::Close(stream)
                        &&& only_command(out)
                    },
                    // Nothing to close: look at the ports again.
                    _ => {
                        &&& post == self.moved(
                            self.ports.disconnected(port_nb),
                            StageView::Enumerating,
                        )
                        &&& is_enumerate(out.command, client)
                        &&& only_command(out)
                    },
                }
            },
            Request::RefreshPorts => {
                &&& post == self.moved(self.ports, StageView::Enumerating)
                &&& is_enumerate(out.command, client)
                &&& only_command(out)
            },
            // The round is finished, and it is the last.
            Request::Shutdown => {
                &&& post == (ControllerView {
                    ports: self.ports,
                    phase: Phase::ShuttingDown,
                    stage: StageView::Draining { batches: 0 },
                    must_repaint: self.must_repaint,
                })
                &&& out.command is Drain
                &&& only_command(out)
            },
        }
    }

    /// What an event comes to: the controller after it, and what it wants
    /// done.
    pub open spec fn steps(self, event: Event<P, IO, C>, post: Self, out: Outcome<IO, C>) -> bool {
        let client = self.ports.client_name;
        match (self.stage, event) {
            (StageView::Polling, Event::Request(request)) => self.served(request, post, out),
            (StageView::Polling, Event::Timeout) => {
                &&& post == self.moved(self.ports, StageView::Draining { batches: 0 })
                &&& out.command is Drain
                &&& only_command(out)
            },
            (StageView::Closing { port_nb, reopen: Some(port_name) }, Event::Closed(input)) => {
                &&& post == self.moved(self.ports, StageView::Opening { port_nb, port_name })
                &&& is_open(out.command, input, port_nb, port_name, client)
                &&& only_command(out)
            },
            (StageView::Closing { port_nb, reopen: None }, Event::Closed(input)) => {
                &&& post == self.moved(self.ports.closed(port_nb, input), StageView::Enumerating)
                &&& is_enumerate(out.command, client)
                &&& only_command(out)
            },
            // Connected or not, the ports are looked at again.
            (StageView::Opening { port_nb, port_name }, Event::Opened(outcome)) => {
                &&& post == self.moved(
                    self.ports.opened(port_nb, port_name, outcome),
                    StageView::Enumerating,
                )
                &&& is_enumerate(out.command, client)
                &&& out.error == (if outcome is Err {
                    Some(Error::PortConnection)
                } else {
                    None
                })
                &&& !out.publish
                &&& !out.repaint
            },
            // Listed or not, the ports are shown anew; then come the messages.
            (StageView::Enumerating, Event::Found(found)) => {
                &&& post == self.moved(
                    match found {
                        Ok(ports) => self.ports.refreshed(rows_of(ports@)),
                        Err(_) => self.ports,
                    },
                    StageView::Draining { batches: 0 },
                )
                &&& out.command is Drain
                &&& out.error == (match found {
                    Ok(_) => None,
                    Err(err) => Some(err),
                })
                &&& out.publish
                &&& !out.repaint
            },
            // Without the other end of a channel there is nothing left to do.
            (StageView::Polling, Event::RequestsClosed)
            | (StageView::Draining { .. }, Event::MessagesClosed) => {
                &&& post == self.moved(self.ports, StageView::Finished)
                &&& out.command is Exit
                &&& only_command(out)
            },
            _ => false,
        }
    }

    /// The round takes in no further batch after one of that many messages:
    /// an empty batch says that no message is waiting, and the last batch
    /// that a round may take in is final whatever it holds.
    pub open spec fn ends_round(self, taken: nat) -> bool {
        taken == 0 || (self.stage matches StageView::Draining { batches } && batches + 1
            >= MAX_MSG_BATCHES_PER_UPDATE)
    }

    /// What a batch of messages comes to, given whether any of them changed
    /// the message list. While the round goes on the next batch is asked
    /// for. At its end a repaint is asked for if the list changed in the
    /// round, and the controller waits for the next request, or stops if a
    /// shutdown was requested.
    pub open spec fn absorbs(self, taken: nat, updated: bool, post: Self, out: Outcome<IO, C>) -> bool {
        &&& self.stage matches StageView::Draining { batches }
        &&& out.error is None
        &&& !out.publish
        &&& post.ports == self.ports
        &&& post.phase == self.phase
        &&& if self.ends_round(taken) {
            &&& out.repaint == (self.must_repaint || updated)
            &&& !post.must_repaint
            &&& if self.phase == Phase::ShuttingDown {
                post.stage == StageView::Finished && out.command is Exit
            } else {
                post.stage == StageView::Polling && out.command is Poll
            }
        } else {
            &&& !out.repaint
            &&& post.must_repaint == (self.must_repaint || updated)
            &&& post.stage == StageView::Draining { batches: batches + 1 }
            &&& out.command is Drain
        }
    }
}

/// The controller of the sniffer.
pub struct Controller<P, IO, C> {
    ports: Ports<P, IO, C>,
    phase: Phase,
    stage: Stage,
    must_repaint: bool,
}

impl<P, IO, C> View for Controller<P, IO, C> {
    type V = ControllerView<P, IO, C>;

    closed spec fn view(&self) -> ControllerView<P, IO, C> {
        ControllerView {
            ports: self.ports@,
            phase: self.phase,
            stage: self.stage@,
            must_repaint: self.must_repaint,
        }
    }
}

impl<P, IO, C> Controller<P, IO, C> {
    /// The controller is in order: its catalog is, and its inputs hold what
    /// its stage says.
    pub closed spec fn wf(&self) -> bool {
        self.ports.wf() && self@.wf()
    }

    /// A controller that is in order has its inputs hold what its stage says,
    /// and its ports are in order.
    pub proof fn lemma_in_order(&self)
        requires
            self.wf(),
        ensures
            self@.wf(),
    {
    }

    /// A controller for the given ports, not started yet.
    pub fn new(ports: Ports<P, IO, C>) -> (controller: Self)
        requires
            ports.wf(),
            ports@.at_rest(),
        ensures
            controller.wf(),
            controller@.wf(),
            controller@ == (ControllerView {
                ports: ports@,
                phase: Phase::Running,
                stage: StageView::Idle,
                must_repaint: false,
            }),
    {
        Controller { ports, phase: Phase::Running, stage: Stage::Idle, must_repaint: false }
    }

    /// The ports and the inputs.
    pub fn ports(&self) -> (ports: &Ports<P, IO, C>)
        ensures
            ports@ == self@.ports,
            self.wf() ==> ports.wf(),
    {
        &self.ports
    }

    pub fn phase(&self) -> (phase: Phase)
        ensures
            phase == self@.phase,
    {
        self.phase
    }

    /// Tells whether the controller has been started and has not finished.
    pub fn is_active(&self) -> (yes: bool)
        ensures
            yes == !(self@.stage is Idle || self@.stage is Finished),
    {
        match self.stage {
            Stage::Idle => false,
            Stage::Finished => false,
            _ => true,
        }
    }

    /// Tells whether the controller has asked for a batch of messages.
    pub fn is_draining(&self) -> (yes: bool)
        ensures
            yes == (self@.stage is Draining),
    {
        match self.stage {
            Stage::Draining { .. } => true,
            _ => false,
        }
    }

    /// Tells whether the event answers the command that the controller gave
    /// last.
    pub fn awaits(&self, event: &Event<P, IO, C>) -> (yes: bool)
        ensures
            yes == self@.awaits(*event),
    {
        match self.stage {
            Stage::Polling => match event {
                Event::Request(_) => true,
                Event::Timeout => true,
                Event::RequestsClosed => true,
                _ => false,
            },
            Stage::Closing { .. } => match event {
                Event::Closed(_) => true,
                _ => false,
            },
            Stage::Opening { .. } => match event {
                Event::Opened(_) => true,
                _ => false,
            },
            Stage::Enumerating => match event {
                Event::Found(_) => true,
                _ => false,
            },
            Stage::Draining { .. } => match event {
                Event::MessagesClosed => true,
                _ => false,
            },
            _ => false,
        }
    }

    /// Starts the controller: the ports are looked at first.
    pub fn start(&mut self) -> (out: Outcome<IO, C>)
        requires
            old(self).wf(),
            old(self)@.stage is Idle,
        ensures
            final(self).wf(),
            final(self)@.wf(),
            final(self)@ == old(self)@.moved(old(self)@.ports, StageView::Enumerating),
            is_enumerate(out.command, old(self)@.ports.client_name),
            only_command(out),
    {
        self.stage = Stage::Enumerating;
        self.look_again(None)
    }

    /// The outcome that asks for the driver's ports.
    fn look_again(&self, error: Option<Error>) -> (out: Outcome<IO, C>)
        ensures
            is_enumerate(out.command, self@.ports.client_name),
            out.error == error,
            !out.publish,
            !out.repaint,
    {
        Outcome {
            command: Command::Enumerate { label: self.ports.refresh_label() },
            error,
            publish: false,
            repaint: false,
        }
    }

    /// The outcome that asks for a stream to be opened.
    fn open_with(&self, input: IO, port_nb: PortNb, port_name: String) -> (out: Outcome<IO, C>)
        ensures
            is_open(out.command, input, port_nb, port_name@, self@.ports.client_name),
            only_command(out),
    {
        Outcome {
            command: Command::Open {
                input,
                port_nb,
                port_name,
                label: self.ports.port_label(port_nb),
            },
            error: None,
            publish: false,
            repaint: false,
        }
    }

    /// Serves a request.
    fn serve(&mut self, request: Request) -> (out: Outcome<IO, C>)
        requires
            old(self).wf(),
            old(self)@.stage is Polling,
        ensures
            final(self).wf(),
            old(self)@.served(request, final(self)@, out),
    {
        match request {
            Request::Connect((port_nb, port_name)) => {
                match self.ports.connect(port_nb, port_name.as_str()) {
                    Err(err) => {
                        self.stage = Stage::Enumerating;
                        assert(self@ =~= old(self)@.moved(old(self)@.ports, StageView::Enumerating));
                        self.look_again(Some(err))
                    },
                    Ok(MidiIO::Connected(stream)) => {
                        self.stage = Stage::Closing { port_nb, reopen: Some(port_name) };
                        Outcome {
                            command: Command::Close(stream),
                            error: None,
                            publish: false,
                            repaint: false,
                        }
                    },
                    Ok(MidiIO::Disconnected(input)) => {
                        self.stage = Stage::Opening { port_nb, port_name: port_name.clone() };
                        self.open_with(input, port_nb, port_name)
                    },
                    Ok(MidiIO::Transitioning) => {
                        proof {
                            assert(false);
                        }
                        self.stage = Stage::Finished;
                        Outcome { command: Command::Exit, error: None, publish: false, repaint: false }
                    },
                }
            },
            Request::Disconnect(port_nb) => {
                match self.ports.disconnect(port_nb) {
                    Some(stream) => {
                        self.stage = Stage::Closing { port_nb, reopen: None };
                        Outcome {
                            command: Command::Close(stream),
                            error: None,
                            publish: false,
                            repaint: false,
                        }
                    },
                    None => {
                        self.stage = Stage::Enumerating;
                        self.look_again(None)
                    },
                }
            },
            Request::RefreshPorts => {
                self.stage = Stage::Enumerating;
                self.look_again(None)
            },
            Request::Shutdown => {
                self.phase = Phase::ShuttingDown;
                self.stage = Stage::Draining { batches: 0 };
                Outcome { command: Command::Drain, error: None, publish: false, repaint: false }
            },
        }
    }

    /// Takes in the event that the last command produced and says what to do
    /// next.
    pub fn step(&mut self, event: Event<P, IO, C>) -> (out: Outcome<IO, C>)
        requires
            old(self).wf(),
            old(self)@.awaits(event),
        ensures
            final(self).wf(),
            final(self)@.wf(),
            old(self)@.steps(event, final(self)@, out),
    {
        let mut stage = Stage::Finished;
        core::mem::swap(&mut self.stage, &mut stage);
        match (stage, event) {
            (Stage::Polling, Event::Request(request)) => {
                self.stage = Stage::Polling;
                self.serve(request)
            },
            (Stage::Polling, Event::Timeout) => {
                self.stage = Stage::Draining { batches: 0 };
                Outcome { command: Command::Drain, error: None, publish: false, repaint: false }
            },
            (Stage::Closing { port_nb, reopen: Some(port_name) }, Event::Closed(input)) => {
                self.stage = Stage::Opening { port_nb, port_name: port_name.clone() };
                self.open_with(input, port_nb, port_name)
            },
            (Stage::Closing { port_nb, reopen: None }, Event::Closed(input)) => {
                self.ports.closed(port_nb, input);
                self.stage = Stage::Enumerating;
                self.look_again(None)
            },
            (Stage::Opening { port_nb, port_name }, Event::Opened(outcome)) => {
                let error = match self.ports.opened(port_nb, port_name, outcome) {
                    Ok(()) => None,
                    Err(err) => Some(err),
                };
                self.stage = Stage::Enumerating;
                self.look_again(error)
            },
            (Stage::Enumerating, Event::Found(found)) => {
                let error = match self.ports.refresh(found) {
                    Ok(()) => None,
                    Err(err) => Some(err),
                };
                self.stage = Stage::Draining { batches: 0 };
                Outcome { command: Command::Drain, error, publish: true, repaint: false }
            },
            _ => {
                self.stage = Stage::Finished;
                Outcome { command: Command::Exit, error: None, publish: false, repaint: false }
            },
        }
    }

    /// Takes in a batch of messages, oldest first: each is pushed onto the
    /// message list. The batch answers a `Drain` command.
    pub fn absorb(&mut self, batch: Vec<Parsed>, list: &mut MsgListPanel) -> (out: Outcome<IO, C>)
        requires
            old(self).wf(),
            old(self)@.stage is Draining,
        ensures
            final(self).wf(),
            final(self)@.wf(),
            final(list)@ == pushed_all(old(list)@, batch@),
            old(self)@.absorbs(
                batch@.len(),
                any_updated(old(list)@, batch@),
                final(self)@,
                out,
            ),
    {
        let taken = batch.len();
        let ghost msgs = batch@;
        let mut updated = false;
        for msg in it: batch
            invariant
                msgs == it.seq(),
                list@ == pushed_all(old(list)@, msgs.take(it.index() as int)),
                updated == any_updated(old(list)@, msgs.take(it.index() as int)),
        {
            proof {
                let k = it.index() as int;
                assert(msgs.take(k + 1).drop_last() =~= msgs.take(k));
                assert(msgs.take(k + 1).last() == msg);
            }
            if list.push(msg).was_updated() {
                updated = true;
            }
        }
        assert(msgs.take(msgs.len() as int) =~= msgs);
        let batches = match self.stage {
            Stage::Draining { batches } => batches,
            _ => 0,
        };
        let changed = self.must_repaint || updated;
        if taken == 0 || batches + 1 >= MAX_MSG_BATCHES_PER_UPDATE {
            self.must_repaint = false;
            match self.phase {
                Phase::ShuttingDown => {
                    self.stage = Stage::Finished;
                    Outcome { command: Command::Exit, error: None, publish: false, repaint: changed }
                },
                Phase::Running => {
                    self.stage = Stage::Polling;
                    Outcome { command: Command::Poll, error: None, publish: false, repaint: changed }
                },
            }
        } else {
            self.must_repaint = changed;
            self.stage = Stage::Draining { batches: batches + 1 };
            Outcome { command: Command::Drain, error: None, publish: false, repaint: false }
        }
    }
}

/// An event leaves the controller in order.
pub proof fn lemma_step_keeps_order<P, IO, C>(
    pre: ControllerView<P, IO, C>,
    event: Event<P, IO, C>,
    post: ControllerView<P, IO, C>,
    out: Outcome<IO, C>,
)
    requires
        pre.wf(),
        pre.steps(event, post, out),
    ensures
        post.wf(),
{
}

/// A batch of messages leaves the controller in order.
pub proof fn lemma_absorb_keeps_order<P, IO, C>(
    pre: ControllerView<P, IO, C>,
    taken: nat,
    updated: bool,
    post: ControllerView<P, IO, C>,
    out: Outcome<IO, C>,
)
    requires
        pre.wf(),
        pre.absorbs(taken, updated, post, out),
    ensures
        post.wf(),
{
}

/// Requests are served one per round: what follows a request is never the
/// wait for the next one. The messages are looked at first.
pub proof fn lemma_one_request_per_round<P, IO, C>(
    pre: ControllerView<P, IO, C>,
    event: Event<P, IO, C>,
    post: ControllerView<P, IO, C>,
    out: Outcome<IO, C>,
)
    requires
        pre.wf(),
        pre.steps(event, post, out),
    ensures
        !(post.stage is Polling),
        !(out.command is Poll),
{
}

/// A round takes in `MAX_MSG_BATCHES_PER_UPDATE` batches at most: the batch
/// that fills the round ends it, whatever it holds.
pub proof fn lemma_rounds_are_bounded<P, IO, C>(
    pre: ControllerView<P, IO, C>,
    taken: nat,
    updated: bool,
    post: ControllerView<P, IO, C>,
    out: Outcome<IO, C>,
)
    requires
        pre.wf(),
        pre.absorbs(taken, updated, post, out),
    ensures
        out.command is Drain ==> post.stage == (StageView::Draining {
            batches: pre.stage->Draining_batches + 1,
        }) && pre.stage->Draining_batches + 1 < MAX_MSG_BATCHES_PER_UPDATE && taken > 0,
        taken == 0 ==> !(out.command is Drain),
{
}

/// A shutdown is final: after it the controller serves no request. It takes
/// in what is left of the round and stops.
pub proof fn lemma_shutdown_is_final<P, IO, C>(
    pre: ControllerView<P, IO, C>,
    event: Event<P, IO, C>,
    taken: nat,
    updated: bool,
    post: ControllerView<P, IO, C>,
    out: Outcome<IO, C>,
)
    requires
        pre.wf(),
        pre.phase == Phase::ShuttingDown,
        pre.steps(event, post, out) || pre.absorbs(taken, updated, post, out),
    ensures
        post.phase == Phase::ShuttingDown,
        !(out.command is Poll),
        !(event is Request) || !pre.steps(event, post, out),
        out.command is Drain || out.command is Exit,
{
}

/// Looking at the ports again leaves every input with what it holds.
pub proof fn lemma_found_keeps_streams<P, IO, C>(
    pre: ControllerView<P, IO, C>,
    found: Result<Vec<(String, P)>, Error>,
    post: ControllerView<P, IO, C>,
    out: Outcome<IO, C>,
)
    requires
        pre.steps(Event::Found(found), post, out),
    ensures
        post.ports.links == pre.ports.links,
{
}

/// A request to connect an input that has a stream, to a port on offer, has
/// that stream closed first; the stream to the port is opened with the driver
/// session that the closing releases.
pub proof fn lemma_connect_closes_first<P, IO, C>(
    pre: ControllerView<P, IO, C>,
    port_nb: PortNb,
    port_name: String,
    stream: C,
    input: IO,
    closing: ControllerView<P, IO, C>,
    close: Outcome<IO, C>,
    opening: ControllerView<P, IO, C>,
    open: Outcome<IO, C>,
)
    requires
        pre.wf(),
        pre.stage is Polling,
        pre.ports.links.at(port_nb) == MidiIO::<IO, C>::Connected(stream),
        pre.ports.catalog.contains_key(port_name@),
        pre.steps(Event::Request(Request::Connect((port_nb, port_name))), closing, close),
        closing.steps(Event::Closed(input), opening, open),
    ensures
        close.command == Command::<IO, C>::Close(stream),
        closing.ports.links.at(port_nb) is Transitioning,
        is_open(open.command, input, port_nb, port_name@, pre.ports.client_name),
        opening.ports.links.at(port_nb.other()) == pre.ports.links.at(port_nb.other()),
{
}

} // verus!
