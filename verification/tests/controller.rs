use std::collections::VecDeque;

use midi_sniffer::midi::msg::{parse_all, Origin};
use midi_sniffer::midi::port::{Error, PortNb, Ports};
use midi_sniffer::ui::app::Request;
use midi_sniffer::ui::controller::{
    Command, Controller, Event, Outcome, Phase, MAX_MSG_BATCHES_PER_UPDATE, MSG_LIST_BATCH_SIZE,
    MSG_POLLING_INTERVAL_MS,
};
use midi_sniffer::ui::msg_list::MsgListPanel;
use midi_sniffer::ui::port::PortsPanel;

#[derive(Debug, PartialEq)]
struct Session(u32);

#[derive(Debug, PartialEq)]
struct Stream {
    session: u32,
    port: u32,
}

type TestController = Controller<u32, Session, Stream>;
type TestEvent = Event<u32, Session, Stream>;
type TestOutcome = Outcome<Session, Stream>;

/// A driver and a user interface that do what the controller says and write
/// down what it said.
struct Rig {
    controller: TestController,
    list: MsgListPanel,
    panel: PortsPanel,
    requests: VecDeque<Request>,
    messages: VecDeque<Origin>,
    devices: Vec<(String, u32)>,
    refusing: Vec<u32>,
    enumeration_fails: bool,
    trace: Vec<String>,
    errors: Vec<Error>,
    publishes: usize,
    repaints: usize,
    open: Vec<Stream>,
    closed: Vec<Stream>,
}

impl Rig {
    fn new(devices: &[(&str, u32)]) -> Self {
        let ports =
            Ports::try_new("MIDI sniffer".to_string(), Some(Session(1)), Some(Session(2))).unwrap();
        Rig {
            controller: Controller::new(ports),
            list: MsgListPanel::new(),
            panel: PortsPanel::default(),
            requests: VecDeque::new(),
            messages: VecDeque::new(),
            devices: devices.iter().map(|(name, port)| (name.to_string(), *port)).collect(),
            refusing: Vec::new(),
            enumeration_fails: false,
            trace: Vec::new(),
            errors: Vec::new(),
            publishes: 0,
            repaints: 0,
            open: Vec::new(),
            closed: Vec::new(),
        }
    }

    fn note(&mut self, out: TestOutcome) -> Command<Session, Stream> {
        if let Some(err) = out.error {
            self.errors.push(err);
        }
        if out.publish {
            self.publishes += 1;
            self.panel.update(self.controller.ports());
        }
        if out.repaint {
            self.repaints += 1;
        }
        out.command
    }

    fn step(&mut self, event: TestEvent) -> Command<Session, Stream> {
        assert!(self.controller.awaits(&event));
        let out = self.controller.step(event);
        self.note(out)
    }

    /// Carries out one command and hands back the next; `None` after `Exit`.
    fn carry_out(&mut self, command: Command<Session, Stream>) -> Option<Command<Session, Stream>> {
        Some(match command {
            Command::Poll => {
                self.trace.push("poll".to_string());
                match self.requests.pop_front() {
                    Some(request) => self.step(Event::Request(request)),
                    None => self.step(Event::RequestsClosed),
                }
            }
            Command::Drain => {
                self.trace.push("drain".to_string());
                assert!(self.controller.is_draining());
                let n = self.messages.len().min(MSG_LIST_BATCH_SIZE);
                let batch: Vec<Origin> = self.messages.drain(..n).collect();
                let out = self.controller.absorb(parse_all(batch), &mut self.list);
                self.note(out)
            }
            Command::Close(stream) => {
                self.trace.push(format!("close {}", stream.port));
                let session = Session(stream.session);
                let at = self.open.iter().position(|open| *open == stream).unwrap();
                self.open.remove(at);
                self.closed.push(stream);
                self.step(Event::Closed(session))
            }
            Command::Open { input, port_nb, port_name, label } => {
                self.trace.push(format!("open {} as {}", port_name, label));
                assert_eq!(label, self.controller.ports().port_label(port_nb));
                let port = *self.controller.ports().get(&port_name).unwrap();
                if self.refusing.contains(&port) {
                    self.step(Event::Opened(Err(input)))
                } else {
                    self.open.push(Stream { session: input.0, port });
                    self.step(Event::Opened(Ok(Stream { session: input.0, port })))
                }
            }
            Command::Enumerate { label } => {
                self.trace.push(format!("enumerate as {}", label));
                if self.enumeration_fails {
                    self.step(Event::Found(Err(Error::PortInfo)))
                } else {
                    self.step(Event::Found(Ok(self.devices.clone())))
                }
            }
            Command::Exit => {
                self.trace.push("exit".to_string());
                assert!(!self.controller.is_active());
                return None;
            }
        })
    }

    /// Runs the controller until it exits. The request channel closes when
    /// the queue is empty.
    fn run(&mut self) {
        let out = self.controller.start();
        let mut command = self.note(out);
        while let Some(next) = self.carry_out(command) {
            command = next;
        }
    }

    fn start(&mut self) -> Command<Session, Stream> {
        let out = self.controller.start();
        self.note(out)
    }

    /// Carries commands out until the controller waits for a request.
    fn settle(&mut self, mut command: Command<Session, Stream>) {
        while !matches!(command, Command::Poll) {
            command = self.carry_out(command).expect("the controller stopped");
        }
    }

    fn request(&mut self, request: Request) {
        let command = self.step(Event::Request(request));
        self.settle(command);
    }
}

fn note_on(ts: u64, port_nb: PortNb, note: u8) -> Origin {
    Origin::new(ts, port_nb, &[0x90, note, 0x7F])
}

#[test]
fn the_limits_are_as_documented() {
    assert_eq!(MSG_POLLING_INTERVAL_MS, 20);
    assert_eq!(MSG_LIST_BATCH_SIZE, 5);
    assert_eq!(MAX_MSG_BATCHES_PER_UPDATE, 6);
}

#[test]
fn the_controller_looks_at_the_ports_first() {
    let mut rig = Rig::new(&[("DeviceB", 11), ("DeviceA", 10)]);
    assert!(!rig.controller.is_active());
    assert_eq!(rig.controller.phase(), Phase::Running);
    match rig.start() {
        Command::Enumerate { label } => assert_eq!(label, "MIDI sniffer referesh ports"),
        other => panic!("{:?}", other),
    }
    assert!(rig.controller.is_active());
    let command = rig.step(Event::Found(Ok(rig.devices.clone())));
    assert!(matches!(command, Command::Drain));
    assert_eq!(rig.publishes, 1);
    assert_eq!(rig.panel.ports.list, vec!["DeviceA", "DeviceB"]);
    rig.settle(command);
    assert_eq!(rig.repaints, 0);
    assert!(rig.errors.is_empty());
}

#[test]
fn a_failed_first_look_is_reported_and_the_controller_goes_on() {
    let mut rig = Rig::new(&[("DeviceA", 10)]);
    rig.enumeration_fails = true;
    let command = rig.start();
    rig.settle(command);
    assert!(matches!(rig.errors.as_slice(), [Error::PortInfo]));
    assert_eq!(rig.publishes, 1);
    assert!(rig.controller.ports().list().is_empty());
    assert!(rig.controller.is_active());
    assert_eq!(rig.controller.phase(), Phase::Running);
}

#[test]
fn shutdown_is_served_when_its_turn_comes() {
    let mut rig = Rig::new(&[("DeviceA", 10), ("DeviceB", 11)]);
    rig.requests.push_back(Request::Connect((PortNb::One, "DeviceA".to_string())));
    rig.requests.push_back(Request::Connect((PortNb::Two, "DeviceB".to_string())));
    rig.requests.push_back(Request::Disconnect(PortNb::One));
    rig.requests.push_back(Request::Shutdown);
    rig.requests.push_back(Request::Connect((PortNb::One, "DeviceB".to_string())));
    rig.run();
    let acts: Vec<&str> = rig
        .trace
        .iter()
        .map(|line| line.as_str())
        .filter(|line| *line != "drain" && !line.starts_with("enumerate"))
        .collect();
    assert_eq!(
        acts,
        vec![
            "poll",
            "open DeviceA as MIDI sniffer Port 1",
            "poll",
            "open DeviceB as MIDI sniffer Port 2",
            "poll",
            "close 10",
            "poll",
            "exit",
        ]
    );
    // What was asked for after the shutdown is still waiting.
    assert_eq!(rig.requests.len(), 1);
    assert_eq!(rig.controller.phase(), Phase::ShuttingDown);
    assert!(!rig.controller.is_active());
    assert!(rig.errors.is_empty());
}

#[test]
fn every_request_ends_with_a_look_at_the_ports_and_a_publication() {
    let mut rig = Rig::new(&[("DeviceA", 10)]);
    let command = rig.start();
    rig.settle(command);
    assert_eq!(rig.publishes, 1);

    rig.request(Request::RefreshPorts);
    assert_eq!(rig.publishes, 2);
    rig.request(Request::Connect((PortNb::One, "DeviceA".to_string())));
    assert_eq!(rig.publishes, 3);
    rig.request(Request::Connect((PortNb::One, "Missing".to_string())));
    assert_eq!(rig.publishes, 4);
    rig.request(Request::Disconnect(PortNb::One));
    assert_eq!(rig.publishes, 5);
    rig.request(Request::Disconnect(PortNb::One));
    assert_eq!(rig.publishes, 6);
    let looks = rig.trace.iter().filter(|line| line.starts_with("enumerate")).count();
    assert_eq!(looks, 6);
}

#[test]
fn connecting_binds_the_input_and_shows_it() {
    let mut rig = Rig::new(&[("DeviceA", 10), ("DeviceB", 11)]);
    let command = rig.start();
    rig.settle(command);
    rig.request(Request::Connect((PortNb::One, "DeviceA".to_string())));
    assert!(rig.controller.ports().is_connected(PortNb::One));
    assert!(!rig.controller.ports().is_connected(PortNb::Two));
    assert_eq!(rig.controller.ports().cur(PortNb::One), Some(&"DeviceA".to_string()));
    assert_eq!(rig.open, vec![Stream { session: 1, port: 10 }]);
    assert_eq!(rig.panel.ports.cur.one, "DeviceA");
    assert_eq!(rig.panel.ports.cur.two, "Disconnected");
    assert!(rig.errors.is_empty());
}

#[test]
fn a_removed_port_stays_connected_and_leaves_the_list() {
    let mut rig = Rig::new(&[("DeviceA", 10), ("DeviceB", 11)]);
    let command = rig.start();
    rig.settle(command);
    rig.request(Request::Connect((PortNb::One, "DeviceA".to_string())));
    rig.devices.remove(0);
    rig.request(Request::RefreshPorts);
    assert!(rig.controller.ports().is_connected(PortNb::One));
    assert_eq!(rig.controller.ports().list(), vec!["DeviceB"]);
    assert_eq!(rig.controller.ports().cur(PortNb::One), Some(&"DeviceA".to_string()));
    assert_eq!(rig.panel.ports.list, vec!["DeviceB"]);
    assert_eq!(rig.panel.ports.cur.one, "DeviceA");
    assert_eq!(rig.open.len(), 1);
    assert!(rig.closed.is_empty());
}

#[test]
fn connecting_to_a_missing_port_is_reported_and_changes_nothing() {
    let mut rig = Rig::new(&[("DeviceA", 10), ("DeviceB", 11)]);
    let command = rig.start();
    rig.settle(command);
    rig.request(Request::Connect((PortNb::Two, "Missing".to_string())));
    match rig.errors.as_slice() {
        [Error::PortNotFound(name)] => assert_eq!(name, "Missing"),
        other => panic!("{:?}", other),
    }
    assert_eq!(rig.controller.ports().cur(PortNb::Two), None);
    assert!(!rig.controller.ports().is_connected(PortNb::Two));
    assert_eq!(rig.controller.ports().list(), vec!["DeviceA", "DeviceB"]);
    assert!(rig.open.is_empty());
    assert!(rig.controller.is_active());
}

#[test]
fn reconnecting_closes_the_old_stream_before_it_opens_the_new_one() {
    let mut rig = Rig::new(&[("DeviceA", 10), ("DeviceB", 11)]);
    let command = rig.start();
    rig.settle(command);
    rig.request(Request::Connect((PortNb::One, "DeviceA".to_string())));
    rig.trace.clear();
    rig.request(Request::Connect((PortNb::One, "DeviceB".to_string())));
    assert_eq!(
        rig.trace[..2],
        ["close 10".to_string(), "open DeviceB as MIDI sniffer Port 1".to_string()]
    );
    assert_eq!(rig.open, vec![Stream { session: 1, port: 11 }]);
    assert_eq!(rig.closed, vec![Stream { session: 1, port: 10 }]);
    assert_eq!(rig.controller.ports().cur(PortNb::One), Some(&"DeviceB".to_string()));
    assert!(rig.controller.ports().is_connected(PortNb::One));
}

#[test]
fn a_refused_stream_is_reported_and_leaves_the_input_free() {
    let mut rig = Rig::new(&[("DeviceA", 10), ("DeviceB", 11)]);
    rig.refusing.push(11);
    let command = rig.start();
    rig.settle(command);
    rig.request(Request::Connect((PortNb::One, "DeviceA".to_string())));
    rig.request(Request::Connect((PortNb::One, "DeviceB".to_string())));
    assert!(matches!(rig.errors.as_slice(), [Error::PortConnection]));
    assert!(!rig.controller.ports().is_connected(PortNb::One));
    assert_eq!(rig.controller.ports().cur(PortNb::One), None);
    assert!(rig.open.is_empty());
    assert_eq!(rig.closed, vec![Stream { session: 1, port: 10 }]);
    assert_eq!(rig.panel.ports.cur.one, "Disconnected");
    // The input can be used again.
    rig.request(Request::Connect((PortNb::One, "DeviceA".to_string())));
    assert!(rig.controller.ports().is_connected(PortNb::One));
}

#[test]
fn disconnecting_twice_closes_once() {
    let mut rig = Rig::new(&[("DeviceA", 10)]);
    let command = rig.start();
    rig.settle(command);
    rig.request(Request::Connect((PortNb::Two, "DeviceA".to_string())));
    rig.request(Request::Disconnect(PortNb::Two));
    assert_eq!(rig.closed.len(), 1);
    assert!(!rig.controller.ports().is_connected(PortNb::Two));
    assert_eq!(rig.controller.ports().cur(PortNb::Two), None);
    rig.request(Request::Disconnect(PortNb::Two));
    assert_eq!(rig.closed.len(), 1);
    assert!(!rig.controller.ports().is_connected(PortNb::Two));
    assert_eq!(rig.controller.ports().cur(PortNb::Two), None);
    assert!(rig.errors.is_empty());
}

#[test]
fn a_failed_look_keeps_the_catalog() {
    let mut rig = Rig::new(&[("DeviceA", 10)]);
    let command = rig.start();
    rig.settle(command);
    rig.enumeration_fails = true;
    rig.request(Request::RefreshPorts);
    assert!(matches!(rig.errors.as_slice(), [Error::PortInfo]));
    assert_eq!(rig.controller.ports().list(), vec!["DeviceA"]);
    assert!(rig.controller.is_active());
}

#[test]
fn messages_are_taken_in_by_batches_between_requests() {
    let mut rig = Rig::new(&[("DeviceA", 10)]);
    let command = rig.start();
    rig.settle(command);
    for ts in 0..40u64 {
        rig.messages.push_back(note_on(ts, PortNb::One, (ts % 2) as u8));
    }
    rig.trace.clear();
    let command = rig.step(Event::Timeout);
    rig.settle(command);
    // Six batches of five, then the next wait for a request.
    assert_eq!(rig.trace, vec!["drain"; 6]);
    assert_eq!(rig.list.list().len(), 30);
    assert_eq!(rig.messages.len(), 10);
    assert_eq!(rig.repaints, 1);

    rig.trace.clear();
    let command = rig.step(Event::Timeout);
    rig.settle(command);
    // Two batches of five and an empty one.
    assert_eq!(rig.trace, vec!["drain"; 3]);
    assert_eq!(rig.list.list().len(), 40);
    assert_eq!(rig.repaints, 2);
}

#[test]
fn no_repaint_is_asked_for_when_the_list_did_not_change() {
    let mut rig = Rig::new(&[("DeviceA", 10)]);
    let command = rig.start();
    rig.settle(command);
    let command = rig.step(Event::Timeout);
    rig.settle(command);
    assert_eq!(rig.repaints, 0);

    for ts in 0..99u64 {
        rig.messages.push_back(note_on(ts, PortNb::One, 0x40));
    }
    while !rig.messages.is_empty() {
        let command = rig.step(Event::Timeout);
        rig.settle(command);
    }
    assert_eq!(rig.list.list().len(), 1);
    assert_eq!(rig.list.list()[0].repetitions, 99);
    let repaints = rig.repaints;
    for ts in 0..7u64 {
        rig.messages.push_back(note_on(ts, PortNb::One, 0x40));
    }
    let command = rig.step(Event::Timeout);
    rig.settle(command);
    assert!(rig.messages.is_empty());
    assert_eq!(rig.repaints, repaints);
}

#[test]
fn a_repaint_is_asked_for_when_an_earlier_batch_of_the_round_changed_the_list() {
    let mut rig = Rig::new(&[("DeviceA", 10)]);
    let command = rig.start();
    rig.settle(command);
    // The first batch fills the row up; the second changes nothing.
    for ts in 0..98u64 {
        rig.messages.push_back(note_on(ts, PortNb::One, 0x40));
    }
    while !rig.messages.is_empty() {
        let command = rig.step(Event::Timeout);
        rig.settle(command);
    }
    assert_eq!(rig.list.list()[0].repetitions, 98);
    let repaints = rig.repaints;
    for ts in 0..8u64 {
        rig.messages.push_back(note_on(ts, PortNb::One, 0x40));
    }
    let command = rig.step(Event::Timeout);
    rig.settle(command);
    assert_eq!(rig.list.list()[0].repetitions, 99);
    assert_eq!(rig.repaints, repaints + 1);
}

#[test]
fn shutdown_finishes_its_round() {
    let mut rig = Rig::new(&[("DeviceA", 10)]);
    let command = rig.start();
    rig.settle(command);
    for ts in 0..3u64 {
        rig.messages.push_back(note_on(ts, PortNb::One, ts as u8));
    }
    rig.trace.clear();
    let mut command = rig.step(Event::Request(Request::Shutdown));
    assert_eq!(rig.controller.phase(), Phase::ShuttingDown);
    while let Some(next) = rig.carry_out(command) {
        command = next;
    }
    assert_eq!(rig.trace, vec!["drain", "drain", "exit"]);
    assert_eq!(rig.list.list().len(), 3);
    assert_eq!(rig.repaints, 1);
    assert!(!rig.controller.is_active());
    assert!(!rig.controller.awaits(&Event::Timeout));
    assert!(!rig.controller.awaits(&Event::Request(Request::RefreshPorts)));
}

#[test]
fn the_controller_stops_when_nobody_can_ask_any_more() {
    let mut rig = Rig::new(&[("DeviceA", 10)]);
    let command = rig.start();
    rig.settle(command);
    let command = rig.step(Event::RequestsClosed);
    assert!(matches!(command, Command::Exit));
    assert!(!rig.controller.is_active());
}

#[test]
fn the_controller_stops_when_nobody_can_send_any_more() {
    let mut rig = Rig::new(&[("DeviceA", 10)]);
    let command = rig.start();
    rig.settle(command);
    let command = rig.step(Event::Timeout);
    assert!(matches!(command, Command::Drain));
    let command = rig.step(Event::MessagesClosed);
    assert!(matches!(command, Command::Exit));
    assert!(!rig.controller.is_active());
}

#[test]
fn the_controller_awaits_the_answer_to_its_command() {
    let mut rig = Rig::new(&[("DeviceA", 10)]);
    assert!(!rig.controller.awaits(&Event::Timeout));
    let command = rig.start();
    assert!(matches!(command, Command::Enumerate { .. }));
    assert!(rig.controller.awaits(&Event::Found(Ok(vec![]))));
    assert!(!rig.controller.awaits(&Event::Timeout));
    assert!(!rig.controller.awaits(&Event::Closed(Session(1))));
    rig.settle(command);
    assert!(rig.controller.awaits(&Event::Timeout));
    assert!(rig.controller.awaits(&Event::RequestsClosed));
    assert!(rig.controller.awaits(&Event::Request(Request::Shutdown)));
    assert!(!rig.controller.awaits(&Event::MessagesClosed));
    assert!(!rig.controller.awaits(&Event::Opened(Err(Session(1)))));
    assert!(!rig.controller.is_draining());

    let command = rig.step(Event::Request(Request::Connect((PortNb::One, "DeviceA".to_string()))));
    assert!(matches!(command, Command::Open { .. }));
    assert!(rig.controller.awaits(&Event::Opened(Err(Session(1)))));
    assert!(!rig.controller.awaits(&Event::Found(Ok(vec![]))));
}
