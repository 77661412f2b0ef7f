//! Incoming messages: where they came from and what they decode to.

use vstd::prelude::*;
use vstd::slice::slice_to_vec;
use super::port::PortNb;

verus! {

/// A decoded MIDI message, as `midi_msg` represents it. The library carries
/// it and never looks inside.
#[verifier::external_type_specification]
#[verifier::external_body]
pub struct ExMidiMsg(midi_msg::MidiMsg);

/// The reason `midi_msg` gives for not decoding a buffer. The library carries
/// it and never looks inside.
#[verifier::external_type_specification]
#[verifier::external_body]
pub struct ExParseError(midi_msg::ParseError);

/// What `midi_msg::MidiMsg::from_midi` makes of a buffer: the message it
/// decodes to, or the reason why it decodes to none.
pub uninterp spec fn midi_decoding(bytes: Seq<u8>) -> Result<midi_msg::MidiMsg, midi_msg::ParseError>;

/// Where and when a buffer arrived.
#[derive(Debug)]
pub struct Origin {
    /// The driver's time stamp.
    pub ts: u64,
    /// The input the buffer arrived on.
    pub port_nb: PortNb,
    /// The bytes as they arrived.
    pub buffer: Vec<u8>,
}

impl Origin {
    pub fn new(ts: u64, port_nb: PortNb, buffer: &[u8]) -> (origin: Self)
        ensures
            origin.ts == ts,
            origin.port_nb == port_nb,
            origin.buffer@ == buffer@,
    {
        Self { ts, port_nb, buffer: slice_to_vec(buffer) }
    }
}

/// A buffer that decoded.
#[derive(Debug)]
pub struct Msg {
    pub origin: Origin,
    pub msg: midi_msg::MidiMsg,
}

/// Why a buffer has no decoded message.
#[derive(Debug)]
pub enum Failure {
    /// The decoder rejected the buffer.
    Parse(midi_msg::ParseError),
    /// The buffer is of a shape that is not handed to the decoder.
    Unsupported,
}

/// A buffer that did not decode.
#[derive(Debug)]
pub struct Error {
    pub origin: Origin,
    pub err: Failure,
}

/// An incoming buffer with the outcome of decoding it.
pub type Parsed = Result<Msg, Error>;

/// The origin of a buffer, decoded or not.
pub open spec fn origin_of(parsed: Parsed) -> Origin {
    match parsed {
        Ok(msg) => msg.origin,
        Err(err) => err.origin,
    }
}

/// At the given place stands a universal system-exclusive message that ends
/// right after its first byte: `F0`, then `7E` or `7F`, then `F7`.
pub open spec fn is_bare_universal_sysex_at(bytes: Seq<u8>, at: int) -> bool {
    &&& 0 <= at
    &&& at + 2 < bytes.len()
    &&& bytes[at] == 0xF0
    &&& (bytes[at + 1] == 0x7E || bytes[at + 1] == 0x7F)
    &&& bytes[at + 2] == 0xF7
}

/// Somewhere in the buffer stands a universal system-exclusive message that
/// ends right after its first byte.
pub open spec fn has_bare_universal_sysex(bytes: Seq<u8>) -> bool {
    exists|at: int| is_bare_universal_sysex_at(bytes, at)
}

/// Where the controller number of the control change at `at` stands: behind
/// the status byte, if the control change repeats the one that opens the
/// buffer, else at `at` itself.
pub open spec fn controller_at(bytes: Seq<u8>, at: int) -> int {
    if 0 <= at < bytes.len() && bytes[at] == bytes[0] {
        at + 1
    } else {
        at
    }
}

/// At `at` stands a control change, with or without its status byte, of the
/// given controller number and value.
pub open spec fn has_control_change_at(bytes: Seq<u8>, at: int, controller: u8, value: u8) -> bool {
    let c = controller_at(bytes, at);
    0 <= at && c + 1 < bytes.len() && bytes[c] == controller && bytes[c + 1] == value
}

/// The buffer opens with the two control changes that select the coarse
/// tuning parameter, in either order: controller 101 with value 0 and
/// controller 100 with value 2.
pub open spec fn selects_coarse_tuning(bytes: Seq<u8>) -> bool {
    &&& bytes.len() >= 3
    &&& 0xB0 <= bytes[0] <= 0xBF
    &&& {
        ||| bytes[1] == 101 && bytes[2] == 0 && has_control_change_at(bytes, 3, 100, 2)
        ||| bytes[1] == 100 && bytes[2] == 2 && has_control_change_at(bytes, 3, 101, 0)
    }
}

/// From `at` on stand control changes that enter a value for the selected
/// parameter, and one of them is a data entry (controller 6) with an odd
/// value. Before it may stand data entries with an even value and the fine
/// parts of data entries (controller 38), and nothing else.
pub open spec fn enters_odd_value(bytes: Seq<u8>, at: int) -> bool
    decreases bytes.len() - at,
{
    let c = controller_at(bytes, at);
    if at < 0 || c + 1 >= bytes.len() || bytes[c + 1] > 127 {
        false
    } else if bytes[c] == 6 {
        bytes[c + 1] % 2 == 1 || enters_odd_value(bytes, c + 2)
    } else if bytes[c] == 38 {
        enters_odd_value(bytes, c + 2)
    } else {
        false
    }
}

/// The buffer selects the coarse tuning parameter and enters an odd value
/// for it.
pub open spec fn enters_odd_coarse_tuning(bytes: Seq<u8>) -> bool {
    selects_coarse_tuning(bytes) && enters_odd_value(bytes, controller_at(bytes, 3) + 2)
}

/// The buffers that are handed to the decoder: all but those on which it may
/// stop the program instead of answering. It may do so where it comes upon a
/// bare universal system-exclusive message, at the start of the buffer or
/// behind a message that it tries to extend by what follows; every buffer
/// that holds one is left out. And it does so where the buffer selects the
/// coarse tuning parameter and enters an odd value for it.
pub open spec fn decodable(bytes: Seq<u8>) -> bool {
    !has_bare_universal_sysex(bytes) && !enters_odd_coarse_tuning(bytes)
}

/// The outcome for a buffer of the given origin, given what the decoder made
/// of its bytes.
pub open spec fn tagged(
    origin: Origin,
    decoded: Result<midi_msg::MidiMsg, midi_msg::ParseError>,
) -> Parsed {
    match decoded {
        Ok(msg) => Ok(Msg { origin, msg }),
        Err(err) => Err(Error { origin, err: Failure::Parse(err) }),
    }
}

/// The outcome of parsing a buffer of the given origin.
pub open spec fn parsed(origin: Origin) -> Parsed {
    if decodable(origin.buffer@) {
        tagged(origin, midi_decoding(origin.buffer@))
    } else {
        Err(Error { origin, err: Failure::Unsupported })
    }
}

/// Calls `midi_msg::MidiMsg::from_midi` and drops the count of bytes read.
///
/// Trusted: the decoder starts from a fresh context on every call, so what it
/// returns depends on the bytes alone. Left out are the buffers on which its
/// source may stop the program. It slices past the end of a bare universal
/// system-exclusive message, which it can come upon at the start of a buffer
/// and, since it tries to extend a note or a control change by the message
/// that follows, further on. And where the control changes that open a
/// buffer select the coarse tuning parameter and a data entry then enters an
/// odd value, it subtracts below the range of its result.
#[verifier::external_body]
fn from_midi(buffer: &Vec<u8>) -> (decoded: Result<midi_msg::MidiMsg, midi_msg::ParseError>)
    requires
        decodable(buffer@),
    ensures
        decoded == midi_decoding(buffer@),
{
    midi_msg::MidiMsg::from_midi(buffer.as_slice()).map(|(msg, _len)| msg)
}

/// Tells whether somewhere in the buffer stands a universal system-exclusive
/// message that ends right after its first byte.
fn finds_bare_universal_sysex(buffer: &Vec<u8>) -> (found: bool)
    ensures
        found == has_bare_universal_sysex(buffer@),
{
    let n = buffer.len();
    if n < 3 {
        return false;
    }
    let mut i: usize = 0;
    while i < n - 2
        invariant
            n == buffer@.len(),
            n >= 3,
            forall|at: int| 0 <= at < i ==> !is_bare_universal_sysex_at(buffer@, at),
        decreases n - i,
    {
        if buffer[i] == 0xF0 && (buffer[i + 1] == 0x7E || buffer[i + 1] == 0x7F) && buffer[i + 2]
            == 0xF7 {
            assert(is_bare_universal_sysex_at(buffer@, i as int));
            return true;
        }
        i += 1;
    }
    false
}

/// Where the controller number of the control change at `at` stands.
fn controller_place(buffer: &Vec<u8>, at: usize) -> (c: usize)
    requires
        at <= buffer@.len(),
    ensures
        c == controller_at(buffer@, at as int),
        at <= c <= at + 1,
        c <= buffer@.len(),
{
    if at < buffer.len() && buffer[at] == buffer[0] {
        at + 1
    } else {
        at
    }
}

/// Tells whether at `at` stands a control change of the given controller
/// number and value.
fn finds_control_change_at(buffer: &Vec<u8>, at: usize, controller: u8, value: u8) -> (found: bool)
    requires
        at <= buffer@.len(),
    ensures
        found == has_control_change_at(buffer@, at as int, controller, value),
{
    let c = controller_place(buffer, at);
    c < buffer.len() && c + 1 < buffer.len() && buffer[c] == controller && buffer[c + 1] == value
}

/// Tells whether from `from` on stand control changes that enter a value,
/// one of them a data entry with an odd value.
fn finds_odd_value(buffer: &Vec<u8>, from: usize) -> (found: bool)
    requires
        from <= buffer@.len(),
    ensures
        found == enters_odd_value(buffer@, from as int),
{
    let n = buffer.len();
    let mut at = from;
    loop
        invariant
            n == buffer@.len(),
            at <= n,
            enters_odd_value(buffer@, at as int) == enters_odd_value(buffer@, from as int),
        decreases n - at,
    {
        let c = controller_place(buffer, at);
        if c >= n || c + 1 >= n || buffer[c + 1] > 127 {
            return false;
        }
        if buffer[c] == 6 {
            if buffer[c + 1] % 2 == 1 {
                return true;
            }
        } else if buffer[c] != 38 {
            return false;
        }
        at = c + 2;
    }
}

/// Tells whether a buffer is handed to the decoder.
pub fn is_decodable(buffer: &Vec<u8>) -> (yes: bool)
    ensures
        yes == decodable(buffer@),
{
    if finds_bare_universal_sysex(buffer) {
        return false;
    }
    if buffer.len() < 3 || buffer[0] < 0xB0 || buffer[0] > 0xBF {
        return true;
    }
    let selects = (buffer[1] == 101 && buffer[2] == 0 && finds_control_change_at(buffer, 3, 100, 2))
        || (buffer[1] == 100 && buffer[2] == 2 && finds_control_change_at(buffer, 3, 101, 0));
    if !selects {
        return true;
    }
    let c = controller_place(buffer, 3);
    !finds_odd_value(buffer, c + 2)
}

/// Joins an origin with what the decoder made of its bytes.
pub fn tag(origin: Origin, decoded: Result<midi_msg::MidiMsg, midi_msg::ParseError>) -> (res:
    Parsed)
    ensures
        res == tagged(origin, decoded),
{
    match decoded {
        Ok(msg) => Ok(Msg { origin, msg }),
        Err(err) => Err(Error { origin, err: Failure::Parse(err) }),
    }
}

/// Decodes an incoming buffer. A buffer that does not decode is no fault of
/// the caller's: it comes back as an `Error` that still holds the origin.
pub fn parse(origin: Origin) -> (res: Parsed)
    ensures
        res == parsed(origin),
        origin_of(res) == origin,
{
    if is_decodable(&origin.buffer) {
        let decoded = from_midi(&origin.buffer);
        tag(origin, decoded)
    } else {
        Err(Error { origin, err: Failure::Unsupported })
    }
}

/// The outcomes of parsing buffers of the given origins, one by one.
pub open spec fn parsed_all(origins: Seq<Origin>) -> Seq<Parsed> {
    origins.map_values(|origin: Origin| parsed(origin))
}

/// Decodes incoming buffers, each for itself, and keeps their order.
pub fn parse_all(origins: Vec<Origin>) -> (res: Vec<Parsed>)
    ensures
        res@ == parsed_all(origins@),
{
    let mut res: Vec<Parsed> = Vec::new();
    let ghost all = origins@;
    for origin in it: origins
        invariant
            all == it.seq(),
            res@ == parsed_all(all.take(it.index() as int)),
    {
        proof {
            let k = it.index() as int;
            assert(parsed_all(all.take(k + 1)) =~= parsed_all(all.take(k)).push(parsed(origin)));
        }
        res.push(parse(origin));
    }
    assert(all.take(all.len() as int) =~= all);
    res
}

/// The origin of a buffer, decoded or not.
pub fn origin(parsed: &Parsed) -> (origin: &Origin)
    ensures
        *origin == origin_of(*parsed),
{
    match parsed {
        Ok(msg) => &msg.origin,
        Err(err) => &err.origin,
    }
}

} // verus!
