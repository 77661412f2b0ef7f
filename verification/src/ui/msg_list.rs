//! The message list: incoming messages in order of arrival, with a message
//! that repeats the one before it counted instead of listed again.

use vstd::prelude::*;
use vstd::string::StringExecFns;
use crate::midi::msg::{origin_of, Parsed};
use crate::midi::port::PortNb;

verus! {

/// The highest count of repetitions that a row keeps.
pub const MAX_REPETITIONS: u8 = 99;

/// A row of the message list.
#[derive(Debug)]
pub struct MsgParseResult {
    /// The first message of the row, decoded or not.
    pub res: Parsed,
    /// How many times in a row the message arrived, up to `MAX_REPETITIONS`.
    pub repetitions: u8,
}

/// The row is for the same input and the same bytes as the message.
pub open spec fn repeats(row: MsgParseResult, msg: Parsed) -> bool {
    origin_of(row.res).port_nb == origin_of(msg).port_nb && origin_of(row.res).buffer@
        == origin_of(msg).buffer@
}

/// The message continues the newest row of the list.
pub open spec fn continues(list: Seq<MsgParseResult>, msg: Parsed) -> bool {
    list.len() > 0 && repeats(list.last(), msg)
}

/// The list after a message arrived.
pub open spec fn pushed(list: Seq<MsgParseResult>, msg: Parsed) -> Seq<MsgParseResult> {
    if continues(list, msg) {
        let last = list.last();
        if last.repetitions < MAX_REPETITIONS {
            list.update(
                list.len() - 1,
                MsgParseResult { res: last.res, repetitions: (last.repetitions + 1) as u8 },
            )
        } else {
            list
        }
    } else {
        list.push(MsgParseResult { res: msg, repetitions: 1 })
    }
}

/// Whether the arrival of a message changes the list.
pub open spec fn push_status(list: Seq<MsgParseResult>, msg: Parsed) -> Status {
    if continues(list, msg) && list.last().repetitions >= MAX_REPETITIONS {
        Status::Unchanged
    } else {
        Status::Updated
    }
}

/// The list after the messages arrived one after the other.
pub open spec fn pushed_all(list: Seq<MsgParseResult>, msgs: Seq<Parsed>) -> Seq<MsgParseResult>
    decreases msgs.len(),
{
    if msgs.len() == 0 {
        list
    } else {
        pushed(pushed_all(list, msgs.drop_last()), msgs.last())
    }
}

/// Whether any of the messages, arriving one after the other, changes the list.
pub open spec fn any_updated(list: Seq<MsgParseResult>, msgs: Seq<Parsed>) -> bool
    decreases msgs.len(),
{
    if msgs.len() == 0 {
        false
    } else {
        any_updated(list, msgs.drop_last()) || push_status(
            pushed_all(list, msgs.drop_last()),
            msgs.last(),
        ) == Status::Updated
    }
}

/// Every row counts at least one arrival and at most `MAX_REPETITIONS`.
pub open spec fn counts_in_range(list: Seq<MsgParseResult>) -> bool {
    forall|i: int| 0 <= i < list.len() ==> 1 <= (#[trigger] list[i]).repetitions <= MAX_REPETITIONS
}

/// Two messages are for the same input and hold the same bytes.
pub open spec fn same_source(a: Parsed, b: Parsed) -> bool {
    origin_of(a).port_nb == origin_of(b).port_nb && origin_of(a).buffer@ == origin_of(b).buffer@
}

/// The smaller of a count and `MAX_REPETITIONS`.
pub open spec fn capped(count: int) -> u8 {
    if count < MAX_REPETITIONS {
        count as u8
    } else {
        MAX_REPETITIONS
    }
}

/// The digit for a value below sixteen.
pub open spec fn hex_char(value: u8) -> char {
    if value == 0 {
        '0'
    } else if value == 1 {
        '1'
    } else if value == 2 {
        '2'
    } else if value == 3 {
        '3'
    } else if value == 4 {
        '4'
    } else if value == 5 {
        '5'
    } else if value == 6 {
        '6'
    } else if value == 7 {
        '7'
    } else if value == 8 {
        '8'
    } else if value == 9 {
        '9'
    } else if value == 10 {
        'a'
    } else if value == 11 {
        'b'
    } else if value == 12 {
        'c'
    } else if value == 13 {
        'd'
    } else if value == 14 {
        'e'
    } else {
        'f'
    }
}

/// The two digits of a byte.
pub open spec fn hex_of(byte: u8) -> Seq<char> {
    seq![hex_char(byte / 16), hex_char(byte % 16)]
}

/// Bytes as text: two digits for each byte, and a space between bytes.
pub open spec fn hex_text(bytes: Seq<u8>) -> Seq<char>
    decreases bytes.len(),
{
    if bytes.len() == 0 {
        Seq::empty()
    } else if bytes.len() == 1 {
        hex_of(bytes[0])
    } else {
        hex_text(bytes.drop_last()) + seq![' '] + hex_of(bytes.last())
    }
}

/// The digit for a value below sixteen.
fn hex_digit(value: u8) -> (digit: &'static str)
    requires
        value < 16,
    ensures
        digit@ == seq![hex_char(value)],
{
    proof {
        reveal_strlit("0");
        reveal_strlit("1");
        reveal_strlit("2");
        reveal_strlit("3");
        reveal_strlit("4");
        reveal_strlit("5");
        reveal_strlit("6");
        reveal_strlit("7");
        reveal_strlit("8");
        reveal_strlit("9");
        reveal_strlit("a");
        reveal_strlit("b");
        reveal_strlit("c");
        reveal_strlit("d");
        reveal_strlit("e");
        reveal_strlit("f");
    }
    let digit = match value {
        0 => "0",
        1 => "1",
        2 => "2",
        3 => "3",
        4 => "4",
        5 => "5",
        6 => "6",
        7 => "7",
        8 => "8",
        9 => "9",
        10 => "a",
        11 => "b",
        12 => "c",
        13 => "d",
        14 => "e",
        _ => "f",
    };
    assert(digit@ =~= seq![hex_char(value)]);
    digit
}

/// The bytes of a message, for display.
#[derive(Debug)]
pub struct Buffer(pub Vec<u8>);

impl Buffer {
    /// The bytes as text: two digits for each byte, and a space between
    /// bytes.
    pub fn display(&self) -> (text: String)
        ensures
            text@ == hex_text(self.0@),
    {
        display(&self.0)
    }
}

/// Bytes as text: two digits for each byte, and a space between bytes.
pub fn display(bytes: &Vec<u8>) -> (text: String)
    ensures
        text@ == hex_text(bytes@),
{
    let mut text = String::new();
    let mut i: usize = 0;
    proof {
        reveal_strlit(" ");
    }
    while i < bytes.len()
        invariant
            i <= bytes@.len(),
            text@ == hex_text(bytes@.take(i as int)),
            " "@ == seq![' '],
        decreases bytes.len() - i,
    {
        let byte = bytes[i];
        proof {
            assert(bytes@.take(i + 1).drop_last() =~= bytes@.take(i as int));
            assert(bytes@.take(i + 1).last() == byte);
            assert(bytes@.take(1)[0] == bytes@[0]);
        }
        if i > 0 {
            text.append(" ");
        }
        text.append(hex_digit(byte / 16));
        text.append(hex_digit(byte % 16));
        assert(text@ =~= hex_text(bytes@.take(i + 1)));
        i += 1;
    }
    assert(bytes@.take(bytes@.len() as int) =~= bytes@);
    text
}

/// Whether a push changed the message list.
#[derive(Clone, Copy, Debug, PartialEq, Eq, Structural)]
pub enum Status {
    Unchanged,
    Updated,
}

impl Status {
    pub fn updated(&mut self)
        ensures
            *final(self) == Status::Updated,
    {
        *self = Status::Updated
    }

    pub fn was_updated(&self) -> (yes: bool)
        ensures
            yes == (*self == Status::Updated),
    {
        match self {
            Status::Updated => true,
            Status::Unchanged => false,
        }
    }
}

impl From<Parsed> for MsgParseResult {
    /// A row for a message that arrived once.
    fn from(res: Parsed) -> (row: Self) {
        MsgParseResult { res, repetitions: 1 }
    }
}

impl vstd::std_specs::convert::FromSpecImpl<Parsed> for MsgParseResult {
    open spec fn obeys_from_spec() -> bool {
        true
    }

    open spec fn from_spec(res: Parsed) -> Self {
        MsgParseResult { res, repetitions: 1 }
    }
}

impl MsgParseResult {
    /// A row for a message that arrived once.
    pub fn new(res: Parsed) -> (row: Self)
        ensures
            row == (MsgParseResult { res, repetitions: 1 }),
    {
        MsgParseResult { res, repetitions: 1 }
    }

    /// The time stamp of the row's first message.
    pub fn ts(&self) -> (ts: u64)
        ensures
            ts == origin_of(self.res).ts,
    {
        crate::midi::msg::origin(&self.res).ts
    }

    /// The input the row's messages arrived on.
    pub fn port_nb(&self) -> (port_nb: PortNb)
        ensures
            port_nb == origin_of(self.res).port_nb,
    {
        crate::midi::msg::origin(&self.res).port_nb
    }

    /// The bytes of the row's messages.
    pub fn raw(&self) -> (raw: &Vec<u8>)
        ensures
            raw@ == origin_of(self.res).buffer@,
    {
        &crate::midi::msg::origin(&self.res).buffer
    }

    /// The bytes of the row's messages as text.
    pub fn raw_str(&self) -> (text: String)
        ensures
            text@ == hex_text(origin_of(self.res).buffer@),
    {
        display(self.raw())
    }

    /// Tells whether the row's messages failed to decode.
    pub fn is_err(&self) -> (yes: bool)
        ensures
            yes == self.res is Err,
    {
        self.res.is_err()
    }

    /// Tells whether a message is for the same input and the same bytes as
    /// this row. What the bytes decode to plays no part.
    pub fn is_repeated_by(&self, msg: &Parsed) -> (yes: bool)
        ensures
            yes == repeats(*self, *msg),
    {
        let mine = crate::midi::msg::origin(&self.res);
        let theirs = crate::midi::msg::origin(msg);
        mine.port_nb == theirs.port_nb && same_bytes(&mine.buffer, &theirs.buffer)
    }
}

/// Tells whether two buffers hold the same bytes.
fn same_bytes(a: &Vec<u8>, b: &Vec<u8>) -> (yes: bool)
    ensures
        yes == (a@ == b@),
{
    if a.len() != b.len() {
        return false;
    }
    let mut i: usize = 0;
    while i < a.len()
        invariant
            i <= a.len(),
            a.len() == b.len(),
            forall|j: int| 0 <= j < i ==> a@[j] == b@[j],
        decreases a.len() - i,
    {
        if a[i] != b[i] {
            return false;
        }
        i += 1;
    }
    assert(a@ =~= b@);
    true
}

/// The message list.
pub struct MsgListPanel {
    list: Vec<MsgParseResult>,
}

impl View for MsgListPanel {
    type V = Seq<MsgParseResult>;

    /// The rows, oldest first.
    closed spec fn view(&self) -> Seq<MsgParseResult> {
        self.list@
    }
}

impl MsgListPanel {
    /// An empty list.
    pub fn new() -> (panel: Self)
        ensures
            panel@ == Seq::<MsgParseResult>::empty(),
    {
        Self { list: Vec::new() }
    }

    /// The rows, oldest first.
    pub fn list(&self) -> (list: &Vec<MsgParseResult>)
        ensures
            list@ == self@,
    {
        &self.list
    }

    /// Removes every row.
    pub fn clear(&mut self)
        ensures
            final(self)@ == Seq::<MsgParseResult>::empty(),
    {
        self.list.clear();
    }

    /// Takes in a message: a message for the same input and with the same
    /// bytes as the newest row is counted on that row, up to
    /// `MAX_REPETITIONS`; any other message gets a row of its own.
    #[must_use]
    pub fn push(&mut self, msg: Parsed) -> (status: Status)
        ensures
            final(self)@ == pushed(old(self)@, msg),
            status == push_status(old(self)@, msg),
            counts_in_range(old(self)@) ==> counts_in_range(final(self)@),
    {
        let n = self.list.len();
        if n > 0 && self.list[n - 1].is_repeated_by(&msg) {
            if self.list[n - 1].repetitions < MAX_REPETITIONS {
                let mut last = self.list.pop().unwrap();
                last.repetitions += 1;
                self.list.push(last);
                assert(self@ =~= pushed(old(self)@, msg));
                Status::Updated
            } else {
                Status::Unchanged
            }
        } else {
            self.list.push(MsgParseResult::new(msg));
            Status::Updated
        }
    }
}

/// A run of messages for one input and with the same bytes takes up one row,
/// which counts the messages up to `MAX_REPETITIONS`: a new row where the run
/// does not continue the newest row, else the newest row. Within the run, a
/// message changes the list as long as the row has not reached
/// `MAX_REPETITIONS`, and no longer after that.
pub proof fn lemma_run_takes_one_row(list: Seq<MsgParseResult>, run: Seq<Parsed>)
    requires
        run.len() >= 1,
        forall|i: int| 0 <= i < run.len() ==> same_source(#[trigger] run[i], run[0]),
    ensures
        !continues(list, run[0]) ==> pushed_all(list, run) == list.push(
            MsgParseResult { res: run[0], repetitions: capped(run.len() as int) },
        ),
        continues(list, run[0]) ==> pushed_all(list, run) == (if list.last().repetitions
            >= MAX_REPETITIONS {
            list
        } else {
            list.update(
                list.len() - 1,
                MsgParseResult {
                    res: list.last().res,
                    repetitions: capped(list.last().repetitions + run.len()),
                },
            )
        }),
        !continues(list, run[0]) ==> forall|k: int|
            0 <= k < run.len() ==> #[trigger] push_status(pushed_all(list, run.take(k)), run[k]) == (
            if k < MAX_REPETITIONS {
                Status::Updated
            } else {
                Status::Unchanged
            }),
    decreases run.len(),
{
    let n = run.len() as int;
    let head = run.drop_last();
    assert(run.take(n - 1) =~= head);
    if n == 1 {
        assert(pushed_all(list, head) == list);
        if continues(list, run[0]) && list.last().repetitions < MAX_REPETITIONS {
            assert(pushed_all(list, run) =~= list.update(
                list.len() - 1,
                MsgParseResult {
                    res: list.last().res,
                    repetitions: capped(list.last().repetitions + run.len()),
                },
            ));
        }
        assert forall|k: int| 0 <= k < run.len() implies run.take(k) =~= head by {}
    } else {
        assert(head[0] == run[0]);
        assert forall|i: int| 0 <= i < head.len() implies same_source(#[trigger] head[i], head[0]) by {
            assert(head[i] == run[i]);
        }
        lemma_run_takes_one_row(list, head);
        let mid = pushed_all(list, head);
        assert(same_source(run[n - 1], run[0]));
        if !continues(list, run[0]) {
            assert(mid.last().res == run[0]);
            assert(continues(mid, run.last()));
            assert(pushed_all(list, run) =~= list.push(
                MsgParseResult { res: run[0], repetitions: capped(n) },
            ));
            assert forall|k: int| 0 <= k < run.len() implies #[trigger] push_status(
                pushed_all(list, run.take(k)),
                run[k],
            ) == (if k < MAX_REPETITIONS {
                Status::Updated
            } else {
                Status::Unchanged
            }) by {
                if k < n - 1 {
                    assert(run.take(k) =~= head.take(k));
                    assert(run[k] == head[k]);
                } else {
                    assert(run.take(k) =~= head);
                }
            }
        } else {
            if list.last().repetitions >= MAX_REPETITIONS {
                assert(mid == list);
            } else {
                assert(continues(mid, run.last()));
                assert(pushed_all(list, run) =~= list.update(
                    list.len() - 1,
                    MsgParseResult {
                        res: list.last().res,
                        repetitions: capped(list.last().repetitions + n),
                    },
                ));
            }
        }
    }
}

/// Messages of which each differs from the one before it, in its input or in
/// its bytes, get one row each, every row counting one arrival.
pub proof fn lemma_distinct_neighbours_take_a_row_each(list: Seq<MsgParseResult>, msgs: Seq<Parsed>)
    requires
        msgs.len() > 0 ==> !continues(list, msgs[0]),
        forall|i: int| 0 < i < msgs.len() ==> !same_source(#[trigger] msgs[i], msgs[i - 1]),
    ensures
        pushed_all(list, msgs) == list + msgs.map_values(
            |msg: Parsed| MsgParseResult { res: msg, repetitions: 1 },
        ),
        forall|k: int|
            0 <= k < msgs.len() ==> #[trigger] push_status(pushed_all(list, msgs.take(k)), msgs[k])
                == Status::Updated,
    decreases msgs.len(),
{
    let rows = |msg: Parsed| MsgParseResult { res: msg, repetitions: 1 };
    if msgs.len() == 0 {
        assert(list + msgs.map_values(rows) =~= list);
    } else {
        let n = msgs.len() as int;
        let head = msgs.drop_last();
        assert forall|i: int| 0 < i < head.len() implies !same_source(
            #[trigger] head[i],
            head[i - 1],
        ) by {
            assert(head[i] == msgs[i] && head[i - 1] == msgs[i - 1]);
        }
        if head.len() > 0 {
            assert(head[0] == msgs[0]);
        }
        lemma_distinct_neighbours_take_a_row_each(list, head);
        let mid = pushed_all(list, head);
        assert(mid == list + head.map_values(rows));
        if n > 1 {
            assert(mid.last() == rows(head.last()));
            assert(head.last() == msgs[n - 2]);
            assert(!same_source(msgs[n - 1], msgs[n - 2]));
            assert(!continues(mid, msgs.last()));
        } else {
            assert(mid =~= list);
        }
        assert(pushed_all(list, msgs) =~= list + msgs.map_values(rows));
        assert forall|k: int| 0 <= k < msgs.len() implies #[trigger] push_status(
            pushed_all(list, msgs.take(k)),
            msgs[k],
        ) == Status::Updated by {
            if k < n - 1 {
                assert(msgs.take(k) =~= head.take(k));
                assert(msgs[k] == head[k]);
            } else {
                assert(msgs.take(k) =~= head);
            }
        }
    }
}

/// How the messages are cut into batches makes no difference: taking in one
/// batch after another comes to the same list, and to the same answer on
/// whether the list changed, as taking in all the messages at once.
pub proof fn lemma_batches_make_no_difference(
    list: Seq<MsgParseResult>,
    first: Seq<Parsed>,
    second: Seq<Parsed>,
)
    ensures
        pushed_all(pushed_all(list, first), second) == pushed_all(list, first + second),
        (any_updated(list, first) || any_updated(pushed_all(list, first), second)) == any_updated(
            list,
            first + second,
        ),
    decreases second.len(),
{
    if second.len() == 0 {
        assert(first + second =~= first);
    } else {
        lemma_batches_make_no_difference(list, first, second.drop_last());
        assert((first + second).drop_last() =~= first + second.drop_last());
        assert((first + second).last() == second.last());
    }
}

/// The counts stay in range whatever arrives.
pub proof fn lemma_counts_stay_in_range(list: Seq<MsgParseResult>, msgs: Seq<Parsed>)
    requires
        counts_in_range(list),
    ensures
        counts_in_range(pushed_all(list, msgs)),
    decreases msgs.len(),
{
    if msgs.len() > 0 {
        lemma_counts_stay_in_range(list, msgs.drop_last());
    }
}

} // verus!
