//! Taking in what waits in a channel.

use vstd::prelude::*;

verus! {

/// The receiving end of a channel of `crossbeam_channel`. The library looks
/// into it and never waits on it.
#[verifier::external_type_specification]
#[verifier::external_body]
#[verifier::reject_recursive_types(T)]
pub struct ExReceiver<T>(crossbeam_channel::Receiver<T>);

/// What a look into a channel found.
#[derive(Debug)]
pub enum Taken<T> {
    /// A message that was waiting.
    Message(T),
    /// Nothing, for now.
    Empty,
    /// Nothing, and nobody is left to send.
    Closed,
}

/// Calls `crossbeam_channel::Receiver::try_recv`, which returns at once.
///
/// Trusted: nothing is claimed of what it finds, which depends on what the
/// senders did meanwhile.
#[verifier::external_body]
fn try_recv<T>(rx: &crossbeam_channel::Receiver<T>) -> (taken: Taken<T>) {
    match rx.try_recv() {
        Ok(message) => Taken::Message(message),
        Err(crossbeam_channel::TryRecvError::Empty) => Taken::Empty,
        Err(crossbeam_channel::TryRecvError::Disconnected) => Taken::Closed,
    }
}

/// Takes the messages that wait in a channel, oldest first and `max` at
/// most, without waiting for more. `None` says that the channel is closed and
/// nothing was left in it. What it returns is `gather` of the looks it made.
pub fn take_batch<T>(rx: &crossbeam_channel::Receiver<T>, max: usize) -> (batch: Option<Vec<T>>)
    ensures
        exists|looks: Seq<Taken<T>>| #[trigger]
            batch_of(looks, max as nat) == contents(batch) && looks.len() <= max,
        batch is Some ==> batch->0@.len() <= max,
        max == 0 ==> batch is Some && batch->0@.len() == 0,
{
    let mut looks: Vec<Taken<T>> = Vec::new();
    let mut more = true;
    while more && looks.len() < max
        invariant
            looks@.len() <= max,
        decreases max - looks@.len() + (if more { 1int } else { 0int }),
    {
        let taken = try_recv(rx);
        more = match taken {
            Taken::Message(_) => true,
            _ => false,
        };
        looks.push(taken);
    }
    proof {
        lemma_batch_is_short(looks@, max as nat);
    }
    gather(looks, max)
}

/// The messages that a run of looks into a channel yields, `max` at most:
/// a look adds its message if every look before it found a message and
/// the batch is not full.
pub open spec fn messages_of<T>(looks: Seq<Taken<T>>, max: nat) -> Seq<T>
    decreases looks.len(),
{
    if looks.len() == 0 {
        Seq::empty()
    } else {
        let before = messages_of(looks.drop_last(), max);
        if before.len() == looks.len() - 1 && before.len() < max && looks.last() is Message {
            before.push(looks.last()->Message_0)
        } else {
            before
        }
    }
}

/// The batch that a run of looks yields, `max` at most: none where a batch was
/// asked for and the first look found the channel closed; else the messages
/// found before the first look that found none.
pub open spec fn batch_of<T>(looks: Seq<Taken<T>>, max: nat) -> Option<Seq<T>> {
    if max > 0 && looks.len() > 0 && looks[0] is Closed {
        None
    } else {
        Some(messages_of(looks, max))
    }
}

/// What a batch holds, if there is one.
pub open spec fn contents<T>(batch: Option<Vec<T>>) -> Option<Seq<T>> {
    match batch {
        Some(batch) => Some(batch@),
        None => None,
    }
}

/// A run of looks yields no more messages than it has looks, and no more
/// than were asked for.
pub proof fn lemma_batch_is_short<T>(looks: Seq<Taken<T>>, max: nat)
    ensures
        messages_of(looks, max).len() <= looks.len(),
        messages_of(looks, max).len() <= max,
    decreases looks.len(),
{
    if looks.len() > 0 {
        lemma_batch_is_short(looks.drop_last(), max);
    }
}

/// Makes a batch of what a run of looks into a channel found, `max` messages
/// at most.
pub fn gather<T>(looks: Vec<Taken<T>>, max: usize) -> (batch: Option<Vec<T>>)
    ensures
        contents(batch) == batch_of(looks@, max as nat),
{
    let ghost all = looks@;
    let mut batch: Vec<T> = Vec::with_capacity(looks.len());
    let mut seen: usize = 0;
    let mut closed = false;
    for taken in it: looks
        invariant
            all == it.seq(),
            all.len() <= usize::MAX,
            seen == it.index(),
            batch@ == messages_of(all.take(seen as int), max as nat),
            closed == (max > 0 && seen > 0 && all[0] is Closed),
    {
        proof {
            assert(all.take(seen + 1).drop_last() =~= all.take(seen as int));
            assert(all.take(seen + 1).last() == taken);
            lemma_batch_is_short(all.take(seen as int), max as nat);
        }
        let first = seen == 0;
        let in_line = batch.len() == seen && batch.len() < max;
        match taken {
            Taken::Message(message) => {
                if in_line {
                    batch.push(message);
                }
            },
            Taken::Empty => {},
            Taken::Closed => {
                if first && max > 0 {
                    closed = true;
                }
            },
        }
        seen += 1;
    }
    assert(all.take(all.len() as int) =~= all);
    if closed {
        None
    } else {
        Some(batch)
    }
}

} // verus!
