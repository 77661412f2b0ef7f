use crossbeam_channel::unbounded;
use midi_sniffer::midi::msg::Origin;
use midi_sniffer::midi::port::PortNb;
use midi_sniffer::ui::controller::MSG_LIST_BATCH_SIZE;
use midi_sniffer::ui::inbox::Taken::{Closed, Empty, Message};
use midi_sniffer::ui::inbox::{gather, take_batch};

#[test]
fn an_empty_channel_gives_an_empty_batch() {
    let (_tx, rx) = unbounded::<u32>();
    assert_eq!(take_batch(&rx, 5), Some(vec![]));
}

#[test]
fn a_batch_holds_what_waits_in_order() {
    let (tx, rx) = unbounded();
    for n in 0..3u32 {
        tx.send(n).unwrap();
    }
    assert_eq!(take_batch(&rx, 5), Some(vec![0, 1, 2]));
    assert_eq!(take_batch(&rx, 5), Some(vec![]));
}

#[test]
fn a_batch_is_no_longer_than_asked() {
    let (tx, rx) = unbounded();
    for n in 0..12u32 {
        tx.send(n).unwrap();
    }
    assert_eq!(take_batch(&rx, 5), Some(vec![0, 1, 2, 3, 4]));
    assert_eq!(take_batch(&rx, 5), Some(vec![5, 6, 7, 8, 9]));
    assert_eq!(take_batch(&rx, 5), Some(vec![10, 11]));
    assert_eq!(take_batch(&rx, 0), Some(vec![]));
}

#[test]
fn a_closed_channel_is_emptied_first() {
    let (tx, rx) = unbounded();
    tx.send(1u32).unwrap();
    tx.send(2u32).unwrap();
    drop(tx);
    assert_eq!(take_batch(&rx, 5), Some(vec![1, 2]));
    assert_eq!(take_batch(&rx, 5), None);
    assert_eq!(take_batch(&rx, 5), None);
}

#[test]
fn origins_travel_through_a_channel() {
    let (tx, rx) = unbounded();
    for ts in 0..7u64 {
        tx.send(Origin::new(ts, PortNb::One, &[0xF8])).unwrap();
    }
    let batch = take_batch(&rx, MSG_LIST_BATCH_SIZE).unwrap();
    assert_eq!(batch.len(), 5);
    assert_eq!(batch[0].ts, 0);
    assert_eq!(batch[4].ts, 4);
    let batch = take_batch(&rx, MSG_LIST_BATCH_SIZE).unwrap();
    assert_eq!(batch.len(), 2);
    assert_eq!(batch[1].ts, 6);
}

#[test]
fn no_batch_is_asked_for_without_a_look() {
    let (tx, rx) = unbounded();
    tx.send(1u32).unwrap();
    drop(tx);
    assert_eq!(take_batch(&rx, 0), Some(vec![]));
    assert_eq!(take_batch(&rx, 1), Some(vec![1]));
    assert_eq!(take_batch(&rx, 0), Some(vec![]));
    assert_eq!(take_batch(&rx, 1), None);
}

#[test]
fn a_batch_is_gathered_from_the_looks() {
    assert_eq!(gather::<u32>(vec![], 5), Some(vec![]));
    assert_eq!(gather(vec![Message(1), Message(2), Empty], 5), Some(vec![1, 2]));
    assert_eq!(gather(vec![Message(1), Message(2), Closed], 5), Some(vec![1, 2]));
    assert_eq!(gather(vec![Message(1), Message(2), Message(3)], 3), Some(vec![1, 2, 3]));
    assert_eq!(gather::<u32>(vec![Empty], 5), Some(vec![]));
    assert_eq!(gather::<u32>(vec![Closed], 5), None);
    assert_eq!(gather::<u32>(vec![Closed], 1), None);
}

#[test]
fn gathering_stops_at_the_first_look_that_found_nothing() {
    assert_eq!(gather(vec![Message(1), Empty, Message(2)], 5), Some(vec![1]));
    assert_eq!(gather(vec![Empty, Message(2)], 5), Some(vec![]));
    assert_eq!(gather(vec![Message(1), Closed, Message(2), Message(3)], 5), Some(vec![1]));
    assert_eq!(gather(vec![Closed, Message(2)], 5), None);
    assert_eq!(gather::<u32>(vec![Empty, Closed], 5), Some(vec![]));
}

#[test]
fn gathering_stops_when_the_batch_is_full() {
    assert_eq!(gather(vec![Message(1), Message(2), Message(3)], 2), Some(vec![1, 2]));
    assert_eq!(gather(vec![Message(1), Message(2), Message(3)], 1), Some(vec![1]));
    assert_eq!(gather(vec![Message(1), Message(2)], 0), Some(vec![]));
    assert_eq!(gather::<u32>(vec![Closed], 0), Some(vec![]));
}
