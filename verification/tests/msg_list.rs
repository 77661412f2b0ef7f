use midi_sniffer::midi::msg::{parse, Origin, Parsed};
use midi_sniffer::midi::port::PortNb;
use midi_sniffer::ui::msg_list::{display, Buffer, MsgListPanel, MsgParseResult, Status, MAX_REPETITIONS};

fn msg(ts: u64, port_nb: PortNb, bytes: &[u8]) -> Parsed {
    parse(Origin::new(ts, port_nb, bytes))
}

const NOTE_ON: [u8; 3] = [0x90, 0x40, 0x7F];
const NOTE_OFF: [u8; 3] = [0x80, 0x40, 0x00];

#[test]
fn hundred_and_fifty_identical_events_make_one_capped_row() {
    let mut panel = MsgListPanel::new();
    let mut unchanged = 0;
    let mut updated = 0;
    for ts in 0..150u64 {
        match panel.push(msg(ts, PortNb::One, &NOTE_ON)) {
            Status::Unchanged => unchanged += 1,
            Status::Updated => updated += 1,
        }
    }
    assert_eq!(panel.list().len(), 1);
    assert_eq!(panel.list()[0].repetitions, 99);
    assert_eq!(unchanged, 51);
    assert_eq!(updated, 99);
}

#[test]
fn a_run_counts_its_events() {
    for count in [1u64, 2, 5, 98, 99] {
        let mut panel = MsgListPanel::new();
        for ts in 0..count {
            assert!(panel.push(msg(ts, PortNb::Two, &NOTE_ON)).was_updated());
        }
        assert_eq!(panel.list().len(), 1);
        assert_eq!(panel.list()[0].repetitions as u64, count);
    }
}

#[test]
fn the_hundredth_event_of_a_run_changes_nothing() {
    let mut panel = MsgListPanel::new();
    for ts in 0..99u64 {
        assert_eq!(panel.push(msg(ts, PortNb::One, &NOTE_ON)), Status::Updated);
    }
    assert_eq!(panel.push(msg(99, PortNb::One, &NOTE_ON)), Status::Unchanged);
    assert_eq!(panel.list()[0].repetitions, MAX_REPETITIONS);
    assert_eq!(panel.list().len(), 1);
}

#[test]
fn a_run_keeps_its_first_event() {
    let mut panel = MsgListPanel::new();
    let _ = panel.push(msg(17, PortNb::One, &NOTE_ON));
    let _ = panel.push(msg(18, PortNb::One, &NOTE_ON));
    let _ = panel.push(msg(19, PortNb::One, &NOTE_ON));
    assert_eq!(panel.list()[0].ts(), 17);
    assert_eq!(panel.list()[0].repetitions, 3);
}

#[test]
fn events_that_differ_from_their_neighbour_get_a_row_each() {
    let mut panel = MsgListPanel::new();
    let events: Vec<(PortNb, &[u8])> = vec![
        (PortNb::One, &NOTE_ON),
        (PortNb::One, &NOTE_OFF),
        (PortNb::Two, &NOTE_OFF),
        (PortNb::Two, &NOTE_ON),
        (PortNb::One, &NOTE_ON),
    ];
    for (ts, (port_nb, bytes)) in events.iter().enumerate() {
        assert_eq!(panel.push(msg(ts as u64, *port_nb, bytes)), Status::Updated);
    }
    assert_eq!(panel.list().len(), events.len());
    for (row, (port_nb, bytes)) in panel.list().iter().zip(events.iter()) {
        assert_eq!(row.repetitions, 1);
        assert_eq!(row.port_nb(), *port_nb);
        assert_eq!(row.raw().as_slice(), *bytes);
    }
}

#[test]
fn identical_events_apart_are_not_merged() {
    let mut panel = MsgListPanel::new();
    let _ = panel.push(msg(0, PortNb::One, &NOTE_ON));
    let _ = panel.push(msg(1, PortNb::One, &NOTE_OFF));
    let _ = panel.push(msg(2, PortNb::One, &NOTE_ON));
    assert_eq!(panel.list().len(), 3);
    assert!(panel.list().iter().all(|row| row.repetitions == 1));
}

#[test]
fn the_same_bytes_on_the_other_port_are_not_merged() {
    let mut panel = MsgListPanel::new();
    let _ = panel.push(msg(0, PortNb::One, &NOTE_ON));
    let _ = panel.push(msg(1, PortNb::Two, &NOTE_ON));
    assert_eq!(panel.list().len(), 2);
}

#[test]
fn a_run_after_other_events_adds_one_row() {
    let mut panel = MsgListPanel::new();
    let _ = panel.push(msg(0, PortNb::One, &NOTE_OFF));
    for ts in 1..=4u64 {
        let _ = panel.push(msg(ts, PortNb::One, &NOTE_ON));
    }
    assert_eq!(panel.list().len(), 2);
    assert_eq!(panel.list()[0].repetitions, 1);
    assert_eq!(panel.list()[1].repetitions, 4);
}

#[test]
fn failed_events_are_listed_and_merged_like_any_other() {
    let mut panel = MsgListPanel::new();
    let broken = [0x90u8, 0x40];
    assert_eq!(panel.push(msg(0, PortNb::One, &broken)), Status::Updated);
    assert_eq!(panel.push(msg(1, PortNb::One, &broken)), Status::Updated);
    assert_eq!(panel.push(msg(2, PortNb::One, &NOTE_ON)), Status::Updated);
    assert_eq!(panel.list().len(), 2);
    assert!(panel.list()[0].is_err());
    assert_eq!(panel.list()[0].repetitions, 2);
    assert!(!panel.list()[1].is_err());
}

#[test]
fn clear_empties_the_list() {
    let mut panel = MsgListPanel::new();
    let _ = panel.push(msg(0, PortNb::One, &NOTE_ON));
    panel.clear();
    assert!(panel.list().is_empty());
    assert_eq!(panel.push(msg(1, PortNb::One, &NOTE_ON)), Status::Updated);
    assert_eq!(panel.list()[0].repetitions, 1);
}

#[test]
fn a_new_row_counts_one() {
    let row = MsgParseResult::new(msg(5, PortNb::Two, &NOTE_ON));
    assert_eq!(row.repetitions, 1);
    assert_eq!(row.ts(), 5);
    assert_eq!(row.port_nb(), PortNb::Two);
    assert_eq!(row.raw(), &NOTE_ON.to_vec());
    assert!(row.is_repeated_by(&msg(9, PortNb::Two, &NOTE_ON)));
    assert!(!row.is_repeated_by(&msg(9, PortNb::One, &NOTE_ON)));
    assert!(!row.is_repeated_by(&msg(9, PortNb::Two, &NOTE_OFF)));
    assert!(!row.is_repeated_by(&msg(9, PortNb::Two, &NOTE_ON[..2])));
}

#[test]
fn a_row_is_made_from_a_message() {
    let row = MsgParseResult::from(msg(6, PortNb::One, &NOTE_OFF));
    assert_eq!(row.repetitions, 1);
    assert_eq!(row.ts(), 6);
    assert_eq!(row.port_nb(), PortNb::One);
    assert_eq!(row.raw(), &NOTE_OFF.to_vec());
    assert!(!row.is_err());
    let row: MsgParseResult = msg(7, PortNb::Two, &[]).into();
    assert!(row.is_err());
    assert_eq!(row.repetitions, 1);
}

#[test]
fn status_tells_whether_it_was_updated() {
    let mut status = Status::Unchanged;
    assert!(!status.was_updated());
    status.updated();
    assert!(status.was_updated());
    assert_eq!(status, Status::Updated);
}

#[test]
fn bytes_are_shown_in_hex() {
    assert_eq!(display(&vec![]), "");
    assert_eq!(display(&vec![0x00]), "00");
    assert_eq!(display(&vec![0x90, 0x40, 0x7F]), "90 40 7f");
    assert_eq!(display(&vec![0xAB, 0xCD, 0xEF, 0x01, 0x23]), "ab cd ef 01 23");
    assert_eq!(Buffer(vec![0xF8, 0x0A]).display(), "f8 0a");
    let row = MsgParseResult::new(msg(5, PortNb::Two, &NOTE_ON));
    assert_eq!(row.raw_str(), "90 40 7f");
}

#[test]
fn the_cut_into_batches_makes_no_difference() {
    let notes: Vec<u8> = vec![1, 1, 1, 2, 2, 3, 1, 1, 4, 4, 4, 4];
    let mut whole = MsgListPanel::new();
    for (ts, note) in notes.iter().enumerate() {
        let _ = whole.push(msg(ts as u64, PortNb::One, &[0x90, *note, 0x7F]));
    }
    for cut in 0..=notes.len() {
        let mut panel = MsgListPanel::new();
        let mut changed = [false, false];
        for (ts, note) in notes.iter().enumerate() {
            let batch = if ts < cut { 0 } else { 1 };
            changed[batch] |= panel.push(msg(ts as u64, PortNb::One, &[0x90, *note, 0x7F])).was_updated();
        }
        assert_eq!(changed[0], cut > 0);
        assert_eq!(changed[1], cut < notes.len());
        assert_eq!(panel.list().len(), whole.list().len());
        for (row, expected) in panel.list().iter().zip(whole.list().iter()) {
            assert_eq!(row.repetitions, expected.repetitions);
            assert_eq!(row.raw(), expected.raw());
            assert_eq!(row.ts(), expected.ts());
        }
    }
    let counts: Vec<u8> = whole.list().iter().map(|row| row.repetitions).collect();
    assert_eq!(counts, vec![3, 2, 1, 2, 4]);
}
