use midi_sniffer::midi::catalog::Catalog;
use midi_sniffer::midi::name::{rank, starts_with, without_prefix, Rank};

#[test]
fn names_are_ranked_by_their_bytes() {
    assert_eq!(rank("abc", "abd"), Rank::Before);
    assert_eq!(rank("abd", "abc"), Rank::After);
    assert_eq!(rank("abc", "abc"), Rank::Same);
    assert_eq!(rank("", ""), Rank::Same);
    assert_eq!(rank("", "a"), Rank::Before);
    assert_eq!(rank("a", ""), Rank::After);
    assert_eq!(rank("ab", "abc"), Rank::Before);
    assert_eq!(rank("abc", "ab"), Rank::After);
    assert_eq!(rank("Z", "a"), Rank::Before);
    assert_eq!(rank("z", "é"), Rank::Before);
    assert_eq!(rank("é", "è"), Rank::After);
}

#[test]
fn rank_agrees_with_the_order_of_text() {
    let names = ["", "a", "ab", "b", "B", "Midi", "midi", "é", "日本", "zz", "a b", "a-b"];
    for a in names {
        for b in names {
            let expected = if a < b {
                Rank::Before
            } else if a == b {
                Rank::Same
            } else {
                Rank::After
            };
            assert_eq!(rank(a, b), expected);
        }
    }
}

#[test]
fn prefixes_are_found() {
    assert!(starts_with("MIDI sniffer Port 1", "MIDI sniffer"));
    assert!(starts_with("abc", ""));
    assert!(starts_with("abc", "abc"));
    assert!(!starts_with("abc", "abcd"));
    assert!(!starts_with("abc", "b"));
    assert!(!starts_with("", "a"));
    assert!(starts_with("été chaud", "été"));
    assert!(!starts_with("ete", "été"));
}

#[test]
fn a_prefix_is_taken_off() {
    assert_eq!(without_prefix("Midi-Bridge:Device 1".to_string(), "Midi-Bridge:"), "Device 1");
    assert_eq!(without_prefix("Device 1".to_string(), "Midi-Bridge:"), "Device 1");
    assert_eq!(without_prefix("Midi-Bridge:".to_string(), "Midi-Bridge:"), "");
    assert_eq!(without_prefix("Midi-Bridge".to_string(), "Midi-Bridge:"), "Midi-Bridge");
    assert_eq!(without_prefix("été chaud".to_string(), "été "), "chaud");
    assert_eq!(without_prefix("Midi-Bridge:Clé à molette".to_string(), "Midi-Bridge:"), "Clé à molette");
}

#[test]
fn a_catalog_keeps_its_names_in_order() {
    let mut catalog: Catalog<u32> = Catalog::new();
    assert_eq!(catalog.len(), 0);
    catalog.insert("delta".to_string(), 4);
    catalog.insert("alpha".to_string(), 1);
    catalog.insert("charlie".to_string(), 3);
    catalog.insert("bravo".to_string(), 2);
    assert_eq!(catalog.list(), vec!["alpha", "bravo", "charlie", "delta"]);
    assert_eq!(catalog.len(), 4);
    assert_eq!(catalog.get("alpha"), Some(&1));
    assert_eq!(catalog.get("bravo"), Some(&2));
    assert_eq!(catalog.get("charlie"), Some(&3));
    assert_eq!(catalog.get("delta"), Some(&4));
    assert_eq!(catalog.get("echo"), None);
    assert!(catalog.contains("delta"));
    assert!(!catalog.contains("delt"));
}

#[test]
fn a_catalog_holds_each_name_once() {
    let mut catalog: Catalog<u32> = Catalog::new();
    catalog.insert("alpha".to_string(), 1);
    catalog.insert("bravo".to_string(), 2);
    catalog.insert("alpha".to_string(), 3);
    assert_eq!(catalog.list(), vec!["alpha", "bravo"]);
    assert_eq!(catalog.get("alpha"), Some(&3));
    assert_eq!(catalog.get("bravo"), Some(&2));
}

#[test]
fn a_cleared_catalog_is_empty() {
    let mut catalog: Catalog<u32> = Catalog::new();
    catalog.insert("alpha".to_string(), 1);
    catalog.clear();
    assert_eq!(catalog.len(), 0);
    assert!(catalog.list().is_empty());
    assert_eq!(catalog.get("alpha"), None);
}
