use tacho_bridge::events::present_state;
use tacho_bridge::monitor::{
    is_virtual_reader, refresh_watched, should_handle_reader, sync_state, ReaderPresence,
    WatchedReader, CONTEXT_RETRY_SECS, UNKNOWN_READER_BACKOFF_SECS,
};

fn watched(name: &str, presence: ReaderPresence) -> WatchedReader {
    WatchedReader { name: name.to_string(), presence }
}

#[test]
fn virtual_reader_names_are_filtered() {
    assert!(is_virtual_reader("Microsoft UICC ISO Reader 0"));
    assert!(is_virtual_reader("Microsoft Virtual Smart Card 0"));
    assert!(is_virtual_reader("ACME VIRTUAL Reader"));
    assert!(is_virtual_reader("corp remote redirector 2"));
    assert!(!is_virtual_reader("ACS ACR122"));
    assert!(!is_virtual_reader(""));
}

#[test]
fn reader_handling_skips_pnp_and_virtual() {
    assert!(should_handle_reader("ACS ACR122", false));
    assert!(!should_handle_reader("ACS ACR122", true));
    assert!(!should_handle_reader("Microsoft Virtual Smart Card 0", false));
}

#[test]
fn refresh_drops_unavailable_and_adds_new() {
    let current = vec![
        watched("R1", ReaderPresence::Present),
        watched("R2", ReaderPresence::Unavailable),
        watched("R3", ReaderPresence::Changed),
    ];
    let listed = vec!["R3".to_string(), "R4".to_string()];
    let r = refresh_watched(&current, &listed);

    assert_eq!(r.len(), 3);
    assert_eq!(r[0].name, "R1");
    assert_eq!(r[0].presence, ReaderPresence::Present);
    assert_eq!(r[1].name, "R3");
    assert_eq!(r[1].presence, ReaderPresence::Changed);
    assert_eq!(r[2].name, "R4");
    assert_eq!(r[2].presence, ReaderPresence::Unaware);
}

#[test]
fn refresh_does_not_duplicate_listed_names() {
    let current = vec![watched("R1", ReaderPresence::Present)];
    let listed = vec!["R2".to_string(), "R2".to_string(), "R1".to_string()];
    let r = refresh_watched(&current, &listed);

    assert_eq!(r.len(), 2);
    assert_eq!(r[0].name, "R1");
    assert_eq!(r[1].name, "R2");
    assert_eq!(r[1].presence, ReaderPresence::Unaware);
}

#[test]
fn refresh_of_empty_lists() {
    let r = refresh_watched(&vec![], &vec![]);
    assert!(r.is_empty());
    let r = refresh_watched(&vec![watched("R1", ReaderPresence::Unavailable)], &vec![]);
    assert!(r.is_empty());
}

#[test]
fn presence_state_texts() {
    assert_eq!(ReaderPresence::Unaware.state_text(), "UNAWARE");
    assert_eq!(ReaderPresence::Absent.state_text(), "ABSENT");
    assert_eq!(ReaderPresence::Present.state_text(), "PRESENT");
    assert_eq!(ReaderPresence::Changed.state_text(), "CHANGED");
    assert_eq!(ReaderPresence::Unavailable.state_text(), "UNAVAILABLE");
}

#[test]
fn sync_state_carries_observation() {
    let s = sync_state("89440001", "ACS ACR122", &ReaderPresence::Changed, "CARD1");
    assert_eq!(s.iccid, "89440001");
    assert_eq!(s.reader_name, "ACS ACR122");
    assert_eq!(s.card_state, "CHANGED");
    assert_eq!(s.card_number, "CARD1");
    assert!(s.online.is_none());
    assert!(s.authentication.is_none());
}

#[test]
fn present_state_carries_flags() {
    let s = present_state("89440001", "ACS ACR122", "CARD1", Some(true), Some(false));
    assert_eq!(s.card_state, "PRESENT");
    assert_eq!(s.online, Some(true));
    assert_eq!(s.authentication, Some(false));
}

#[test]
fn monitor_backoff_intervals() {
    assert_eq!(CONTEXT_RETRY_SECS, 5);
    assert_eq!(UNKNOWN_READER_BACKOFF_SECS, 3);
}
