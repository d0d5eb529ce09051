use tacho_bridge::registry::{
    register_card, remove_connections, remove_connections_all, should_register_new_card,
    CardProcessingResult, ProcessingCard, Registry,
};

fn entry(client_id: &str, reader: &str, atr: &str, task_id: u64) -> ProcessingCard {
    ProcessingCard {
        client_id: client_id.to_string(),
        reader_name: Some(reader.to_string()),
        atr: Some(atr.to_string()),
        task_id,
    }
}

#[test]
fn decision_create_then_ignore_for_same_pair() {
    let mut reg = Registry::new();
    let (d1, r1) = should_register_new_card(&mut reg, "ACS ACR122", "3b6b00000031c06401");
    assert_eq!(d1, CardProcessingResult::Create);
    assert!(r1.is_none());

    // The monitor registers the session after a Create.
    assert!(register_card(&mut reg, entry("CARD1", "ACS ACR122", "3b6b00000031c06401", 1)));

    let (d2, r2) = should_register_new_card(&mut reg, "ACS ACR122", "3b6b00000031c06401");
    assert_eq!(d2, CardProcessingResult::Ignore);
    assert!(r2.is_none());
}

#[test]
fn decision_delete_then_ignore_on_empty_atr() {
    let mut reg = Registry::new();
    assert!(register_card(&mut reg, entry("CARD1", "ACS ACR122", "3b6b00000031c06401", 1)));

    let (d1, removed) = should_register_new_card(&mut reg, "ACS ACR122", "");
    assert_eq!(d1, CardProcessingResult::Delete);
    let removed = removed.expect("the stale entry comes back for task abort");
    assert_eq!(removed.client_id, "CARD1");
    assert_eq!(removed.task_id, 1);
    assert!(reg.entries.is_empty());

    // Removal with nothing left to remove is ignored.
    let (d2, r2) = should_register_new_card(&mut reg, "ACS ACR122", "");
    assert_eq!(d2, CardProcessingResult::Ignore);
    assert!(r2.is_none());
}

#[test]
fn decision_ignores_empty_reader_name() {
    let mut reg = Registry::new();
    let (d, _) = should_register_new_card(&mut reg, "", "3b6b");
    assert_eq!(d, CardProcessingResult::Ignore);
}

#[test]
fn register_rejects_empty_client_id() {
    let mut reg = Registry::new();
    assert!(!register_card(&mut reg, entry("", "R", "3b", 1)));
    assert!(reg.entries.is_empty());
}

#[test]
fn register_rejects_duplicate_client_id() {
    let mut reg = Registry::new();
    assert!(register_card(&mut reg, entry("CARD1", "R1", "3b01", 1)));
    assert!(!register_card(&mut reg, entry("CARD1", "R2", "3b02", 2)));
    assert_eq!(reg.entries.len(), 1);
}

#[test]
fn register_rejects_duplicate_pair() {
    let mut reg = Registry::new();
    assert!(register_card(&mut reg, entry("CARD1", "R1", "3b01", 1)));
    assert!(!register_card(&mut reg, entry("CARD2", "R1", "3b01", 2)));
    assert_eq!(reg.entries.len(), 1);
}

#[test]
fn registry_stays_unique_through_a_session_sequence() {
    let mut reg = Registry::new();
    assert!(register_card(&mut reg, entry("CARD1", "R1", "3b01", 1)));
    assert!(register_card(&mut reg, entry("CARD2", "R2", "3b02", 2)));
    let (_, _) = should_register_new_card(&mut reg, "R1", "");
    assert!(register_card(&mut reg, entry("CARD3", "R1", "3b03", 3)));
    assert!(register_card(&mut reg, entry("CARD1", "R3", "3b04", 4)));

    for i in 0..reg.entries.len() {
        for j in (i + 1)..reg.entries.len() {
            let a = &reg.entries[i];
            let b = &reg.entries[j];
            assert_ne!(a.client_id, b.client_id);
            assert!(!(a.reader_name == b.reader_name && a.atr == b.atr));
        }
    }
}

#[test]
fn remove_connections_takes_first_match_per_id() {
    let mut reg = Registry::new();
    assert!(register_card(&mut reg, entry("CARD1", "R1", "3b01", 1)));
    assert!(register_card(&mut reg, entry("CARD2", "R2", "3b02", 2)));
    assert!(register_card(&mut reg, entry("CARD3", "R3", "3b03", 3)));

    let removed = remove_connections(&mut reg, &vec!["CARD2".to_string(), "CARD9".to_string()]);
    assert_eq!(removed.len(), 1);
    assert_eq!(removed[0].client_id, "CARD2");
    assert_eq!(removed[0].task_id, 2);
    assert_eq!(reg.entries.len(), 2);
    assert_eq!(reg.entries[0].client_id, "CARD1");
    assert_eq!(reg.entries[1].client_id, "CARD3");
}

#[test]
fn remove_connections_all_clears_everything() {
    let mut reg = Registry::new();
    assert!(register_card(&mut reg, entry("CARD1", "R1", "3b01", 1)));
    assert!(register_card(&mut reg, entry("CARD2", "R2", "3b02", 2)));

    let removed = remove_connections_all(&mut reg);
    assert_eq!(removed.len(), 2);
    assert_eq!(removed[0].client_id, "CARD1");
    assert_eq!(removed[1].client_id, "CARD2");
    assert!(reg.entries.is_empty());
}
