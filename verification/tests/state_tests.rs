use iradio_bridge::state::{
    dante_tx_channels, first_or, fit_to_slots, initial_slot_health, set_all, set_slot_value,
    slot_value, CreatePlayerError, Favourites, PlayerSlots, PlayerState, SlotHealth, SlotPlan,
    Station,
};

fn station(id: &str) -> Station {
    Station {
        id: id.to_string(),
        name: format!("Station {}", id),
        url: format!("http://example.org/{}", id),
        codec: "MP3".to_string(),
        bitrate: 128,
        country: "NL".to_string(),
        tags: vec!["pop".to_string()],
        favicon: String::new(),
    }
}

#[test]
fn favourites_add_rejects_duplicate_ids() {
    let mut f = Favourites::from_stations(Vec::new());
    assert!(f.add(station("a")));
    assert!(f.add(station("b")));
    assert!(!f.add(station("a")));
    let ids: Vec<&str> = f.stations().iter().map(|s| s.id.as_str()).collect();
    assert_eq!(ids, vec!["a", "b"]);
    assert!(f.contains_id(&"b".to_string()));
    assert!(!f.contains_id(&"c".to_string()));
}

#[test]
fn favourites_remove_reports_whether_found() {
    let mut f = Favourites::from_stations(vec![station("a"), station("b"), station("c")]);
    assert!(f.remove(&"b".to_string()));
    let ids: Vec<&str> = f.stations().iter().map(|s| s.id.as_str()).collect();
    assert_eq!(ids, vec!["a", "c"]);
    assert!(!f.remove(&"b".to_string()));
    assert_eq!(f.stations().len(), 2);
}

#[test]
fn favourites_remove_drops_every_duplicate() {
    let mut f = Favourites::from_stations(vec![station("x"), station("y"), station("x")]);
    assert!(f.remove(&"x".to_string()));
    assert_eq!(f.stations().len(), 1);
    assert_eq!(f.stations()[0].id, "y");
}

#[test]
fn next_free_slot_takes_lowest() {
    let mut p: PlayerSlots<&str> = PlayerSlots::new();
    assert_eq!(p.next_free_slot(4), Some(1));
    assert!(p.insert(10, 1, "one").is_none());
    assert_eq!(p.insert(11, 3, "three").map(|e| e.id), None);
    assert_eq!(p.next_free_slot(4), Some(2));
    p.insert(12, 2, "two");
    p.insert(13, 4, "four");
    assert_eq!(p.next_free_slot(4), None);
    assert_eq!(p.next_free_slot(0), None);
    assert_eq!(p.len(), 4);
}

#[test]
fn insert_on_taken_slot_displaces_player() {
    let mut p: PlayerSlots<u32> = PlayerSlots::new();
    p.insert(1, 2, 100);
    let d = p.insert(2, 2, 200).expect("displaced");
    assert_eq!((d.id, d.slot, d.handle), (1, 2, 100));
    assert_eq!(p.len(), 1);
    assert_eq!(p.get(2), Some(&200));
    assert_eq!(p.get(1), None);
    assert_eq!(p.player_on_slot(2), Some(2));
}

#[test]
fn remove_and_get_mut() {
    let mut p: PlayerSlots<u32> = PlayerSlots::new();
    p.insert(7, 1, 70);
    p.insert(8, 2, 80);
    if let Some(h) = p.get_mut(8) {
        *h = 81;
    }
    assert_eq!(p.get(8), Some(&81));
    assert!(p.get_mut(9).is_none());
    let e = p.remove(7).unwrap();
    assert_eq!((e.id, e.slot, e.handle), (7, 1, 70));
    assert!(p.remove(7).is_none());
    assert_eq!(p.player_on_slot(1), None);
    assert_eq!(p.entries().len(), 1);
}

#[test]
fn plan_create_decisions() {
    let mut p: PlayerSlots<()> = PlayerSlots::new();
    assert_eq!(p.plan_create(true, Some(1), 4), Err(CreatePlayerError::UrlRequired));
    assert_eq!(p.plan_create(false, Some(0), 4), Err(CreatePlayerError::SlotOutOfRange { max: 4 }));
    assert_eq!(p.plan_create(false, Some(5), 4), Err(CreatePlayerError::SlotOutOfRange { max: 4 }));
    assert_eq!(p.plan_create(false, Some(3), 4), Ok(SlotPlan { slot: 3, evict: None }));
    assert_eq!(p.plan_create(false, None, 4), Ok(SlotPlan { slot: 1, evict: None }));
    p.insert(99, 3, ());
    assert_eq!(p.plan_create(false, Some(3), 4), Ok(SlotPlan { slot: 3, evict: Some(99) }));
    p.insert(1, 1, ());
    assert_eq!(p.plan_create(false, None, 4), Ok(SlotPlan { slot: 2, evict: None }));
    p.insert(2, 2, ());
    p.insert(4, 4, ());
    assert_eq!(p.plan_create(false, None, 4), Err(CreatePlayerError::AllSlotsInUse));
}

#[test]
fn dante_channels_per_slot() {
    assert_eq!(dante_tx_channels(1), [1, 2]);
    assert_eq!(dante_tx_channels(2), [3, 4]);
    assert_eq!(dante_tx_channels(4), [7, 8]);
}

#[test]
fn slot_settings_vectors() {
    let saved = vec![0.5f32, 0.9, 0.1];
    assert_eq!(fit_to_slots(&saved, 2, 0.7), vec![0.5, 0.9]);
    assert_eq!(fit_to_slots(&saved, 5, 0.7), vec![0.5, 0.9, 0.1, 0.7, 0.7]);
    assert_eq!(fit_to_slots(&Vec::<f32>::new(), 2, 0.0), vec![0.0, 0.0]);
    let mut v = vec![0.7f32, 0.7];
    assert_eq!(slot_value(&v, 2, 0.3), 0.7);
    assert_eq!(slot_value(&v, 3, 0.3), 0.3);
    set_slot_value(&mut v, 2, 0.25);
    assert_eq!(v, vec![0.7, 0.25]);
    assert_eq!(slot_value(&v, 2, 0.3), 0.25);
    set_slot_value(&mut v, 9, 1.0);
    assert_eq!(v, vec![0.7, 0.25]);
    set_all(&mut v, 0.4);
    assert_eq!(v, vec![0.4, 0.4]);
    assert_eq!(first_or(&v, 0.7), 0.4);
    assert_eq!(first_or(&Vec::<f32>::new(), 0.7), 0.7);
}

#[test]
fn health_records_start_empty() {
    let h = initial_slot_health(3);
    assert_eq!(h.len(), 3);
    for (i, r) in h.iter().enumerate() {
        assert_eq!(r.slot, i + 1);
        assert_eq!((r.connects, r.errors), (0, 0));
        assert!(r.last_error.is_none());
    }
    let one = SlotHealth::for_slot(9);
    assert_eq!(one.slot, 9);
}

#[test]
fn player_state_names() {
    assert_eq!(PlayerState::Buffering.as_str(), "buffering");
    assert_eq!(PlayerState::Playing.as_str(), "playing");
    assert_eq!(PlayerState::Error.as_str(), "error");
    assert_eq!(PlayerState::Stopped.as_str(), "stopped");
}
