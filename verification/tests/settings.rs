use retrotex::settings::Settings;
use std::cell::Cell;

#[test]
fn defaults() {
    let s = Settings::default();
    assert_eq!(s.last_opened_id, 0);
    assert_eq!(s.last_saved_hash, 0);
}

#[test]
fn saves_only_after_a_change() {
    let mut s = Settings::from_loaded(Settings { last_opened_id: 9, last_saved_hash: 0 });
    assert_eq!(s.last_opened_id, 9);
    let calls = Cell::new(0);
    s.save_if_changed(|_| {
        calls.set(calls.get() + 1);
        Ok(())
    })
    .unwrap();
    assert_eq!(calls.get(), 0);
    s.last_opened_id = 10;
    s.save_if_changed(|saved| {
        assert_eq!(saved.last_opened_id, 10);
        calls.set(calls.get() + 1);
        Ok(())
    })
    .unwrap();
    assert_eq!(calls.get(), 1);
    s.save_if_changed(|_| {
        calls.set(calls.get() + 1);
        Ok(())
    })
    .unwrap();
    assert_eq!(calls.get(), 1);
}

#[test]
fn a_failed_save_is_retried() {
    let mut s = Settings::from_loaded(Settings::default());
    s.last_opened_id = 3;
    let before = s.last_saved_hash;
    let r = s.save_if_changed(|_| Err("disk full".to_string()));
    assert_eq!(r, Err("disk full".to_string()));
    assert_eq!(s.last_saved_hash, before);
    let mut called = false;
    s.save_if_changed(|_| {
        called = true;
        Ok(())
    })
    .unwrap();
    assert!(called);
}

#[test]
fn saved_hash_is_the_hash_of_the_last_opened_id() {
    for id in [0u128, 9, u128::MAX] {
        let s = Settings::from_loaded(Settings { last_opened_id: id, last_saved_hash: 1 });
        assert_eq!(s.last_saved_hash, retrotex::util::single_hash(&id));
    }
}
