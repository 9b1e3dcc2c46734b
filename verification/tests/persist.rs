use url_shortener::config::{Config, DEFAULT_PERSIST_SECS, DEFAULT_PORT};
use url_shortener::persist::{persist_db, PersistAction, PersistEvent, Persister};

#[test]
fn a_period_of_zero_makes_no_persister() {
    assert_eq!(Persister::new(0), None);
}

#[test]
fn a_persister_keeps_its_period() {
    let mut persister = Persister::new(10).unwrap();
    assert_eq!(persister.period_secs(), 10);

    persist_db(&mut persister, PersistEvent::Tick);
    persist_db(&mut persister, PersistEvent::SaveFailed);

    assert_eq!(persister.period_secs(), 10);
}

#[test]
fn a_tick_starts_a_save() {
    let mut persister = Persister::new(10).unwrap();
    assert!(!persister.is_saving());

    assert_eq!(persist_db(&mut persister, PersistEvent::Tick), PersistAction::Save);

    assert!(persister.is_saving());
}

#[test]
fn a_good_save_waits_for_the_next_tick() {
    let mut persister = Persister::new(10).unwrap();
    persist_db(&mut persister, PersistEvent::Tick);

    assert_eq!(persist_db(&mut persister, PersistEvent::Saved), PersistAction::Wait);

    assert!(!persister.is_saving());
    assert_eq!(persist_db(&mut persister, PersistEvent::Tick), PersistAction::Save);
}

#[test]
fn a_failed_save_is_reported_and_the_next_tick_saves_again() {
    let mut persister = Persister::new(1).unwrap();

    for _ in 0..3 {
        assert_eq!(persist_db(&mut persister, PersistEvent::Tick), PersistAction::Save);
        assert_eq!(
            persist_db(&mut persister, PersistEvent::SaveFailed),
            PersistAction::ReportFailure
        );
        assert!(!persister.is_saving());
    }
    assert_eq!(persist_db(&mut persister, PersistEvent::Tick), PersistAction::Save);
}

#[test]
fn an_event_out_of_turn_changes_nothing() {
    let mut persister = Persister::new(10).unwrap();

    assert_eq!(persist_db(&mut persister, PersistEvent::Saved), PersistAction::Wait);
    assert_eq!(persist_db(&mut persister, PersistEvent::SaveFailed), PersistAction::Wait);
    assert!(!persister.is_saving());

    persist_db(&mut persister, PersistEvent::Tick);
    assert_eq!(persist_db(&mut persister, PersistEvent::Tick), PersistAction::Wait);
    assert!(persister.is_saving());
}

#[test]
fn the_default_deployment() {
    let config = Config::default();

    assert_eq!(config.snapshot_path, "db.json");
    assert_eq!(config.persist_secs, 10);
    assert_eq!(config.listen_ip, [0, 0, 0, 0]);
    assert_eq!(config.listen_port, 3030);
    assert_eq!(DEFAULT_PERSIST_SECS, 10);
    assert_eq!(DEFAULT_PORT, 3030);
    assert!(Persister::new(config.persist_secs).is_some());
}
