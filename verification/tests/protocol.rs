use arino::database::cloud::{payload, Event, Outcome, Phase, SyncError};
use arino::database::insert::ingredient;
use arino::database::schema::StoreError;
use arino::database::store::Store;

/// What the remote side answers in one scripted run.
struct Script {
    reachable: bool,
    pull: Result<(), SyncError>,
    push: Result<(), SyncError>,
}

/// Runs one write use-case against the store as the shell would, and tells
/// the phases it went through.
fn run(store: &mut Store, script: &Script, name: &str, category: &str) -> Vec<Phase> {
    let mut phase = Phase::start();
    let mut seen = vec![phase];
    loop {
        let event = match phase {
            Phase::Probing => Event::Probed(script.reachable),
            Phase::Pulling => Event::Pulled(script.pull),
            Phase::Writing => Event::Wrote(ingredient(store, name, category, "1d").map(|id| id.is_some())),
            Phase::Pushing => Event::Pushed(script.push),
            Phase::Done(_) => return seen,
        };
        phase = phase.on(event);
        seen.push(phase);
    }
}

fn pantry() -> Store {
    let mut store = Store::new();
    store.add_category("grain").unwrap();
    store
}

#[test]
fn offline_tries_nothing() {
    let mut store = pantry();
    let before = store.clone();
    let script = Script { reachable: false, pull: Ok(()), push: Ok(()) };
    let seen = run(&mut store, &script, "flour", "grain");
    assert_eq!(seen, vec![Phase::Probing, Phase::Done(Outcome::Offline)]);
    assert_eq!(store, before);
    assert!(!Outcome::Offline.failed());
    assert!(!Outcome::Offline.wrote());
}

#[test]
fn failed_pull_writes_nothing() {
    let mut store = pantry();
    let before = store.clone();
    let script = Script { reachable: true, pull: Err(SyncError::TransferFailed), push: Ok(()) };
    let seen = run(&mut store, &script, "flour", "grain");
    assert_eq!(
        seen,
        vec![Phase::Probing, Phase::Pulling, Phase::Done(Outcome::PullFailed(SyncError::TransferFailed))]
    );
    assert_eq!(store, before);
}

#[test]
fn write_is_pushed() {
    let mut store = pantry();
    let script = Script { reachable: true, pull: Ok(()), push: Ok(()) };
    let seen = run(&mut store, &script, "flour", "grain");
    assert_eq!(
        seen,
        vec![Phase::Probing, Phase::Pulling, Phase::Writing, Phase::Pushing, Phase::Done(Outcome::Synced)]
    );
    assert_eq!(store.ingredient_by_name("flour").unwrap().id, 1);
}

#[test]
fn failed_push_keeps_the_local_write() {
    let mut store = pantry();
    let script = Script { reachable: true, pull: Ok(()), push: Err(SyncError::Unreachable) };
    let seen = run(&mut store, &script, "flour", "grain");
    let outcome = Outcome::PushFailed(SyncError::Unreachable);
    assert_eq!(seen.last(), Some(&Phase::Done(outcome)));
    assert!(outcome.failed());
    assert!(outcome.wrote());
    assert_eq!(store.ingredient_by_name("flour").unwrap().lifespan, "1d");
}

#[test]
fn user_who_gives_up_pushes_nothing() {
    let mut store = pantry();
    let before = store.clone();
    let script = Script { reachable: true, pull: Ok(()), push: Err(SyncError::Unreachable) };
    let seen = run(&mut store, &script, "", "grain");
    assert_eq!(
        seen,
        vec![Phase::Probing, Phase::Pulling, Phase::Writing, Phase::Done(Outcome::Unchanged)]
    );
    assert_eq!(store, before);
    assert!(!Outcome::Unchanged.failed());
}

#[test]
fn refused_write_pushes_nothing() {
    let mut store = pantry();
    let script = Script { reachable: true, pull: Ok(()), push: Ok(()) };
    let seen = run(&mut store, &script, "cod", "fish");
    assert_eq!(seen.last(), Some(&Phase::Done(Outcome::WriteFailed(StoreError::NotFound))));
    assert_eq!(seen.len(), 4);
    assert!(Outcome::WriteFailed(StoreError::NotFound).failed());
    assert!(!Outcome::WriteFailed(StoreError::NotFound).wrote());
}

#[test]
fn each_sync_error_is_carried_to_the_outcome() {
    for e in [SyncError::Unreachable, SyncError::TransferFailed, SyncError::CorruptPayload] {
        assert_eq!(Phase::Pulling.on(Event::Pulled(Err(e))), Phase::Done(Outcome::PullFailed(e)));
        assert_eq!(Phase::Pushing.on(Event::Pushed(Err(e))), Phase::Done(Outcome::PushFailed(e)));
    }
    for e in [StoreError::NotFound, StoreError::Conflict, StoreError::StorageIO] {
        assert_eq!(Phase::Writing.on(Event::Wrote(Err(e))), Phase::Done(Outcome::WriteFailed(e)));
    }
}

#[test]
fn event_for_another_phase_changes_nothing() {
    let events = [
        Event::Probed(true),
        Event::Probed(false),
        Event::Pulled(Ok(())),
        Event::Pulled(Err(SyncError::Unreachable)),
        Event::Wrote(Ok(true)),
        Event::Wrote(Ok(false)),
        Event::Wrote(Err(StoreError::StorageIO)),
        Event::Pushed(Ok(())),
        Event::Pushed(Err(SyncError::CorruptPayload)),
    ];
    for (phase, own) in [
        (Phase::Probing, 0..2),
        (Phase::Pulling, 2..4),
        (Phase::Writing, 4..7),
        (Phase::Pushing, 7..9),
        (Phase::Done(Outcome::Synced), 0..0),
    ] {
        for (i, event) in events.iter().enumerate() {
            if own.contains(&i) {
                assert_ne!(phase.on(*event), phase);
            } else {
                assert_eq!(phase.on(*event), phase);
            }
        }
    }
}

#[test]
fn synced_is_no_failure() {
    assert!(Outcome::Synced.wrote());
    assert!(!Outcome::Synced.failed());
    assert!(Outcome::PullFailed(SyncError::CorruptPayload).failed());
    assert!(!Outcome::PullFailed(SyncError::CorruptPayload).wrote());
}

#[test]
fn payload_that_begins_as_a_store_is_taken() {
    let mut bytes = b"SQLite format 3\0".to_vec();
    assert_eq!(payload(&bytes), Ok(()));
    bytes.extend_from_slice(&[0x10, 0x00, 0x01, 0x01]);
    assert_eq!(payload(&bytes), Ok(()));
}

#[test]
fn payload_that_begins_otherwise_is_corrupt() {
    assert_eq!(payload(&vec![]), Err(SyncError::CorruptPayload));
    assert_eq!(payload(&b"SQLite format 3".to_vec()), Err(SyncError::CorruptPayload));
    assert_eq!(payload(&b"SQLite format 4\0".to_vec()), Err(SyncError::CorruptPayload));
    assert_eq!(payload(&b"sQLite format 3\0 and more".to_vec()), Err(SyncError::CorruptPayload));
    assert_eq!(payload(&b"<html>not found</html>".to_vec()), Err(SyncError::CorruptPayload));
}
