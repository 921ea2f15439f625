use consensus::seeding::{start, step, SeedAction, SeedEvent, SeedFailure, Seeder};
use serde_json::Value;

fn v(text: &str) -> Value {
    serde_json::from_str(text).unwrap()
}

fn payloads() -> Vec<Value> {
    vec![v("{\"n\":0}"), v("{\"n\":1}")]
}

fn go(seeder: Seeder, event: SeedEvent, expected: SeedAction) -> Seeder {
    let (seeder, action) = step(seeder, event);
    assert_eq!(action, expected);
    seeder
}

#[test]
fn happy_path_appends_each_entry_then_verifies() {
    let (s, action) = start(payloads());
    assert_eq!(action, SeedAction::Append { index: 0 });
    let s = go(s, SeedEvent::Appended, SeedAction::NextEvent);
    let s = go(s, SeedEvent::Warning, SeedAction::NextEvent);
    let s = go(s, SeedEvent::SessionEntry { index: 0, payload: v("{\"n\":0}") }, SeedAction::Append { index: 1 });
    let s = go(s, SeedEvent::Appended, SeedAction::NextEvent);
    let s = go(s, SeedEvent::SessionEntry { index: 1, payload: v("{\"n\":1}") }, SeedAction::FetchEntries { from: 0, limit: 2 });
    let (_, action) = step(s, SeedEvent::EntriesFetched { entries: payloads(), total: 2 });
    assert_eq!(action, SeedAction::Done(Ok(())));
}

#[test]
fn reconnect_resumes_from_persisted_entries() {
    let (s, _) = start(payloads());
    let s = go(s, SeedEvent::AppendDisconnected, SeedAction::NextEvent);
    let s = go(s, SeedEvent::Disconnected, SeedAction::NextEvent);
    let s = go(s, SeedEvent::Reconnected, SeedAction::FetchEntries { from: 0, limit: 2 });
    let s = go(s, SeedEvent::EntriesFetched { entries: vec![v("{\"n\":0}")], total: 1 }, SeedAction::Append { index: 1 });
    let s = go(s, SeedEvent::Appended, SeedAction::NextEvent);
    let s = go(s, SeedEvent::SessionEntry { index: 0, payload: v("{\"n\":0}") }, SeedAction::NextEvent);
    let s = go(s, SeedEvent::SessionEntry { index: 1, payload: v("{\"n\":1}") }, SeedAction::FetchEntries { from: 0, limit: 2 });
    let (_, action) = step(s, SeedEvent::EntriesFetched { entries: payloads(), total: 2 });
    assert_eq!(action, SeedAction::Done(Ok(())));
}

#[test]
fn out_of_order_and_mismatched_echoes_fail() {
    let (s, _) = start(payloads());
    let s = go(s, SeedEvent::Appended, SeedAction::NextEvent);
    let (_, action) = step(s, SeedEvent::SessionEntry { index: 1, payload: v("{\"n\":1}") });
    assert_eq!(action, SeedAction::Done(Err(SeedFailure::OutOfOrderEcho { expected: 0, actual: 1 })));

    let (s, _) = start(payloads());
    let s = go(s, SeedEvent::Appended, SeedAction::NextEvent);
    let (_, action) = step(s, SeedEvent::SessionEntry { index: 0, payload: v("{\"n\":9}") });
    assert_eq!(
        action,
        SeedAction::Done(Err(SeedFailure::EchoPayloadMismatch { index: 0, expected: v("{\"n\":0}"), actual: v("{\"n\":9}") }))
    );
}

#[test]
fn verification_checks_length_and_contents() {
    let (s, _) = start(vec![]);
    let (_, action) = step(s, SeedEvent::EntriesFetched { entries: vec![], total: 0 });
    assert_eq!(action, SeedAction::Done(Ok(())));

    let (s, action) = start(vec![]);
    assert_eq!(action, SeedAction::FetchEntries { from: 0, limit: 0 });
    let (_, action) = step(s, SeedEvent::EntriesFetched { entries: vec![], total: 3 });
    assert_eq!(action, SeedAction::Done(Err(SeedFailure::PersistedLengthMismatch { expected: 0, actual: 3 })));

    let (s, _) = start(vec![v("1")]);
    let s = go(s, SeedEvent::Appended, SeedAction::NextEvent);
    let s = go(s, SeedEvent::SessionEntry { index: 0, payload: v("1") }, SeedAction::FetchEntries { from: 0, limit: 1 });
    let (_, action) = step(s, SeedEvent::EntriesFetched { entries: vec![v("2")], total: 1 });
    assert_eq!(
        action,
        SeedAction::Done(Err(SeedFailure::PersistedPayloadMismatch { index: 0, expected: v("1"), actual: v("2") }))
    );
}
