use std::collections::BTreeSet;

use consensus::fixtures::{authentication_deliberation_log, scenario_log, FixtureScenario};
use consensus::types::{Entry, RelationKind};

#[test]
fn fixture_scenario_slug_and_lookup_are_stable() {
    let scenario = FixtureScenario::AuthenticationDeliberation;
    assert_eq!(scenario.slug(), "authentication-deliberation");
    assert_eq!(
        <FixtureScenario as std::str::FromStr>::from_str("authentication-deliberation").unwrap(),
        scenario
    );
    assert_eq!(scenario_log(scenario).scenario_id, "authentication-deliberation");
}

#[test]
fn authentication_fixture_covers_major_entry_shapes() {
    let log = authentication_deliberation_log();

    let mut kinds = BTreeSet::new();
    let mut has_attack = false;
    let mut has_support = false;
    let mut comment_count = 0;

    for entry in &log.entries {
        match entry {
            Entry::Claim { claim_kind, .. } => {
                kinds.insert(*claim_kind as u8);
            }
            Entry::Relation { kind, .. } => match kind {
                RelationKind::Attacks => has_attack = true,
                RelationKind::Supports => has_support = true,
            },
            Entry::Comment { .. } => comment_count += 1,
            Entry::Stance { .. } | Entry::Resolve { .. } => {}
        }
    }

    assert_eq!(kinds.len(), 6);
    assert!(has_attack);
    assert!(has_support);
    assert!(comment_count >= 5);
}

#[test]
fn unknown_fixture_scenario_is_reported() {
    let err = <FixtureScenario as std::str::FromStr>::from_str("nope").unwrap_err();
    assert_eq!(err, "unknown fixture scenario: nope");
}

#[test]
fn authentication_fixture_counts() {
    let log = authentication_deliberation_log();
    assert!(log.entries.len() >= 45);
    assert_eq!(log.participants, vec!["alice", "bob", "carol", "dave"]);
    let claims = log.entries.iter().filter(|e| matches!(e, Entry::Claim { .. })).count();
    let relations = log.entries.iter().filter(|e| matches!(e, Entry::Relation { .. })).count();
    assert_eq!(claims, 16);
    assert_eq!(relations, 16);
}
