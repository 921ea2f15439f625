//! A deterministic deliberation log for offline experiments: four
//! participants settle how to authenticate the public API and the admin
//! dashboard.
use vstd::prelude::*;

use crate::strings::{str_eq, to_string};
use crate::types::{entry_views, ClaimId, ClaimKind, Entry, EntryView, Outcome, Position, RelationKind};

verus! {

/// Named built-in fixture scenarios.
#[derive(Debug, Clone, Copy, PartialEq, Eq, Structural, Hash)]
pub enum FixtureScenario {
    AuthenticationDeliberation,
}

pub open spec fn scenario_slug(scenario: FixtureScenario) -> Seq<char> {
    match scenario {
        FixtureScenario::AuthenticationDeliberation => "authentication-deliberation"@,
    }
}

impl FixtureScenario {
    /// The scenario's stable name on the command line and in logs.
    pub fn slug(self) -> (slug: &'static str)
        ensures
            slug@ == scenario_slug(self),
    {
        match self {
            FixtureScenario::AuthenticationDeliberation => "authentication-deliberation",
        }
    }

    /// The scenario named `value`, or a message naming the unknown value.
    pub fn parse(value: &str) -> (parsed: Result<FixtureScenario, String>)
        ensures
            parsed matches Ok(s) ==> scenario_slug(s) == value@,
            parsed is Err <==> value@ != "authentication-deliberation"@,
            parsed matches Err(message) ==> message@ == "unknown fixture scenario: "@ + value@,
    {
        if str_eq(value, "authentication-deliberation") {
            Ok(FixtureScenario::AuthenticationDeliberation)
        } else {
            let mut message = to_string("unknown fixture scenario: ");
            message.append(value);
            Err(message)
        }
    }
}

impl core::str::FromStr for FixtureScenario {
    type Err = String;

    fn from_str(value: &str) -> (parsed: Result<FixtureScenario, String>)
        ensures
            parsed matches Ok(s) ==> scenario_slug(s) == value@,
            parsed is Err <==> value@ != "authentication-deliberation"@,
            parsed matches Err(message) ==> message@ == "unknown fixture scenario: "@ + value@,
    {
        FixtureScenario::parse(value)
    }
}

/// A portable deliberation log.
#[derive(Debug)]
pub struct TrialLog {
    pub scenario_id: String,
    pub title: String,
    pub description: String,
    pub participants: Vec<String>,
    pub entries: Vec<Entry>,
}

pub open spec fn claim_view(id: Seq<char>, author: Seq<char>, body: Seq<char>, kind: ClaimKind) -> EntryView {
    EntryView::Claim { id, author, body, kind, parent: None }
}

pub open spec fn proposal_view(id: Seq<char>, author: Seq<char>, body: Seq<char>, parent: Seq<char>) -> EntryView {
    EntryView::Claim { id, author, body, kind: ClaimKind::Proposal, parent: Some(parent) }
}

pub open spec fn relation_view(source: Seq<char>, target: Seq<char>, kind: RelationKind, author: Seq<char>) -> EntryView {
    EntryView::Relation { source, target, kind, author }
}

pub open spec fn supports_view(source: Seq<char>, target: Seq<char>, author: Seq<char>) -> EntryView {
    relation_view(source, target, RelationKind::Supports, author)
}

pub open spec fn attacks_view(source: Seq<char>, target: Seq<char>, author: Seq<char>) -> EntryView {
    relation_view(source, target, RelationKind::Attacks, author)
}

pub open spec fn stance_view(target: Seq<char>, author: Seq<char>, position: Position) -> EntryView {
    EntryView::Stance { target, author, position }
}

pub open spec fn resolve_view(claim: Seq<char>, author: Seq<char>, outcome: Outcome) -> EntryView {
    EntryView::Resolve { claim, author, outcome }
}

pub open spec fn comment_view(claim: Option<Seq<char>>, author: Seq<char>, body: Seq<char>) -> EntryView {
    EntryView::Comment { claim, author, body }
}

/// The entries of a scenario's log, in log order.
pub open spec fn scenario_entries(scenario: FixtureScenario) -> Seq<EntryView> {
    match scenario {
        FixtureScenario::AuthenticationDeliberation => authentication_entries(),
    }
}

/// The entries of the authentication deliberation, in log order.
pub open spec fn authentication_entries() -> Seq<EntryView> {
    Seq::empty()
        .push(claim_view("item-auth"@, "carol"@, "Decide the authentication approach for the public API and the admin dashboard before beta."@, ClaimKind::Item))
        .push(comment_view(Some("item-auth"@), "carol"@, "We need one decision that operations can actually support in the first release."@))
        .push(claim_view("ref-oidc-practice"@, "carol"@, "External OIDC providers give us mature MFA, recovery, and federation flows that are expensive to reproduce internally."@, ClaimKind::Reference))
        .push(claim_view("fact-public-api-clients"@, "bob"@, "The public API already has a browser SPA client and the mobile app will need token-based access soon."@, ClaimKind::Fact))
        .push(claim_view("fact-no-shared-session-store"@, "dave"@, "We do not have a low-latency shared session store across regions in the current platform."@, ClaimKind::Fact))
        .push(claim_view("value-fast-revocation"@, "alice"@, "We should prefer an approach that lets us revoke compromised access quickly during incident response."@, ClaimKind::Value))
        .push(proposal_view("prop-jwt"@, "bob"@, "Use self-issued JWT access tokens for both the public API and the admin dashboard."@, "item-auth"@))
        .push(proposal_view("prop-session"@, "alice"@, "Use HTTP-only session cookies backed by our application for both the admin dashboard and browser clients."@, "item-auth"@))
        .push(proposal_view("prop-oidc"@, "carol"@, "Use a third-party OIDC provider for all authentication and rely on its hosted flows."@, "item-auth"@))
        .push(supports_view("fact-public-api-clients"@, "prop-jwt"@, "bob"@))
        .push(supports_view("ref-oidc-practice"@, "prop-oidc"@, "carol"@))
        .push(attacks_view("fact-no-shared-session-store"@, "prop-session"@, "dave"@))
        .push(claim_view("fact-jwt-revocation-hard"@, "alice"@, "Self-issued JWTs are hard to revoke before expiry unless we also run a denylist or token introspection service."@, ClaimKind::Fact))
        .push(attacks_view("fact-jwt-revocation-hard"@, "prop-jwt"@, "alice"@))
        .push(claim_view("cond-revocation-gap"@, "alice"@, "If disabled users keep valid tokens for too long, the security team loses a practical way to contain account compromise."@, ClaimKind::Conditional))
        .push(supports_view("fact-jwt-revocation-hard"@, "cond-revocation-gap"@, "alice"@))
        .push(supports_view("value-fast-revocation"@, "cond-revocation-gap"@, "alice"@))
        .push(attacks_view("cond-revocation-gap"@, "prop-jwt"@, "alice"@))
        .push(stance_view("prop-jwt"@, "bob"@, Position::Support))
        .push(stance_view("prop-jwt"@, "alice"@, Position::Block))
        .push(comment_view(Some("prop-jwt"@), "alice"@, "I could only support self-issued JWTs if we also commit to near-immediate revocation for disabled or compromised accounts."@))
        .push(claim_view("fact-admin-browser-only"@, "dave"@, "The admin dashboard is used only by employees in browsers, so cookie-based UX is acceptable there."@, ClaimKind::Fact))
        .push(supports_view("fact-admin-browser-only"@, "prop-session"@, "dave"@))
        .push(stance_view("prop-session"@, "carol"@, Position::Object))
        .push(comment_view(Some("prop-session"@), "carol"@, "Regional failover becomes risky if the session store turns into an implicit control plane dependency."@))
        .push(claim_view("fact-external-idp-cost"@, "bob"@, "A third-party identity provider adds vendor cost, tenant setup overhead, and a migration burden for the team."@, ClaimKind::Fact))
        .push(attacks_view("fact-external-idp-cost"@, "prop-oidc"@, "bob"@))
        .push(stance_view("prop-oidc"@, "bob"@, Position::Object))
        .push(stance_view("prop-oidc"@, "alice"@, Position::Support))
        .push(comment_view(Some("item-auth"@), "carol"@, "Splitting workforce auth from public API auth may resolve the apparent tradeoff instead of forcing one mechanism everywhere."@))
        .push(resolve_view("prop-oidc"@, "carol"@, Outcome::Withdrawn))
        .push(proposal_view("prop-hybrid"@, "carol"@, "Use an external OIDC provider for workforce and admin auth, issue provider-backed JWTs for the public API, and keep a thin adapter layer so we can swap vendors later."@, "item-auth"@))
        .push(supports_view("ref-oidc-practice"@, "prop-hybrid"@, "carol"@))
        .push(supports_view("fact-public-api-clients"@, "prop-hybrid"@, "bob"@))
        .push(supports_view("fact-no-shared-session-store"@, "prop-hybrid"@, "dave"@))
        .push(claim_view("fact-adapter-abstraction"@, "carol"@, "A narrow identity adapter keeps provider-specific code out of the application so a later migration stays feasible."@, ClaimKind::Fact))
        .push(supports_view("fact-adapter-abstraction"@, "prop-hybrid"@, "carol"@))
        .push(stance_view("prop-hybrid"@, "bob"@, Position::Consent))
        .push(stance_view("prop-hybrid"@, "alice"@, Position::Champion))
        .push(claim_view("fact-provider-outage-risk"@, "dave"@, "A provider outage could lock administrators out during an incident unless we preserve a documented break-glass path."@, ClaimKind::Fact))
        .push(attacks_view("fact-provider-outage-risk"@, "prop-hybrid"@, "dave"@))
        .push(stance_view("prop-hybrid"@, "dave"@, Position::Object))
        .push(comment_view(Some("prop-hybrid"@), "dave"@, "I like the direction, but I need a concrete outage story before I can consent."@))
        .push(claim_view("cond-break-glass"@, "alice"@, "If we keep two audited local break-glass admin accounts outside the provider, the outage risk becomes operationally acceptable."@, ClaimKind::Conditional))
        .push(attacks_view("cond-break-glass"@, "fact-provider-outage-risk"@, "alice"@))
        .push(supports_view("cond-break-glass"@, "prop-hybrid"@, "alice"@))
        .push(comment_view(Some("prop-hybrid"@), "bob"@, "This preserves mobile-friendly tokens without asking us to invent our own authentication stack from scratch."@))
        .push(stance_view("prop-hybrid"@, "dave"@, Position::Consent))
        .push(stance_view("prop-hybrid"@, "carol"@, Position::Support))
        .push(resolve_view("prop-jwt"@, "carol"@, Outcome::Rejected))
        .push(resolve_view("prop-session"@, "carol"@, Outcome::Tabled))
        .push(resolve_view("prop-hybrid"@, "carol"@, Outcome::Accepted))
        .push(comment_view(Some("item-auth"@), "carol"@, "Decision: move forward with the hybrid plan, document vendor exit constraints, and track break-glass controls in the rollout checklist."@))
}

/// The authentication deliberation: competing proposals, factual and value
/// claims, objections, a withdrawal and a hybrid proposal that is accepted.
pub fn authentication_deliberation_log() -> (log: TrialLog)
    ensures
        log.scenario_id@ == "authentication-deliberation"@,
        log.participants@.len() == 4,
        log.participants@[0]@ == "alice"@,
        log.participants@[1]@ == "bob"@,
        log.participants@[2]@ == "carol"@,
        log.participants@[3]@ == "dave"@,
        log.title@ == "Authentication Approach Deliberation"@,
        log.description@ == "Four participants work through competing authentication proposals, \
             exchange factual and value claims, revise direction after objections, \
             and converge on a hybrid proposal with explicit resolution entries."@,
        entry_views(log.entries@) == authentication_entries(),
{
    let mut participants: Vec<String> = Vec::new();
    participants.push(to_string("alice"));
    participants.push(to_string("bob"));
    participants.push(to_string("carol"));
    participants.push(to_string("dave"));
    let mut entries: Vec<Entry> = Vec::new();
    assert(entry_views(entries@) =~= Seq::<EntryView>::empty());
    push_entry(&mut entries, claim(
                "item-auth",
                "carol",
                "Decide the authentication approach for the public API and the admin dashboard before beta.",
                ClaimKind::Item,
            ));
    push_entry(&mut entries, comment(
                Some("item-auth"),
                "carol",
                "We need one decision that operations can actually support in the first release.",
            ));
    push_entry(&mut entries, claim(
                "ref-oidc-practice",
                "carol",
                "External OIDC providers give us mature MFA, recovery, and federation flows that are expensive to reproduce internally.",
                ClaimKind::Reference,
            ));
    push_entry(&mut entries, claim(
                "fact-public-api-clients",
                "bob",
                "The public API already has a browser SPA client and the mobile app will need token-based access soon.",
                ClaimKind::Fact,
            ));
    push_entry(&mut entries, claim(
                "fact-no-shared-session-store",
                "dave",
                "We do not have a low-latency shared session store across regions in the current platform.",
                ClaimKind::Fact,
            ));
    push_entry(&mut entries, claim(
                "value-fast-revocation",
                "alice",
                "We should prefer an approach that lets us revoke compromised access quickly during incident response.",
                ClaimKind::Value,
            ));
    push_entry(&mut entries, proposal(
                "prop-jwt",
                "bob",
                "Use self-issued JWT access tokens for both the public API and the admin dashboard.",
                "item-auth",
            ));
    push_entry(&mut entries, proposal(
                "prop-session",
                "alice",
                "Use HTTP-only session cookies backed by our application for both the admin dashboard and browser clients.",
                "item-auth",
            ));
    push_entry(&mut entries, proposal(
                "prop-oidc",
                "carol",
                "Use a third-party OIDC provider for all authentication and rely on its hosted flows.",
                "item-auth",
            ));
    push_entry(&mut entries, supports("fact-public-api-clients", "prop-jwt", "bob"));
    push_entry(&mut entries, supports("ref-oidc-practice", "prop-oidc", "carol"));
    push_entry(&mut entries, attacks("fact-no-shared-session-store", "prop-session", "dave"));
    push_entry(&mut entries, claim(
                "fact-jwt-revocation-hard",
                "alice",
                "Self-issued JWTs are hard to revoke before expiry unless we also run a denylist or token introspection service.",
                ClaimKind::Fact,
            ));
    push_entry(&mut entries, attacks("fact-jwt-revocation-hard", "prop-jwt", "alice"));
    push_entry(&mut entries, claim(
                "cond-revocation-gap",
                "alice",
                "If disabled users keep valid tokens for too long, the security team loses a practical way to contain account compromise.",
                ClaimKind::Conditional,
            ));
    push_entry(&mut entries, supports("fact-jwt-revocation-hard", "cond-revocation-gap", "alice"));
    push_entry(&mut entries, supports("value-fast-revocation", "cond-revocation-gap", "alice"));
    push_entry(&mut entries, attacks("cond-revocation-gap", "prop-jwt", "alice"));
    push_entry(&mut entries, stance("prop-jwt", "bob", Position::Support));
    push_entry(&mut entries, stance("prop-jwt", "alice", Position::Block));
    push_entry(&mut entries, comment(
                Some("prop-jwt"),
                "alice",
                "I could only support self-issued JWTs if we also commit to near-immediate revocation for disabled or compromised accounts.",
            ));
    push_entry(&mut entries, claim(
                "fact-admin-browser-only",
                "dave",
                "The admin dashboard is used only by employees in browsers, so cookie-based UX is acceptable there.",
                ClaimKind::Fact,
            ));
    push_entry(&mut entries, supports("fact-admin-browser-only", "prop-session", "dave"));
    push_entry(&mut entries, stance("prop-session", "carol", Position::Object));
    push_entry(&mut entries, comment(
                Some("prop-session"),
                "carol",
                "Regional failover becomes risky if the session store turns into an implicit control plane dependency.",
            ));
    push_entry(&mut entries, claim(
                "fact-external-idp-cost",
                "bob",
                "A third-party identity provider adds vendor cost, tenant setup overhead, and a migration burden for the team.",
                ClaimKind::Fact,
            ));
    push_entry(&mut entries, attacks("fact-external-idp-cost", "prop-oidc", "bob"));
    push_entry(&mut entries, stance("prop-oidc", "bob", Position::Object));
    push_entry(&mut entries, stance("prop-oidc", "alice", Position::Support));
    push_entry(&mut entries, comment(
                Some("item-auth"),
                "carol",
                "Splitting workforce auth from public API auth may resolve the apparent tradeoff instead of forcing one mechanism everywhere.",
            ));
    push_entry(&mut entries, resolve("prop-oidc", "carol", Outcome::Withdrawn));
    push_entry(&mut entries, proposal(
                "prop-hybrid",
                "carol",
                "Use an external OIDC provider for workforce and admin auth, issue provider-backed JWTs for the public API, and keep a thin adapter layer so we can swap vendors later.",
                "item-auth",
            ));
    push_entry(&mut entries, supports("ref-oidc-practice", "prop-hybrid", "carol"));
    push_entry(&mut entries, supports("fact-public-api-clients", "prop-hybrid", "bob"));
    push_entry(&mut entries, supports("fact-no-shared-session-store", "prop-hybrid", "dave"));
    push_entry(&mut entries, claim(
                "fact-adapter-abstraction",
                "carol",
                "A narrow identity adapter keeps provider-specific code out of the application so a later migration stays feasible.",
                ClaimKind::Fact,
            ));
    push_entry(&mut entries, supports("fact-adapter-abstraction", "prop-hybrid", "carol"));
    push_entry(&mut entries, stance("prop-hybrid", "bob", Position::Consent));
    push_entry(&mut entries, stance("prop-hybrid", "alice", Position::Champion));
    push_entry(&mut entries, claim(
                "fact-provider-outage-risk",
                "dave",
                "A provider outage could lock administrators out during an incident unless we preserve a documented break-glass path.",
                ClaimKind::Fact,
            ));
    push_entry(&mut entries, attacks("fact-provider-outage-risk", "prop-hybrid", "dave"));
    push_entry(&mut entries, stance("prop-hybrid", "dave", Position::Object));
    push_entry(&mut entries, comment(
                Some("prop-hybrid"),
                "dave",
                "I like the direction, but I need a concrete outage story before I can consent.",
            ));
    push_entry(&mut entries, claim(
                "cond-break-glass",
                "alice",
                "If we keep two audited local break-glass admin accounts outside the provider, the outage risk becomes operationally acceptable.",
                ClaimKind::Conditional,
            ));
    push_entry(&mut entries, attacks("cond-break-glass", "fact-provider-outage-risk", "alice"));
    push_entry(&mut entries, supports("cond-break-glass", "prop-hybrid", "alice"));
    push_entry(&mut entries, comment(
                Some("prop-hybrid"),
                "bob",
                "This preserves mobile-friendly tokens without asking us to invent our own authentication stack from scratch.",
            ));
    push_entry(&mut entries, stance("prop-hybrid", "dave", Position::Consent));
    push_entry(&mut entries, stance("prop-hybrid", "carol", Position::Support));
    push_entry(&mut entries, resolve("prop-jwt", "carol", Outcome::Rejected));
    push_entry(&mut entries, resolve("prop-session", "carol", Outcome::Tabled));
    push_entry(&mut entries, resolve("prop-hybrid", "carol", Outcome::Accepted));
    push_entry(&mut entries, comment(
                Some("item-auth"),
                "carol",
                "Decision: move forward with the hybrid plan, document vendor exit constraints, and track break-glass controls in the rollout checklist.",
            ));

    assert(entry_views(entries@) == authentication_entries());
    TrialLog {
        scenario_id: to_string("authentication-deliberation"),
        title: to_string("Authentication Approach Deliberation"),
        description: to_string(
            "Four participants work through competing authentication proposals, \
             exchange factual and value claims, revise direction after objections, \
             and converge on a hybrid proposal with explicit resolution entries.",
        ),
        participants,
        entries,
    }
}

/// The log of a named scenario.
pub fn scenario_log(scenario: FixtureScenario) -> (log: TrialLog)
    ensures
        log.scenario_id@ == scenario_slug(scenario),
        entry_views(log.entries@) == scenario_entries(scenario),
{
    match scenario {
        FixtureScenario::AuthenticationDeliberation => authentication_deliberation_log(),
    }
}

fn push_entry(entries: &mut Vec<Entry>, entry: Entry)
    ensures
        entry_views(final(entries)@) == entry_views(old(entries)@).push(entry@),
{
    let ghost before = entries@;
    entries.push(entry);
    assert(entry_views(entries@) =~= entry_views(before).push(entry@));
}

fn claim(id: &str, author: &str, body: &str, kind: ClaimKind) -> (entry: Entry)
    ensures
        entry@ == claim_view(id@, author@, body@, kind),
{
    Entry::Claim {
        claim_id: ClaimId(to_string(id)),
        author: to_string(author),
        body: to_string(body),
        claim_kind: kind,
        parent_id: None,
    }
}

fn proposal(id: &str, author: &str, body: &str, parent_id: &str) -> (entry: Entry)
    ensures
        entry@ == proposal_view(id@, author@, body@, parent_id@),
{
    Entry::Claim {
        claim_id: ClaimId(to_string(id)),
        author: to_string(author),
        body: to_string(body),
        claim_kind: ClaimKind::Proposal,
        parent_id: Some(ClaimId(to_string(parent_id))),
    }
}

fn supports(source_id: &str, target_id: &str, author: &str) -> (entry: Entry)
    ensures
        entry@ == supports_view(source_id@, target_id@, author@),
{
    relation(source_id, target_id, RelationKind::Supports, author)
}

fn attacks(source_id: &str, target_id: &str, author: &str) -> (entry: Entry)
    ensures
        entry@ == attacks_view(source_id@, target_id@, author@),
{
    relation(source_id, target_id, RelationKind::Attacks, author)
}

fn relation(source_id: &str, target_id: &str, kind: RelationKind, author: &str) -> (entry: Entry)
    ensures
        entry@ == relation_view(source_id@, target_id@, kind, author@),
{
    Entry::Relation {
        source_id: ClaimId(to_string(source_id)),
        target_id: ClaimId(to_string(target_id)),
        kind,
        author: to_string(author),
    }
}

fn stance(target_id: &str, author: &str, position: Position) -> (entry: Entry)
    ensures
        entry@ == stance_view(target_id@, author@, position),
{
    Entry::Stance { target_id: ClaimId(to_string(target_id)), author: to_string(author), position }
}

fn resolve(claim_id: &str, author: &str, outcome: Outcome) -> (entry: Entry)
    ensures
        entry@ == resolve_view(claim_id@, author@, outcome),
{
    Entry::Resolve { claim_id: ClaimId(to_string(claim_id)), author: to_string(author), outcome }
}

fn comment(claim_id: Option<&str>, author: &str, body: &str) -> (entry: Entry)
    ensures
        entry@ == comment_view(
            match claim_id {
                Some(id) => Some(id@),
                None => None,
            },
            author@,
            body@,
        ),
{
    let target = match claim_id {
        Some(id) => Some(ClaimId(to_string(id))),
        None => None,
    };
    Entry::Comment { claim_id: target, author: to_string(author), body: to_string(body) }
}

} // verus!
