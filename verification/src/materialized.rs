//! The state materialized from committed log entries, and the epistemic
//! status of a claim.
use vstd::prelude::*;

use crate::types::{ClaimId, ClaimKind, Outcome, Position, RelationKind};
use crate::types::clone_claim_id_option;

verus! {

/// The standing of a claim in the deliberation.
#[derive(Debug, Clone, Copy, PartialEq, Eq, Structural, Hash)]
pub enum EpistemicStatus {
    /// Nobody has engaged with the claim yet.
    Unexamined,
    /// Participants disagree about the claim.
    Contested,
    /// The solver could not decide the claim.
    Unresolved,
    /// An accepted attack defeats the claim.
    Defeated,
}

/// How and by whom a claim was resolved.
#[derive(Debug, PartialEq, Eq)]
pub struct Resolution {
    pub outcome: Outcome,
    pub author: String,
}

impl Clone for Resolution {
    fn clone(&self) -> (copy: Self)
        ensures
            copy == *self,
    {
        Resolution { outcome: self.outcome, author: self.author.clone() }
    }
}

pub fn clone_resolution_option(r: &Option<Resolution>) -> (copy: Option<Resolution>)
    ensures
        copy == *r,
{
    match r {
        Some(r) => Some(r.clone()),
        None => None,
    }
}

/// A committed claim.
#[derive(Debug, PartialEq, Eq)]
pub struct ClaimState {
    pub id: ClaimId,
    pub body: String,
    pub author: String,
    pub kind: ClaimKind,
    pub parent_id: Option<ClaimId>,
    pub resolution: Option<Resolution>,
}

impl Clone for ClaimState {
    fn clone(&self) -> (copy: Self)
        ensures
            copy == *self,
    {
        ClaimState {
            id: self.id.clone(),
            body: self.body.clone(),
            author: self.author.clone(),
            kind: self.kind,
            parent_id: clone_claim_id_option(&self.parent_id),
            resolution: clone_resolution_option(&self.resolution),
        }
    }
}

/// A committed relation between two claims.
#[derive(Debug, PartialEq, Eq)]
pub struct RelationState {
    pub source_id: ClaimId,
    pub target_id: ClaimId,
    pub kind: RelationKind,
    pub author: String,
}

/// A participant's committed position on a claim.
#[derive(Debug, PartialEq, Eq)]
pub struct StanceState {
    pub target_id: ClaimId,
    pub author: String,
    pub position: Position,
}

/// Claims, relations and stances of the committed log.
#[derive(Debug, PartialEq, Eq)]
pub struct MaterializedState {
    pub claims: Vec<ClaimState>,
    pub relations: Vec<RelationState>,
    pub stances: Vec<StanceState>,
}

impl MaterializedState {
    /// The state of an empty log.
    pub fn new() -> (state: Self)
        ensures
            state.claims@.len() == 0,
            state.relations@.len() == 0,
            state.stances@.len() == 0,
    {
        MaterializedState { claims: Vec::new(), relations: Vec::new(), stances: Vec::new() }
    }
}

/// The status recorded for a claim id: the first entry for it, if any.
pub open spec fn status_lookup(statuses: Seq<(ClaimId, EpistemicStatus)>, id: Seq<char>) -> Option<
    EpistemicStatus,
>
    decreases statuses.len(),
{
    if statuses.len() == 0 {
        None
    } else if statuses[0].0.0@ == id {
        Some(statuses[0].1)
    } else {
        status_lookup(statuses.drop_first(), id)
    }
}

/// Index of the first claim with id `id` at or after `i`, or the number of
/// claims.
pub open spec fn claim_index_from(claims: Seq<ClaimState>, id: Seq<char>, i: int) -> int
    decreases claims.len() - i,
{
    if i < 0 {
        0
    } else if i >= claims.len() {
        claims.len() as int
    } else if claims[i].id.0@ == id {
        i
    } else {
        claim_index_from(claims, id, i + 1)
    }
}

/// Index of the first claim with id `id`, or the number of claims.
pub open spec fn claim_index(claims: Seq<ClaimState>, id: Seq<char>) -> int {
    claim_index_from(claims, id, 0)
}

pub proof fn lemma_claim_index_from(claims: Seq<ClaimState>, id: Seq<char>, i: int)
    requires
        0 <= i <= claims.len(),
    ensures
        i <= claim_index_from(claims, id, i) <= claims.len(),
        claim_index_from(claims, id, i) < claims.len() ==> claims[claim_index_from(
            claims,
            id,
            i,
        )].id.0@ == id,
        forall|j: int| i <= j < claim_index_from(claims, id, i) ==> (#[trigger] claims[j]).id.0@ != id,
    decreases claims.len() - i,
{
    if i < claims.len() && claims[i].id.0@ != id {
        lemma_claim_index_from(claims, id, i + 1);
    }
}

/// Position of the first claim whose id is `id`, if any.
pub fn find_claim(claims: &Vec<ClaimState>, id: &str) -> (index: Option<usize>)
    ensures
        index is Some <==> claim_index(claims@, id@) < claims@.len(),
        index matches Some(i) ==> i == claim_index(claims@, id@),
{
    proof {
        lemma_claim_index_from(claims@, id@, 0);
    }
    let mut i: usize = 0;
    while i < claims.len()
        invariant
            i <= claims.len(),
            claim_index(claims@, id@) == claim_index_from(claims@, id@, i as int),
        decreases claims.len() - i,
    {
        if crate::strings::str_eq(claims[i].id.0.as_str(), id) {
            return Some(i);
        }
        i += 1;
    }
    None
}

/// The status recorded for `id`, if any.
pub fn find_status(statuses: &[(ClaimId, EpistemicStatus)], id: &str) -> (status: Option<
    EpistemicStatus,
>)
    ensures
        status == status_lookup(statuses@, id@),
{
    let mut i: usize = 0;
    assert(statuses@.skip(0) =~= statuses@);
    while i < statuses.len()
        invariant
            i <= statuses.len(),
            status_lookup(statuses@, id@) == status_lookup(statuses@.skip(i as int), id@),
        decreases statuses.len() - i,
    {
        assert(statuses@.skip(i as int)[0] == statuses@[i as int]);
        if crate::strings::str_eq(statuses[i].0.0.as_str(), id) {
            return Some(statuses[i].1);
        }
        assert(statuses@.skip(i as int).drop_first() =~= statuses@.skip(i + 1));
        i += 1;
    }
    None
}

} // verus!
