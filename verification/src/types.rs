//! The consensus log's data model: claims, entries and local drafts.
use vstd::prelude::*;

verus! {

/// Identifier of a committed claim.
#[derive(Debug, PartialEq, Eq, Hash, PartialOrd, Ord)]
pub struct ClaimId(pub String);

impl Clone for ClaimId {
    fn clone(&self) -> (copy: Self)
        ensures
            copy == *self,
    {
        ClaimId(self.0.clone())
    }
}

/// The kind of a claim.
#[derive(Debug, Clone, Copy, PartialEq, Eq, Structural, Hash, PartialOrd, Ord)]
pub enum ClaimKind {
    Item,
    Proposal,
    Fact,
    Conditional,
    Value,
    Reference,
}

/// A participant's position on a claim, from strongest objection to
/// strongest advocacy.
#[derive(Debug, Clone, Copy, PartialEq, Eq, Structural, Hash, PartialOrd, Ord)]
pub enum Position {
    Block,
    Object,
    StandAside,
    Abstain,
    Consent,
    Support,
    Champion,
}

impl Position {
    pub open spec fn spec_is_negative(self) -> bool {
        self is Block || self is Object
    }

    /// Whether the position expresses disagreement.
    #[verifier::when_used_as_spec(spec_is_negative)]
    pub fn is_negative(self) -> (negative: bool)
        ensures
            negative == self.spec_is_negative(),
    {
        match self {
            Position::Block | Position::Object => true,
            _ => false,
        }
    }

    /// The position's rank in declaration order.
    pub open spec fn rank(self) -> u8 {
        match self {
            Position::Block => 0,
            Position::Object => 1,
            Position::StandAside => 2,
            Position::Abstain => 3,
            Position::Consent => 4,
            Position::Support => 5,
            Position::Champion => 6,
        }
    }

    pub fn order(self) -> (rank: u8)
        ensures
            rank == self.rank(),
    {
        match self {
            Position::Block => 0,
            Position::Object => 1,
            Position::StandAside => 2,
            Position::Abstain => 3,
            Position::Consent => 4,
            Position::Support => 5,
            Position::Champion => 6,
        }
    }
}

/// The kind of a relation between two claims.
#[derive(Debug, Clone, Copy, PartialEq, Eq, Structural, Hash, PartialOrd, Ord)]
pub enum RelationKind {
    Attacks,
    Supports,
}

/// How a claim was resolved.
#[derive(Debug, Clone, Copy, PartialEq, Eq, Structural, Hash, PartialOrd, Ord)]
pub enum Outcome {
    Accepted,
    Rejected,
    Tabled,
    Withdrawn,
}

/// One entry of the shared consensus log.
#[derive(Debug, PartialEq, Eq)]
pub enum Entry {
    Claim {
        claim_id: ClaimId,
        author: String,
        body: String,
        claim_kind: ClaimKind,
        parent_id: Option<ClaimId>,
    },
    Relation { source_id: ClaimId, target_id: ClaimId, kind: RelationKind, author: String },
    Stance { target_id: ClaimId, author: String, position: Position },
    Resolve { claim_id: ClaimId, author: String, outcome: Outcome },
    Comment { claim_id: Option<ClaimId>, author: String, body: String },
}

/// What an entry says, as plain values.
pub enum EntryView {
    Claim {
        id: Seq<char>,
        author: Seq<char>,
        body: Seq<char>,
        kind: ClaimKind,
        parent: Option<Seq<char>>,
    },
    Relation { source: Seq<char>, target: Seq<char>, kind: RelationKind, author: Seq<char> },
    Stance { target: Seq<char>, author: Seq<char>, position: Position },
    Resolve { claim: Seq<char>, author: Seq<char>, outcome: Outcome },
    Comment { claim: Option<Seq<char>>, author: Seq<char>, body: Seq<char> },
}

pub open spec fn claim_id_view(id: Option<ClaimId>) -> Option<Seq<char>> {
    match id {
        Some(id) => Some(id.0@),
        None => None,
    }
}

impl View for Entry {
    type V = EntryView;

    open spec fn view(&self) -> EntryView {
        match self {
            Entry::Claim { claim_id, author, body, claim_kind, parent_id } => EntryView::Claim {
                id: claim_id.0@,
                author: author@,
                body: body@,
                kind: *claim_kind,
                parent: claim_id_view(*parent_id),
            },
            Entry::Relation { source_id, target_id, kind, author } => EntryView::Relation {
                source: source_id.0@,
                target: target_id.0@,
                kind: *kind,
                author: author@,
            },
            Entry::Stance { target_id, author, position } => EntryView::Stance {
                target: target_id.0@,
                author: author@,
                position: *position,
            },
            Entry::Resolve { claim_id, author, outcome } => EntryView::Resolve {
                claim: claim_id.0@,
                author: author@,
                outcome: *outcome,
            },
            Entry::Comment { claim_id, author, body } => EntryView::Comment {
                claim: claim_id_view(*claim_id),
                author: author@,
                body: body@,
            },
        }
    }
}

/// The views of the entries, in order.
pub open spec fn entry_views(entries: Seq<Entry>) -> Seq<EntryView> {
    entries.map_values(|e: Entry| e@)
}

pub fn clone_claim_id_option(id: &Option<ClaimId>) -> (copy: Option<ClaimId>)
    ensures
        copy == *id,
{
    match id {
        Some(id) => Some(id.clone()),
        None => None,
    }
}

impl Clone for Entry {
    fn clone(&self) -> (copy: Self)
        ensures
            copy == *self,
    {
        match self {
            Entry::Claim { claim_id, author, body, claim_kind, parent_id } => Entry::Claim {
                claim_id: claim_id.clone(),
                author: author.clone(),
                body: body.clone(),
                claim_kind: *claim_kind,
                parent_id: clone_claim_id_option(parent_id),
            },
            Entry::Relation { source_id, target_id, kind, author } => Entry::Relation {
                source_id: source_id.clone(),
                target_id: target_id.clone(),
                kind: *kind,
                author: author.clone(),
            },
            Entry::Stance { target_id, author, position } => Entry::Stance {
                target_id: target_id.clone(),
                author: author.clone(),
                position: *position,
            },
            Entry::Resolve { claim_id, author, outcome } => Entry::Resolve {
                claim_id: claim_id.clone(),
                author: author.clone(),
                outcome: *outcome,
            },
            Entry::Comment { claim_id, author, body } => Entry::Comment {
                claim_id: clone_claim_id_option(claim_id),
                author: author.clone(),
                body: body.clone(),
            },
        }
    }
}

/// Identifier of a local draft.
#[derive(Debug, Clone, Copy, PartialEq, Eq, Structural, Hash, PartialOrd, Ord)]
pub struct DraftId(pub u64);

/// A reference to a claim: committed, or a locally drafted claim.
#[derive(Debug, PartialEq, Eq)]
pub enum ClaimRef {
    Committed(ClaimId),
    Draft(DraftId),
}

impl Clone for ClaimRef {
    fn clone(&self) -> (copy: Self)
        ensures
            copy == *self,
    {
        match self {
            ClaimRef::Committed(id) => ClaimRef::Committed(id.clone()),
            ClaimRef::Draft(id) => ClaimRef::Draft(*id),
        }
    }
}

pub fn clone_claim_ref_option(r: &Option<ClaimRef>) -> (copy: Option<ClaimRef>)
    ensures
        copy == *r,
{
    match r {
        Some(r) => Some(r.clone()),
        None => None,
    }
}

/// The content of a local draft, awaiting submission to the log.
#[derive(Debug, PartialEq, Eq)]
pub enum DraftContent {
    Claim { body: String, claim_kind: ClaimKind, parent: Option<ClaimRef> },
    Relation { source: ClaimRef, target: ClaimRef, kind: RelationKind },
    Stance { target: ClaimRef, position: Position },
    Resolve { claim: ClaimRef, outcome: Outcome },
    Comment { claim: Option<ClaimRef>, body: String },
}

impl Clone for DraftContent {
    fn clone(&self) -> (copy: Self)
        ensures
            copy == *self,
    {
        match self {
            DraftContent::Claim { body, claim_kind, parent } => DraftContent::Claim {
                body: body.clone(),
                claim_kind: *claim_kind,
                parent: clone_claim_ref_option(parent),
            },
            DraftContent::Relation { source, target, kind } => DraftContent::Relation {
                source: source.clone(),
                target: target.clone(),
                kind: *kind,
            },
            DraftContent::Stance { target, position } => DraftContent::Stance {
                target: target.clone(),
                position: *position,
            },
            DraftContent::Resolve { claim, outcome } => DraftContent::Resolve {
                claim: claim.clone(),
                outcome: *outcome,
            },
            DraftContent::Comment { claim, body } => DraftContent::Comment {
                claim: clone_claim_ref_option(claim),
                body: body.clone(),
            },
        }
    }
}

/// A local draft with its identifier.
#[derive(Debug, PartialEq, Eq)]
pub struct DraftEntry {
    pub id: DraftId,
    pub entry: DraftContent,
}

impl Clone for DraftEntry {
    fn clone(&self) -> (copy: Self)
        ensures
            copy == *self,
    {
        DraftEntry { id: self.id, entry: self.entry.clone() }
    }
}

/// Errors from draft operations.
#[derive(Debug, Clone, Copy, PartialEq, Eq, Structural)]
pub enum EngineError {
    DraftNotFound(DraftId),
    DraftReferenceMustTargetClaim(DraftId),
    DraftReferenced { draft_id: DraftId, referenced_by: DraftId },
}

/// Clone every draft of `drafts`, in order.
pub fn clone_drafts(drafts: &[DraftEntry]) -> (copy: Vec<DraftEntry>)
    ensures
        copy@ == drafts@,
{
    let mut copy: Vec<DraftEntry> = Vec::new();
    let mut i: usize = 0;
    while i < drafts.len()
        invariant
            i <= drafts.len(),
            copy@ == drafts@.take(i as int),
        decreases drafts.len() - i,
    {
        copy.push(drafts[i].clone());
        assert(drafts@.take(i + 1) =~= drafts@.take(i as int).push(drafts@[i as int]));
        i += 1;
    }
    assert(drafts@.take(drafts.len() as int) =~= drafts@);
    copy
}

} // verus!
