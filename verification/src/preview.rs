//! Previewing the committed log together with the local drafts: drafts
//! become entries under provisional ids, and the impact of the drafts on
//! the claims' statuses is summarized.
use vstd::prelude::*;

use crate::drafts::{claim_ref_error, draft_index, lemma_draft_index_from};
use crate::materialized::{
    claim_index, find_claim, find_status, lemma_claim_index_from, status_lookup, ClaimState,
    EpistemicStatus, MaterializedState,
};
use crate::order::{lemma_map_multiset, sort, sorted, string_views, SortOrder};
use crate::render::sorted_unique;
use crate::strings::{append_decimal, chars_le, decimal, to_string};
use crate::types::{
    claim_id_view, entry_views, ClaimId, ClaimKind, ClaimRef, DraftContent, DraftEntry, DraftId,
    EngineError, Entry, EntryView,
};

verus! {

broadcast use {vstd::seq_lib::group_to_multiset_ensures, vstd::multiset::group_multiset_axioms};

/// A drafted claim and the status it would have once committed.
#[derive(Debug, PartialEq, Eq)]
pub struct ImpactNewClaim {
    pub draft_id: DraftId,
    pub body: String,
    pub author: String,
    pub kind: ClaimKind,
    pub status: Option<EpistemicStatus>,
}

/// A committed claim whose status the drafts would change.
#[derive(Debug, PartialEq, Eq)]
pub struct ImpactStatusChange {
    pub claim_id: ClaimId,
    pub body: String,
    pub before: Option<EpistemicStatus>,
    pub after: Option<EpistemicStatus>,
}

/// What committing the drafts would change.
#[derive(Debug, PartialEq, Eq)]
pub struct ImpactAnalysis {
    pub new_claims: Vec<ImpactNewClaim>,
    pub status_changes: Vec<ImpactStatusChange>,
}

pub struct ImpactNewClaimView {
    pub draft_id: DraftId,
    pub body: Seq<char>,
    pub author: Seq<char>,
    pub kind: ClaimKind,
    pub status: Option<EpistemicStatus>,
}

impl View for ImpactNewClaim {
    type V = ImpactNewClaimView;

    open spec fn view(&self) -> ImpactNewClaimView {
        ImpactNewClaimView {
            draft_id: self.draft_id,
            body: self.body@,
            author: self.author@,
            kind: self.kind,
            status: self.status,
        }
    }
}

impl SortOrder for ImpactNewClaim {
    open spec fn precedes(self, other: Self) -> bool {
        self.draft_id.0 <= other.draft_id.0
    }

    proof fn lemma_total(a: Self, b: Self) {
    }

    proof fn lemma_transitive(a: Self, b: Self, c: Self) {
    }

    fn precedes_exec(&self, other: &Self) -> (r: bool) {
        self.draft_id.0 <= other.draft_id.0
    }
}

// ---------------------------------------------------------------------------
// Mathematical model
// ---------------------------------------------------------------------------

/// The provisional id of a drafted claim: `draft-` and the draft number.
pub open spec fn preview_id(id: DraftId) -> Seq<char> {
    "draft-"@ + decimal(id.0 as nat)
}

/// The id that `claim_ref` stands for in the preview, or why it cannot be
/// used.
pub open spec fn resolved_ref(drafts: Seq<DraftEntry>, claim_ref: ClaimRef) -> Result<
    Seq<char>,
    EngineError,
> {
    match claim_ref {
        ClaimRef::Committed(id) => Ok(id.0@),
        ClaimRef::Draft(id) => match claim_ref_error(drafts, claim_ref) {
            Some(e) => Err(e),
            None => Ok(preview_id(id)),
        },
    }
}

pub open spec fn resolved_optional_ref(drafts: Seq<DraftEntry>, claim_ref: Option<ClaimRef>) -> Result<
    Option<Seq<char>>,
    EngineError,
> {
    match claim_ref {
        None => Ok(None),
        Some(r) => match resolved_ref(drafts, r) {
            Ok(id) => Ok(Some(id)),
            Err(e) => Err(e),
        },
    }
}

/// The entry that `draft` becomes in the preview, or the first reference
/// of it that cannot be used.
pub open spec fn preview_entry(drafts: Seq<DraftEntry>, author: Seq<char>, draft: DraftEntry) -> Result<
    EntryView,
    EngineError,
> {
    match draft.entry {
        DraftContent::Claim { body, claim_kind, parent } => match resolved_optional_ref(
            drafts,
            parent,
        ) {
            Ok(parent) => Ok(
                EntryView::Claim {
                    id: preview_id(draft.id),
                    author,
                    body: body@,
                    kind: claim_kind,
                    parent,
                },
            ),
            Err(e) => Err(e),
        },
        DraftContent::Relation { source, target, kind } => match resolved_ref(drafts, source) {
            Err(e) => Err(e),
            Ok(source) => match resolved_ref(drafts, target) {
                Err(e) => Err(e),
                Ok(target) => Ok(EntryView::Relation { source, target, kind, author }),
            },
        },
        DraftContent::Stance { target, position } => match resolved_ref(drafts, target) {
            Err(e) => Err(e),
            Ok(target) => Ok(EntryView::Stance { target, author, position }),
        },
        DraftContent::Resolve { claim, outcome } => match resolved_ref(drafts, claim) {
            Err(e) => Err(e),
            Ok(claim) => Ok(EntryView::Resolve { claim, author, outcome }),
        },
        DraftContent::Comment { claim, body } => match resolved_optional_ref(drafts, claim) {
            Err(e) => Err(e),
            Ok(claim) => Ok(EntryView::Comment { claim, author, body: body@ }),
        },
    }
}

/// The entries of the drafts in `prefix`, in order, or the error of the
/// first draft that fails; references are resolved against `drafts`.
pub open spec fn preview_entries(drafts: Seq<DraftEntry>, author: Seq<char>, prefix: Seq<DraftEntry>) -> Result<
    Seq<EntryView>,
    EngineError,
>
    decreases prefix.len(),
{
    if prefix.len() == 0 {
        Ok(Seq::empty())
    } else {
        match preview_entries(drafts, author, prefix.drop_last()) {
            Err(e) => Err(e),
            Ok(rest) => match preview_entry(drafts, author, prefix.last()) {
                Err(e) => Err(e),
                Ok(entry) => Ok(rest.push(entry)),
            },
        }
    }
}

/// The drafted claims of `prefix`, in order, with their preview statuses.
pub open spec fn new_claims_of(
    prefix: Seq<DraftEntry>,
    author: Seq<char>,
    statuses: Seq<(ClaimId, EpistemicStatus)>,
) -> Seq<ImpactNewClaimView>
    decreases prefix.len(),
{
    if prefix.len() == 0 {
        Seq::empty()
    } else {
        let rest = new_claims_of(prefix.drop_last(), author, statuses);
        let d = prefix.last();
        match d.entry {
            DraftContent::Claim { body, claim_kind, .. } => rest.push(
                ImpactNewClaimView {
                    draft_id: d.id,
                    body: body@,
                    author,
                    kind: claim_kind,
                    status: status_lookup(statuses, preview_id(d.id)),
                },
            ),
            _ => rest,
        }
    }
}

/// `c` lists the drafted claim `d` under `author`: the same draft id, and
/// the body and kind of the claim `d` drafts.
pub open spec fn lists_draft(c: ImpactNewClaimView, d: DraftEntry, author: Seq<char>) -> bool {
    &&& c.draft_id == d.id
    &&& c.author == author
    &&& d.entry matches DraftContent::Claim { body, claim_kind, .. }
    &&& c.body == body@
    &&& c.kind == claim_kind
}

/// Every drafted claim of `prefix` is listed with its draft id, body and
/// kind under `author`.
pub proof fn lemma_each_claim_draft_is_listed(
    prefix: Seq<DraftEntry>,
    author: Seq<char>,
    statuses: Seq<(ClaimId, EpistemicStatus)>,
)
    ensures
        forall|i: int|
            0 <= i < prefix.len() && (#[trigger] prefix[i]).entry is Claim ==> exists|j: int|
                0 <= j < new_claims_of(prefix, author, statuses).len() && lists_draft(
                    #[trigger] new_claims_of(prefix, author, statuses)[j],
                    prefix[i],
                    author,
                ),
    decreases prefix.len(),
{
    if prefix.len() > 0 {
        let front = prefix.drop_last();
        lemma_each_claim_draft_is_listed(front, author, statuses);
        let rest = new_claims_of(front, author, statuses);
        let all = new_claims_of(prefix, author, statuses);
        assert forall|i: int| 0 <= i < prefix.len() && (#[trigger] prefix[i]).entry is Claim implies exists|j: int|
            0 <= j < all.len() && lists_draft(#[trigger] all[j], prefix[i], author) by {
            if i < prefix.len() - 1 {
                assert(front[i] == prefix[i]);
                let j = choose|j: int| 0 <= j < rest.len() && lists_draft(#[trigger] rest[j], front[i], author);
                assert(all[j] == rest[j]);
            } else {
                assert(lists_draft(all[rest.len() as int], prefix[i], author));
            }
        }
    }
}

/// Everything listed is a drafted claim of `prefix`, with its draft id,
/// body and kind under `author`.
pub proof fn lemma_only_claim_drafts_are_listed(
    prefix: Seq<DraftEntry>,
    author: Seq<char>,
    statuses: Seq<(ClaimId, EpistemicStatus)>,
)
    ensures
        forall|j: int|
            0 <= j < new_claims_of(prefix, author, statuses).len() ==> exists|i: int|
                0 <= i < prefix.len() && lists_draft(
                    #[trigger] new_claims_of(prefix, author, statuses)[j],
                    #[trigger] prefix[i],
                    author,
                ),
    decreases prefix.len(),
{
    if prefix.len() > 0 {
        let front = prefix.drop_last();
        lemma_only_claim_drafts_are_listed(front, author, statuses);
        let rest = new_claims_of(front, author, statuses);
        let all = new_claims_of(prefix, author, statuses);
        assert forall|j: int| 0 <= j < all.len() implies exists|i: int|
            0 <= i < prefix.len() && lists_draft(#[trigger] all[j], #[trigger] prefix[i], author) by {
            if j < rest.len() {
                assert(all[j] == rest[j]);
                let i = choose|i: int| 0 <= i < front.len() && lists_draft(#[trigger] rest[j], #[trigger] front[i], author);
                assert(front[i] == prefix[i]);
            } else {
                assert(lists_draft(all[j], prefix[prefix.len() - 1], author));
            }
        }
    }
}

/// Claims holding the same views as the drafted claims of `drafts` list
/// exactly the claim drafts, each with its draft id, body and kind.
pub proof fn lemma_new_claims_match_drafts(
    claims: Seq<ImpactNewClaim>,
    drafts: Seq<DraftEntry>,
    author: Seq<char>,
    statuses: Seq<(ClaimId, EpistemicStatus)>,
)
    requires
        claims.map_values(|c: ImpactNewClaim| c@).to_multiset() == new_claims_of(
            drafts,
            author,
            statuses,
        ).to_multiset(),
    ensures
        forall|i: int|
            0 <= i < drafts.len() && (#[trigger] drafts[i]).entry is Claim ==> exists|j: int|
                0 <= j < claims.len() && lists_draft((#[trigger] claims[j])@, drafts[i], author),
        forall|j: int|
            0 <= j < claims.len() ==> exists|i: int|
                0 <= i < drafts.len() && lists_draft((#[trigger] claims[j])@, #[trigger] drafts[i], author),
{
    let views = claims.map_values(|c: ImpactNewClaim| c@);
    let ncs = new_claims_of(drafts, author, statuses);
    lemma_each_claim_draft_is_listed(drafts, author, statuses);
    lemma_only_claim_drafts_are_listed(drafts, author, statuses);
    assert forall|i: int| 0 <= i < drafts.len() && (#[trigger] drafts[i]).entry is Claim implies exists|j: int|
        0 <= j < claims.len() && lists_draft((#[trigger] claims[j])@, drafts[i], author) by {
        let k = choose|k: int| 0 <= k < ncs.len() && lists_draft(#[trigger] ncs[k], drafts[i], author);
        assert(ncs.contains(ncs[k]));
        assert(ncs.to_multiset().count(ncs[k]) > 0);
        assert(views.to_multiset().count(ncs[k]) > 0);
        assert(views.contains(ncs[k]));
        let j = choose|j: int| 0 <= j < views.len() && views[j] == ncs[k];
        assert(views[j] == claims[j]@);
    }
    assert forall|j: int| 0 <= j < claims.len() implies exists|i: int|
        0 <= i < drafts.len() && lists_draft((#[trigger] claims[j])@, #[trigger] drafts[i], author) by {
        assert(views[j] == claims[j]@);
        assert(views.contains(views[j]));
        assert(views.to_multiset().count(views[j]) > 0);
        assert(ncs.to_multiset().count(views[j]) > 0);
        assert(ncs.contains(views[j]));
        let k = choose|k: int| 0 <= k < ncs.len() && ncs[k] == views[j];
        let i = choose|i: int| 0 <= i < drafts.len() && lists_draft(#[trigger] ncs[k], #[trigger] drafts[i], author);
    }
}

/// The body shown for a changed claim: from the preview state if the claim
/// is there, else from the committed state.
pub open spec fn change_body(
    preview: Seq<ClaimState>,
    committed: Seq<ClaimState>,
    id: Seq<char>,
) -> Seq<char> {
    let i = claim_index(preview, id);
    let j = claim_index(committed, id);
    if i < preview.len() {
        preview[i].body@
    } else if j < committed.len() {
        committed[j].body@
    } else {
        Seq::empty()
    }
}

/// Whether committing changes the status of the committed claim `id`.
pub open spec fn status_changes_for(
    committed_statuses: Seq<(ClaimId, EpistemicStatus)>,
    preview_statuses: Seq<(ClaimId, EpistemicStatus)>,
    id: Seq<char>,
) -> bool {
    status_lookup(committed_statuses, id) != status_lookup(preview_statuses, id)
}

// ---------------------------------------------------------------------------
// Preview entries
// ---------------------------------------------------------------------------

/// The provisional claim id of the drafted claim `draft_id`.
pub fn draft_claim_preview_id(draft_id: DraftId) -> (id: ClaimId)
    ensures
        id.0@ == preview_id(draft_id),
{
    let mut text = to_string("draft-");
    append_decimal(&mut text, draft_id.0);
    ClaimId(text)
}

/// The first draft with id `draft_id`.
pub fn find_draft(drafts: &[DraftEntry], draft_id: DraftId) -> (draft: Option<&DraftEntry>)
    ensures
        draft is Some <==> draft_index(drafts@, draft_id) < drafts@.len(),
        draft matches Some(d) ==> *d == drafts@[draft_index(drafts@, draft_id)],
{
    proof {
        lemma_draft_index_from(drafts@, draft_id, 0);
    }
    let mut i: usize = 0;
    while i < drafts.len()
        invariant
            i <= drafts.len(),
            draft_index(drafts@, draft_id) == crate::drafts::draft_index_from(
                drafts@,
                draft_id,
                i as int,
            ),
        decreases drafts.len() - i,
    {
        if drafts[i].id == draft_id {
            return Some(&drafts[i]);
        }
        i += 1;
    }
    None
}

/// Check that `claim_ref` can be referenced: a committed claim, or a
/// drafted claim.
pub fn validate_claim_ref(drafts: &[DraftEntry], claim_ref: &ClaimRef) -> (result: Result<
    (),
    EngineError,
>)
    ensures
        result is Ok <==> claim_ref_error(drafts@, *claim_ref) is None,
        result matches Err(e) ==> claim_ref_error(drafts@, *claim_ref) == Some(e),
{
    match claim_ref {
        ClaimRef::Committed(_) => Ok(()),
        ClaimRef::Draft(draft_id) => match find_draft(drafts, *draft_id) {
            Some(draft) => match &draft.entry {
                DraftContent::Claim { .. } => Ok(()),
                _ => Err(EngineError::DraftReferenceMustTargetClaim(*draft_id)),
            },
            None => Err(EngineError::DraftNotFound(*draft_id)),
        },
    }
}

/// The claim id that `claim_ref` stands for in the preview.
pub fn resolve_claim_ref_for_preview(drafts: &[DraftEntry], claim_ref: &ClaimRef) -> (result: Result<
    ClaimId,
    EngineError,
>)
    ensures
        match resolved_ref(drafts@, *claim_ref) {
            Ok(id) => result matches Ok(r) && r.0@ == id,
            Err(e) => result == Err::<ClaimId, EngineError>(e),
        },
{
    match claim_ref {
        ClaimRef::Committed(claim_id) => Ok(claim_id.clone()),
        ClaimRef::Draft(draft_id) => {
            validate_claim_ref(drafts, claim_ref)?;
            Ok(draft_claim_preview_id(*draft_id))
        },
    }
}

fn resolve_optional_ref(drafts: &[DraftEntry], claim_ref: &Option<ClaimRef>) -> (result: Result<
    Option<ClaimId>,
    EngineError,
>)
    ensures
        match resolved_optional_ref(drafts@, *claim_ref) {
            Ok(id) => result matches Ok(r) && claim_id_view(r) == id,
            Err(e) => result == Err::<Option<ClaimId>, EngineError>(e),
        },
{
    match claim_ref {
        None => Ok(None),
        Some(r) => {
            let id = resolve_claim_ref_for_preview(drafts, r)?;
            Ok(Some(id))
        },
    }
}

/// The entry that `draft` becomes in the preview, written by `draft_author`.
pub fn materialize_draft_for_preview(
    drafts: &[DraftEntry],
    draft_author: &str,
    draft: &DraftEntry,
) -> (result: Result<Entry, EngineError>)
    ensures
        match preview_entry(drafts@, draft_author@, *draft) {
            Ok(v) => result matches Ok(entry) && entry@ == v,
            Err(e) => result == Err::<Entry, EngineError>(e),
        },
{
    match &draft.entry {
        DraftContent::Claim { body, claim_kind, parent } => {
            let parent_id = resolve_optional_ref(drafts, parent)?;
            Ok(
                Entry::Claim {
                    claim_id: draft_claim_preview_id(draft.id),
                    author: to_string(draft_author),
                    body: body.clone(),
                    claim_kind: *claim_kind,
                    parent_id,
                },
            )
        },
        DraftContent::Relation { source, target, kind } => {
            let source_id = resolve_claim_ref_for_preview(drafts, source)?;
            let target_id = resolve_claim_ref_for_preview(drafts, target)?;
            Ok(Entry::Relation { source_id, target_id, kind: *kind, author: to_string(draft_author) })
        },
        DraftContent::Stance { target, position } => {
            let target_id = resolve_claim_ref_for_preview(drafts, target)?;
            Ok(Entry::Stance { target_id, author: to_string(draft_author), position: *position })
        },
        DraftContent::Resolve { claim, outcome } => {
            let claim_id = resolve_claim_ref_for_preview(drafts, claim)?;
            Ok(Entry::Resolve { claim_id, author: to_string(draft_author), outcome: *outcome })
        },
        DraftContent::Comment { claim, body } => {
            let claim_id = resolve_optional_ref(drafts, claim)?;
            Ok(Entry::Comment { claim_id, author: to_string(draft_author), body: body.clone() })
        },
    }
}

/// The entries of all drafts, in draft order, or the error of the first
/// draft that refers to something it cannot.
pub fn materialize_drafts_for_preview(drafts: &[DraftEntry], draft_author: &str) -> (result: Result<
    Vec<Entry>,
    EngineError,
>)
    ensures
        match preview_entries(drafts@, draft_author@, drafts@) {
            Ok(vs) => result matches Ok(entries) && entry_views(entries@) == vs,
            Err(e) => result == Err::<Vec<Entry>, EngineError>(e),
        },
{
    let mut entries: Vec<Entry> = Vec::new();
    let mut i: usize = 0;
    assert(entry_views(entries@) =~= Seq::<EntryView>::empty());
    assert(drafts@.take(0) =~= Seq::<DraftEntry>::empty());
    while i < drafts.len()
        invariant
            i <= drafts.len(),
            preview_entries(drafts@, draft_author@, drafts@.take(i as int)) == Ok::<
                Seq<EntryView>,
                EngineError,
            >(entry_views(entries@)),
        decreases drafts.len() - i,
    {
        assert(drafts@.take(i + 1).drop_last() =~= drafts@.take(i as int));
        assert(drafts@.take(i + 1).last() == drafts@[i as int]);
        let entry = match materialize_draft_for_preview(drafts, draft_author, &drafts[i]) {
            Ok(entry) => entry,
            Err(e) => {
                proof {
                    lemma_preview_entries_error_persists(
                        drafts@,
                        draft_author@,
                        drafts@,
                        i as int + 1,
                    );
                }
                return Err(e);
            },
        };
        let ghost before = entries@;
        entries.push(entry);
        assert(entry_views(entries@) =~= entry_views(before).push(entry@));
        i += 1;
    }
    assert(drafts@.take(drafts.len() as int) =~= drafts@);
    Ok(entries)
}

proof fn lemma_preview_entries_error_persists(
    drafts: Seq<DraftEntry>,
    author: Seq<char>,
    prefix: Seq<DraftEntry>,
    k: int,
)
    requires
        0 <= k <= prefix.len(),
        preview_entries(drafts, author, prefix.take(k)) is Err,
    ensures
        preview_entries(drafts, author, prefix) == preview_entries(drafts, author, prefix.take(k)),
    decreases prefix.len() - k,
{
    if k == prefix.len() {
        assert(prefix.take(k) =~= prefix);
    } else {
        assert(prefix.take(k + 1).drop_last() =~= prefix.take(k));
        lemma_preview_entries_error_persists(drafts, author, prefix, k + 1);
    }
}

fn clone_entries(entries: &[Entry]) -> (copy: Vec<Entry>)
    ensures
        copy@ == entries@,
{
    let mut copy: Vec<Entry> = Vec::new();
    let mut i: usize = 0;
    while i < entries.len()
        invariant
            i <= entries.len(),
            copy@ == entries@.take(i as int),
        decreases entries.len() - i,
    {
        copy.push(entries[i].clone());
        assert(entries@.take(i + 1) =~= entries@.take(i as int).push(entries@[i as int]));
        i += 1;
    }
    assert(entries@.take(entries.len() as int) =~= entries@);
    copy
}

/// The committed entries followed by the entries of the drafts.
pub fn merged_entries(committed_entries: &[Entry], drafts: &[DraftEntry], draft_author: &str) -> (result: Result<
    Vec<Entry>,
    EngineError,
>)
    ensures
        match preview_entries(drafts@, draft_author@, drafts@) {
            Ok(vs) => result matches Ok(entries) && entry_views(entries@) == entry_views(
                committed_entries@,
            ) + vs,
            Err(e) => result == Err::<Vec<Entry>, EngineError>(e),
        },
{
    let mut merged = clone_entries(committed_entries);
    let mut drafted = materialize_drafts_for_preview(drafts, draft_author)?;
    let ghost (m0, d0) = (merged@, drafted@);
    merged.append(&mut drafted);
    assert(entry_views(merged@) =~= entry_views(m0) + entry_views(d0));
    Ok(merged)
}

// ---------------------------------------------------------------------------
// Impact
// ---------------------------------------------------------------------------

fn same_status(a: Option<EpistemicStatus>, b: Option<EpistemicStatus>) -> (same: bool)
    ensures
        same == (a == b),
{
    match (a, b) {
        (None, None) => true,
        (Some(x), Some(y)) => x == y,
        _ => false,
    }
}

fn change_body_exec(preview: &MaterializedState, committed: &MaterializedState, id: &str) -> (body: String)
    ensures
        body@ == change_body(preview.claims@, committed.claims@, id@),
{
    match find_claim(&preview.claims, id) {
        Some(i) => preview.claims[i].body.clone(),
        None => match find_claim(&committed.claims, id) {
            Some(j) => committed.claims[j].body.clone(),
            None => String::new(),
        },
    }
}

/// What committing the drafts would change: the drafted claims, ordered by
/// draft id, with their preview statuses; and, ordered by claim id, each
/// committed claim whose status differs between the committed and the
/// preview statuses.
pub fn build_impact_analysis(
    drafts: &[DraftEntry],
    draft_author: &str,
    committed_state: &MaterializedState,
    committed_statuses: &[(ClaimId, EpistemicStatus)],
    preview_state: &MaterializedState,
    preview_statuses: &[(ClaimId, EpistemicStatus)],
) -> (impact: ImpactAnalysis)
    ensures
        sorted(impact.new_claims@),
        impact.new_claims@.map_values(|c: ImpactNewClaim| c@).to_multiset() == new_claims_of(
            drafts@,
            draft_author@,
            preview_statuses@,
        ).to_multiset(),
        forall|i: int|
            0 <= i < drafts@.len() && (#[trigger] drafts@[i]).entry is Claim ==> exists|j: int|
                0 <= j < impact.new_claims@.len() && lists_draft(
                    (#[trigger] impact.new_claims@[j])@,
                    drafts@[i],
                    draft_author@,
                ),
        forall|j: int|
            0 <= j < impact.new_claims@.len() ==> exists|i: int|
                0 <= i < drafts@.len() && lists_draft(
                    (#[trigger] impact.new_claims@[j])@,
                    #[trigger] drafts@[i],
                    draft_author@,
                ),
        forall|a: int, b: int|
            0 <= a < b < impact.status_changes@.len() ==> chars_le(
                (#[trigger] impact.status_changes@[a]).claim_id.0@,
                (#[trigger] impact.status_changes@[b]).claim_id.0@,
            ) && impact.status_changes@[a].claim_id.0@ != impact.status_changes@[b].claim_id.0@,
        forall|a: int|
            0 <= a < impact.status_changes@.len() ==> {
                let c = #[trigger] impact.status_changes@[a];
                let id = c.claim_id.0@;
                &&& claim_index(committed_state.claims@, id) < committed_state.claims@.len()
                &&& c.before == status_lookup(committed_statuses@, id)
                &&& c.after == status_lookup(preview_statuses@, id)
                &&& c.before != c.after
                &&& c.body@ == change_body(preview_state.claims@, committed_state.claims@, id)
            },
        forall|k: int|
            0 <= k < committed_state.claims@.len() && status_changes_for(
                committed_statuses@,
                preview_statuses@,
                (#[trigger] committed_state.claims@[k]).id.0@,
            ) ==> exists|a: int|
                0 <= a < impact.status_changes@.len()
                    && (#[trigger] impact.status_changes@[a]).claim_id.0@
                    == committed_state.claims@[k].id.0@,
{
    let mut new_claims: Vec<ImpactNewClaim> = Vec::new();
    let mut i: usize = 0;
    while i < drafts.len()
        invariant
            i <= drafts.len(),
            new_claims@.map_values(|c: ImpactNewClaim| c@) == new_claims_of(
                drafts@.take(i as int),
                draft_author@,
                preview_statuses@,
            ),
        decreases drafts.len() - i,
    {
        let draft = &drafts[i];
        assert(drafts@.take(i + 1).drop_last() =~= drafts@.take(i as int));
        assert(drafts@.take(i + 1).last() == drafts@[i as int]);
        let ghost before = new_claims@;
        if let DraftContent::Claim { body, claim_kind, .. } = &draft.entry {
            let claim_id = draft_claim_preview_id(draft.id);
            let status = find_status(preview_statuses, claim_id.0.as_str());
            new_claims.push(
                ImpactNewClaim {
                    draft_id: draft.id,
                    body: body.clone(),
                    author: to_string(draft_author),
                    kind: *claim_kind,
                    status,
                },
            );
            assert(new_claims@.map_values(|c: ImpactNewClaim| c@) =~= before.map_values(
                |c: ImpactNewClaim| c@,
            ).push(new_claims@.last()@));
        }
        i += 1;
    }
    assert(drafts@.take(drafts.len() as int) =~= drafts@);
    let unsorted = new_claims;
    let new_claims = sort(unsorted);
    proof {
        lemma_map_multiset(new_claims@, unsorted@, |c: ImpactNewClaim| c@);
        lemma_new_claims_match_drafts(new_claims@, drafts@, draft_author@, preview_statuses@);
    }

    let mut ids: Vec<String> = Vec::new();
    let mut j: usize = 0;
    while j < committed_state.claims.len()
        invariant
            j <= committed_state.claims.len(),
            string_views(ids@) == committed_state.claims@.take(j as int).map_values(
                |c: ClaimState| c.id.0@,
            ),
        decreases committed_state.claims.len() - j,
    {
        let ghost before = ids@;
        ids.push(committed_state.claims[j].id.0.clone());
        assert(string_views(ids@) =~= string_views(before).push(committed_state.claims@[j as int].id.0@));
        assert(committed_state.claims@.take(j + 1).map_values(|c: ClaimState| c.id.0@) =~= committed_state.claims@.take(
            j as int,
        ).map_values(|c: ClaimState| c.id.0@).push(committed_state.claims@[j as int].id.0@));
        j += 1;
    }
    assert(committed_state.claims@.take(committed_state.claims.len() as int) =~= committed_state.claims@);
    let ghost committed_ids = string_views(ids@);
    let unique = sorted_unique(ids);

    let mut status_changes: Vec<ImpactStatusChange> = Vec::new();
    let mut k: usize = 0;
    while k < unique.len()
        invariant
            k <= unique.len(),
            committed_ids == committed_state.claims@.map_values(|c: ClaimState| c.id.0@),
            forall|a: int, b: int|
                0 <= a < b < unique@.len() ==> chars_le(
                    (#[trigger] unique@[a])@,
                    (#[trigger] unique@[b])@,
                ) && unique@[a]@ != unique@[b]@,
            forall|name: Seq<char>|
                string_views(unique@).contains(name) <==> committed_ids.contains(name),
            forall|a: int|
                0 <= a < status_changes@.len() ==> exists|m: int|
                    0 <= m < k && (#[trigger] status_changes@[a]).claim_id.0@ == unique@[m]@,
            forall|a: int, b: int|
                0 <= a < b < status_changes@.len() ==> chars_le(
                    (#[trigger] status_changes@[a]).claim_id.0@,
                    (#[trigger] status_changes@[b]).claim_id.0@,
                ) && status_changes@[a].claim_id.0@ != status_changes@[b].claim_id.0@,
            forall|a: int|
                0 <= a < status_changes@.len() ==> {
                    let c = #[trigger] status_changes@[a];
                    let id = c.claim_id.0@;
                    &&& committed_ids.contains(id)
                    &&& c.before == status_lookup(committed_statuses@, id)
                    &&& c.after == status_lookup(preview_statuses@, id)
                    &&& c.before != c.after
                    &&& c.body@ == change_body(preview_state.claims@, committed_state.claims@, id)
                },
            forall|m: int|
                0 <= m < k && status_changes_for(
                    committed_statuses@,
                    preview_statuses@,
                    (#[trigger] unique@[m])@,
                ) ==> exists|a: int|
                    0 <= a < status_changes@.len() && (#[trigger] status_changes@[a]).claim_id.0@
                        == unique@[m]@,
        decreases unique.len() - k,
    {
        let id = unique[k].as_str();
        let before = find_status(committed_statuses, id);
        let after = find_status(preview_statuses, id);
        let ghost old_changes = status_changes@;
        if !same_status(before, after) {
            let body = change_body_exec(preview_state, committed_state, id);
            proof {
                assert(string_views(unique@)[k as int] == unique@[k as int]@);
            }
            status_changes.push(
                ImpactStatusChange { claim_id: ClaimId(unique[k].clone()), body, before, after },
            );
            proof {
                assert forall|a: int, b: int|
                    0 <= a < b < status_changes@.len() implies chars_le(
                        (#[trigger] status_changes@[a]).claim_id.0@,
                        (#[trigger] status_changes@[b]).claim_id.0@,
                    ) && status_changes@[a].claim_id.0@ != status_changes@[b].claim_id.0@ by {
                    if b == status_changes@.len() - 1 {
                        assert(status_changes@[a] == old_changes[a]);
                        let m = choose|m: int| 0 <= m < k && old_changes[a].claim_id.0@ == unique@[m]@;
                        assert(chars_le(unique@[m]@, unique@[k as int]@));
                    } else {
                        assert(status_changes@[a] == old_changes[a]);
                        assert(status_changes@[b] == old_changes[b]);
                    }
                }
                assert forall|a: int|
                    0 <= a < status_changes@.len() implies exists|m: int|
                        0 <= m < k + 1 && (#[trigger] status_changes@[a]).claim_id.0@ == unique@[m]@ by {
                    if a < old_changes.len() {
                        assert(status_changes@[a] == old_changes[a]);
                        let m = choose|m: int| 0 <= m < k && old_changes[a].claim_id.0@ == unique@[m]@;
                    } else {
                        assert(status_changes@[a].claim_id.0@ == unique@[k as int]@);
                    }
                }
                assert forall|a: int| 0 <= a < status_changes@.len() implies {
                    let c = #[trigger] status_changes@[a];
                    let id = c.claim_id.0@;
                    &&& committed_ids.contains(id)
                    &&& c.before == status_lookup(committed_statuses@, id)
                    &&& c.after == status_lookup(preview_statuses@, id)
                    &&& c.before != c.after
                    &&& c.body@ == change_body(preview_state.claims@, committed_state.claims@, id)
                } by {
                    if a < old_changes.len() {
                        assert(status_changes@[a] == old_changes[a]);
                    } else {
                        assert(string_views(unique@).contains(unique@[k as int]@));
                    }
                }
                assert forall|m: int|
                    0 <= m < k + 1 && status_changes_for(
                        committed_statuses@,
                        preview_statuses@,
                        (#[trigger] unique@[m])@,
                    ) implies exists|a: int|
                    0 <= a < status_changes@.len() && (#[trigger] status_changes@[a]).claim_id.0@
                        == unique@[m]@ by {
                    if m < k {
                        let a = choose|a: int|
                            0 <= a < old_changes.len() && (#[trigger] old_changes[a]).claim_id.0@
                                == unique@[m]@;
                        assert(status_changes@[a] == old_changes[a]);
                    } else {
                        assert(status_changes@[old_changes.len() as int].claim_id.0@ == unique@[m]@);
                    }
                }
            }
        } else {
            proof {
                assert forall|a: int|
                    0 <= a < status_changes@.len() implies exists|m: int|
                        0 <= m < k + 1 && (#[trigger] status_changes@[a]).claim_id.0@ == unique@[m]@ by {
                    let m = choose|m: int| 0 <= m < k && status_changes@[a].claim_id.0@ == unique@[m]@;
                }
            }
        }
        k += 1;
    }
    proof {
        assert forall|q: int|
            0 <= q < committed_state.claims@.len() && status_changes_for(
                committed_statuses@,
                preview_statuses@,
                (#[trigger] committed_state.claims@[q]).id.0@,
            ) implies exists|a: int|
            0 <= a < status_changes@.len() && (#[trigger] status_changes@[a]).claim_id.0@
                == committed_state.claims@[q].id.0@ by {
            let id = committed_state.claims@[q].id.0@;
            assert(committed_ids[q] == id);
            assert(committed_ids.contains(id));
            let m = choose|m: int| 0 <= m < unique@.len() && string_views(unique@)[m] == id;
            assert(unique@[m]@ == id);
        }
        assert forall|a: int| 0 <= a < status_changes@.len() implies claim_index(
            committed_state.claims@,
            (#[trigger] status_changes@[a]).claim_id.0@,
        ) < committed_state.claims@.len() by {
            let id = status_changes@[a].claim_id.0@;
            let q = choose|q: int| 0 <= q < committed_ids.len() && committed_ids[q] == id;
            lemma_claim_index_from(committed_state.claims@, id, 0);
            assert(committed_state.claims@[q].id.0@ == id);
        }
    }
    ImpactAnalysis { new_claims, status_changes }
}

} // verus!
