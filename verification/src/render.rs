//! Structured views of the deliberation state: an overview of all claims
//! and the detail of one claim with its relations.
use vstd::prelude::*;

use crate::materialized::{
    find_claim, find_status, lemma_claim_index_from, claim_index, status_lookup, ClaimState,
    EpistemicStatus, MaterializedState, RelationState, Resolution, StanceState,
};
use crate::materialized::clone_resolution_option;
use crate::order::{lemma_map_multiset, sort, sort_strings, sorted, sorted_chars, string_views, SortOrder};
use crate::strings::{
    chars_le, lemma_chars_le_antisymmetric, lemma_chars_le_total, lemma_chars_le_transitive,
    str_eq, str_le,
};
use crate::types::{ClaimId, ClaimKind, Outcome, Position, RelationKind};
use crate::types::clone_claim_id_option;

verus! {

broadcast use {vstd::seq_lib::group_to_multiset_ensures, vstd::multiset::group_multiset_axioms};

// ---------------------------------------------------------------------------
// Structured types
// ---------------------------------------------------------------------------

/// The authors of the stances on one claim that share a position.
#[derive(Debug, PartialEq, Eq)]
pub struct StanceSummary {
    pub position: Position,
    pub authors: Vec<String>,
}

/// Summary of one claim.
#[derive(Debug, PartialEq, Eq)]
pub struct ClaimSummary {
    pub id: ClaimId,
    pub body: String,
    pub author: String,
    pub kind: ClaimKind,
    pub status: Option<EpistemicStatus>,
    pub stances: Vec<StanceSummary>,
    pub parent_id: Option<ClaimId>,
    pub resolution: Option<Resolution>,
}

/// Something in the deliberation that needs a participant's attention.
#[derive(Debug, PartialEq, Eq)]
pub enum AttentionSignal {
    Unexamined { claim_id: ClaimId, body: String, author: String },
    Contested { claim_id: ClaimId, body: String, blockers: Vec<String> },
    UnresolvedCycle { claim_ids: Vec<ClaimId> },
}

/// High-level overview of the deliberation.
#[derive(Debug, PartialEq, Eq)]
pub struct OverviewData {
    pub total_claims: usize,
    pub total_relations: usize,
    pub total_stances: usize,
    pub participants: Vec<String>,
    pub items: Vec<ClaimSummary>,
    pub proposals: Vec<ClaimSummary>,
    pub resolved: Vec<ClaimSummary>,
    pub attention: Vec<AttentionSignal>,
}

/// One claim with the claims related to it.
#[derive(Debug, PartialEq, Eq)]
pub struct ClaimDetail {
    pub claim: ClaimSummary,
    pub attacked_by: Vec<ClaimSummary>,
    pub supported_by: Vec<ClaimSummary>,
    pub attacks: Vec<ClaimSummary>,
    pub supports: Vec<ClaimSummary>,
}

// ---------------------------------------------------------------------------
// Mathematical model
// ---------------------------------------------------------------------------

/// What a claim summary says, as plain values.
pub struct ClaimSummaryView {
    pub id: Seq<char>,
    pub body: Seq<char>,
    pub author: Seq<char>,
    pub kind: ClaimKind,
    pub status: Option<EpistemicStatus>,
    pub stances: Seq<(Position, Seq<Seq<char>>)>,
    pub parent_id: Option<Seq<char>>,
    pub resolution: Option<(Outcome, Seq<char>)>,
}

/// What an attention signal says, as plain values.
pub enum AttentionView {
    Unexamined { id: Seq<char>, body: Seq<char>, author: Seq<char> },
    Contested { id: Seq<char>, body: Seq<char>, blockers: Seq<Seq<char>> },
    UnresolvedCycle { ids: Seq<Seq<char>> },
}

pub open spec fn optional_id_view(id: Option<ClaimId>) -> Option<Seq<char>> {
    match id {
        Some(id) => Some(id.0@),
        None => None,
    }
}

pub open spec fn resolution_view(r: Option<Resolution>) -> Option<(Outcome, Seq<char>)> {
    match r {
        Some(r) => Some((r.outcome, r.author@)),
        None => None,
    }
}

pub open spec fn stance_view(s: StanceSummary) -> (Position, Seq<Seq<char>>) {
    (s.position, string_views(s.authors@))
}

impl View for ClaimSummary {
    type V = ClaimSummaryView;

    open spec fn view(&self) -> ClaimSummaryView {
        ClaimSummaryView {
            id: self.id.0@,
            body: self.body@,
            author: self.author@,
            kind: self.kind,
            status: self.status,
            stances: self.stances@.map_values(|s: StanceSummary| stance_view(s)),
            parent_id: optional_id_view(self.parent_id),
            resolution: resolution_view(self.resolution),
        }
    }
}

impl View for AttentionSignal {
    type V = AttentionView;

    open spec fn view(&self) -> AttentionView {
        match self {
            AttentionSignal::Unexamined { claim_id, body, author } => AttentionView::Unexamined {
                id: claim_id.0@,
                body: body@,
                author: author@,
            },
            AttentionSignal::Contested { claim_id, body, blockers } => AttentionView::Contested {
                id: claim_id.0@,
                body: body@,
                blockers: string_views(blockers@),
            },
            AttentionSignal::UnresolvedCycle { claim_ids } => AttentionView::UnresolvedCycle {
                ids: claim_ids@.map_values(|id: ClaimId| id.0@),
            },
        }
    }
}

pub open spec fn summary_views(s: Seq<ClaimSummary>) -> Seq<ClaimSummaryView> {
    s.map_values(|x: ClaimSummary| x@)
}

pub open spec fn signal_views(s: Seq<AttentionSignal>) -> Seq<AttentionView> {
    s.map_values(|x: AttentionSignal| x@)
}

/// The position of rank `rank`, from `Block` (0) to `Champion` (6).
pub open spec fn position_at(rank: int) -> Position {
    if rank <= 0 {
        Position::Block
    } else if rank == 1 {
        Position::Object
    } else if rank == 2 {
        Position::StandAside
    } else if rank == 3 {
        Position::Abstain
    } else if rank == 4 {
        Position::Consent
    } else if rank == 5 {
        Position::Support
    } else {
        Position::Champion
    }
}

/// Authors of the stances on `target` with `position`, in stance order.
pub open spec fn authors_with(stances: Seq<StanceState>, target: Seq<char>, position: Position) -> Seq<
    Seq<char>,
>
    decreases stances.len(),
{
    if stances.len() == 0 {
        Seq::empty()
    } else {
        let rest = authors_with(stances.drop_last(), target, position);
        let s = stances.last();
        if s.target_id.0@ == target && s.position == position {
            rest.push(s.author@)
        } else {
            rest
        }
    }
}

/// The stance groups of positions of rank below `k`, in rank order, each
/// with its authors in code point order; positions without stances are left
/// out.
pub open spec fn stance_groups_upto(stances: Seq<StanceState>, target: Seq<char>, k: int) -> Seq<
    (Position, Seq<Seq<char>>),
>
    decreases k,
{
    if k <= 0 {
        Seq::empty()
    } else {
        let groups = stance_groups_upto(stances, target, k - 1);
        let authors = authors_with(stances, target, position_at(k - 1));
        if authors.len() > 0 {
            groups.push((position_at(k - 1), sorted_chars(authors)))
        } else {
            groups
        }
    }
}

/// The summary of `claim`.
pub open spec fn summary_of(
    claim: ClaimState,
    stances: Seq<StanceState>,
    statuses: Seq<(ClaimId, EpistemicStatus)>,
) -> ClaimSummaryView {
    ClaimSummaryView {
        id: claim.id.0@,
        body: claim.body@,
        author: claim.author@,
        kind: claim.kind,
        status: status_lookup(statuses, claim.id.0@),
        stances: stance_groups_upto(stances, claim.id.0@, 7),
        parent_id: optional_id_view(claim.parent_id),
        resolution: resolution_view(claim.resolution),
    }
}

/// The overview lists: 0 for open items, 1 for open proposals, 2 for
/// resolved claims of any kind.
pub open spec fn in_list(claim: ClaimState, list: int) -> bool {
    if list == 2 {
        claim.resolution is Some
    } else if list == 1 {
        claim.resolution is None && claim.kind == ClaimKind::Proposal
    } else {
        claim.resolution is None && claim.kind == ClaimKind::Item
    }
}

/// Summaries of the claims that belong in overview list `list`, in claim
/// order.
pub open spec fn summaries_in(
    claims: Seq<ClaimState>,
    stances: Seq<StanceState>,
    statuses: Seq<(ClaimId, EpistemicStatus)>,
    list: int,
) -> Seq<ClaimSummaryView>
    decreases claims.len(),
{
    if claims.len() == 0 {
        Seq::empty()
    } else {
        let rest = summaries_in(claims.drop_last(), stances, statuses, list);
        if in_list(claims.last(), list) {
            rest.push(summary_of(claims.last(), stances, statuses))
        } else {
            rest
        }
    }
}

/// Every summary on the resolved list is that of a resolved claim, with
/// the claim's id and its resolution: its outcome and who resolved it.
pub proof fn lemma_resolved_summaries_keep_resolutions(
    claims: Seq<ClaimState>,
    stances: Seq<StanceState>,
    statuses: Seq<(ClaimId, EpistemicStatus)>,
)
    ensures
        forall|j: int|
            0 <= j < summaries_in(claims, stances, statuses, 2).len() ==> exists|k: int|
                0 <= k < claims.len() && keeps_resolution(
                    #[trigger] summaries_in(claims, stances, statuses, 2)[j],
                    #[trigger] claims[k],
                ),
    decreases claims.len(),
{
    if claims.len() > 0 {
        let front = claims.drop_last();
        lemma_resolved_summaries_keep_resolutions(front, stances, statuses);
        let rest = summaries_in(front, stances, statuses, 2);
        let all = summaries_in(claims, stances, statuses, 2);
        assert forall|j: int| 0 <= j < all.len() implies exists|k: int|
            0 <= k < claims.len() && keeps_resolution(#[trigger] all[j], #[trigger] claims[k]) by {
            if j < rest.len() {
                assert(all[j] == rest[j]);
                let k = choose|k: int| 0 <= k < front.len() && keeps_resolution(#[trigger] rest[j], #[trigger] front[k]);
                assert(front[k] == claims[k]);
            } else {
                assert(keeps_resolution(all[j], claims[claims.len() - 1]));
            }
        }
    }
}

/// Summaries holding the same views as the resolved list are each that of
/// a resolved claim, with its id and resolution.
pub proof fn lemma_listed_summaries_keep_resolutions(
    listed: Seq<ClaimSummary>,
    claims: Seq<ClaimState>,
    stances: Seq<StanceState>,
    statuses: Seq<(ClaimId, EpistemicStatus)>,
)
    requires
        summary_views(listed).to_multiset() == summaries_in(claims, stances, statuses, 2).to_multiset(),
    ensures
        forall|i: int|
            0 <= i < listed.len() ==> exists|k: int|
                0 <= k < claims.len() && keeps_resolution((#[trigger] listed[i])@, claims[k]),
{
    let views = summary_views(listed);
    let all = summaries_in(claims, stances, statuses, 2);
    lemma_resolved_summaries_keep_resolutions(claims, stances, statuses);
    assert forall|i: int| 0 <= i < listed.len() implies exists|k: int|
        0 <= k < claims.len() && keeps_resolution((#[trigger] listed[i])@, claims[k]) by {
        assert(views[i] == listed[i]@);
        assert(views.contains(views[i]));
        assert(views.to_multiset().count(views[i]) > 0);
        assert(all.to_multiset().count(views[i]) > 0);
        assert(all.contains(views[i]));
        let j = choose|j: int| 0 <= j < all.len() && all[j] == views[i];
        let k = choose|k: int| 0 <= k < claims.len() && keeps_resolution(#[trigger] all[j], #[trigger] claims[k]);
    }
}

/// `summary` is that of a resolved claim `claim`: the same id, and the
/// claim's outcome and resolver.
pub open spec fn keeps_resolution(summary: ClaimSummaryView, claim: ClaimState) -> bool {
    &&& summary.id == claim.id.0@
    &&& claim.resolution matches Some(r)
    &&& summary.resolution matches Some((outcome, author))
    &&& outcome == r.outcome
    &&& author == r.author@
}

/// Authors of negative stances on `target`, in stance order.
pub open spec fn blockers_of(stances: Seq<StanceState>, target: Seq<char>) -> Seq<Seq<char>>
    decreases stances.len(),
{
    if stances.len() == 0 {
        Seq::empty()
    } else {
        let rest = blockers_of(stances.drop_last(), target);
        let s = stances.last();
        if s.target_id.0@ == target && s.position.spec_is_negative() {
            rest.push(s.author@)
        } else {
            rest
        }
    }
}

/// The signal for one status entry, when its claim exists and the status
/// calls for attention.
pub open spec fn signal_for(
    entry: (ClaimId, EpistemicStatus),
    claims: Seq<ClaimState>,
    stances: Seq<StanceState>,
) -> Option<AttentionView> {
    let id = entry.0.0@;
    let i = claim_index(claims, id);
    if i >= claims.len() {
        None
    } else {
        let claim = claims[i];
        match entry.1 {
            EpistemicStatus::Unexamined => Some(
                AttentionView::Unexamined { id, body: claim.body@, author: claim.author@ },
            ),
            EpistemicStatus::Contested => Some(
                AttentionView::Contested {
                    id,
                    body: claim.body@,
                    blockers: blockers_of(stances, id),
                },
            ),
            EpistemicStatus::Unresolved => Some(AttentionView::UnresolvedCycle { ids: seq![id] }),
            _ => None,
        }
    }
}

/// The signals of the status entries, in entry order.
pub open spec fn signals_from(
    statuses: Seq<(ClaimId, EpistemicStatus)>,
    claims: Seq<ClaimState>,
    stances: Seq<StanceState>,
) -> Seq<AttentionView>
    decreases statuses.len(),
{
    if statuses.len() == 0 {
        Seq::empty()
    } else {
        let rest = signals_from(statuses.drop_last(), claims, stances);
        match signal_for(statuses.last(), claims, stances) {
            Some(signal) => rest.push(signal),
            None => rest,
        }
    }
}

/// Signals order by kind (contested, unexamined, unresolved), then by id.
pub open spec fn signal_rank(s: AttentionView) -> int {
    match s {
        AttentionView::Contested { .. } => 0,
        AttentionView::Unexamined { .. } => 1,
        AttentionView::UnresolvedCycle { .. } => 2,
    }
}

pub open spec fn signal_key(s: AttentionView) -> Seq<char> {
    match s {
        AttentionView::Contested { id, .. } => id,
        AttentionView::Unexamined { id, .. } => id,
        AttentionView::UnresolvedCycle { ids } => if ids.len() > 0 {
            ids[0]
        } else {
            Seq::empty()
        },
    }
}

pub open spec fn signal_precedes(a: AttentionView, b: AttentionView) -> bool {
    signal_rank(a) < signal_rank(b) || (signal_rank(a) == signal_rank(b) && chars_le(
        signal_key(a),
        signal_key(b),
    ))
}

/// Summaries of the claims related to `id`: with `outgoing`, the targets
/// of its relations of `kind`; otherwise their sources. Relations whose other
/// end is not a claim are skipped.
pub open spec fn related(
    relations: Seq<RelationState>,
    claims: Seq<ClaimState>,
    stances: Seq<StanceState>,
    statuses: Seq<(ClaimId, EpistemicStatus)>,
    id: Seq<char>,
    outgoing: bool,
    kind: RelationKind,
) -> Seq<ClaimSummaryView>
    decreases relations.len(),
{
    if relations.len() == 0 {
        Seq::empty()
    } else {
        let rest = related(relations.drop_last(), claims, stances, statuses, id, outgoing, kind);
        let r = relations.last();
        let (near, far) = if outgoing {
            (r.source_id.0@, r.target_id.0@)
        } else {
            (r.target_id.0@, r.source_id.0@)
        };
        let i = claim_index(claims, far);
        if near == id && r.kind == kind && i < claims.len() {
            rest.push(summary_of(claims[i], stances, statuses))
        } else {
            rest
        }
    }
}

/// The relation `r` of kind `kind` links the claim `id` to the claim
/// `other`: with `outgoing`, from `id` to `other`; otherwise from `other`
/// to `id`.
pub open spec fn links(r: RelationState, id: Seq<char>, other: Seq<char>, outgoing: bool, kind: RelationKind) -> bool {
    &&& r.kind == kind
    &&& if outgoing {
        r.source_id.0@ == id && r.target_id.0@ == other
    } else {
        r.target_id.0@ == id && r.source_id.0@ == other
    }
}

/// The related list of `id` for a kind and a direction lists every claim
/// that a relation of that kind links to `id` in that direction, and lists
/// only such claims.
pub proof fn lemma_related_lists_linked_claims(
    relations: Seq<RelationState>,
    claims: Seq<ClaimState>,
    stances: Seq<StanceState>,
    statuses: Seq<(ClaimId, EpistemicStatus)>,
    id: Seq<char>,
    outgoing: bool,
    kind: RelationKind,
)
    ensures
        forall|t: int, k: int|
            0 <= t < relations.len() && 0 <= k < claims.len() && links(
                #[trigger] relations[t],
                id,
                (#[trigger] claims[k]).id.0@,
                outgoing,
                kind,
            ) ==> exists|j: int|
                0 <= j < related(relations, claims, stances, statuses, id, outgoing, kind).len()
                    && (#[trigger] related(relations, claims, stances, statuses, id, outgoing, kind)[j]).id
                    == claims[k].id.0@,
        forall|j: int|
            0 <= j < related(relations, claims, stances, statuses, id, outgoing, kind).len() ==> exists|t: int|
                0 <= t < relations.len() && links(
                    #[trigger] relations[t],
                    id,
                    (#[trigger] related(relations, claims, stances, statuses, id, outgoing, kind)[j]).id,
                    outgoing,
                    kind,
                ),
    decreases relations.len(),
{
    if relations.len() > 0 {
        let front = relations.drop_last();
        lemma_related_lists_linked_claims(front, claims, stances, statuses, id, outgoing, kind);
        let rest = related(front, claims, stances, statuses, id, outgoing, kind);
        let all = related(relations, claims, stances, statuses, id, outgoing, kind);
        let r = relations.last();
        let far = if outgoing { r.target_id.0@ } else { r.source_id.0@ };
        lemma_claim_index_from(claims, far, 0);
        let i = claim_index(claims, far);
        assert forall|t: int, k: int|
            0 <= t < relations.len() && 0 <= k < claims.len() && links(
                #[trigger] relations[t],
                id,
                (#[trigger] claims[k]).id.0@,
                outgoing,
                kind,
            ) implies exists|j: int| 0 <= j < all.len() && (#[trigger] all[j]).id == claims[k].id.0@ by {
            if t < relations.len() - 1 {
                assert(front[t] == relations[t]);
                let j = choose|j: int| 0 <= j < rest.len() && (#[trigger] rest[j]).id == claims[k].id.0@;
                assert(all[j] == rest[j]);
            } else {
                if i >= claims.len() {
                    assert(claims[k].id.0@ != far);
                }
                assert(all[rest.len() as int].id == claims[i].id.0@);
            }
        }
        assert forall|j: int| 0 <= j < all.len() implies exists|t: int|
            0 <= t < relations.len() && links(#[trigger] relations[t], id, (#[trigger] all[j]).id, outgoing, kind) by {
            if j < rest.len() {
                assert(all[j] == rest[j]);
                let t = choose|t: int| 0 <= t < front.len() && links(#[trigger] front[t], id, (#[trigger] rest[j]).id, outgoing, kind);
                assert(front[t] == relations[t]);
            } else {
                assert(links(relations[relations.len() - 1], id, all[j].id, outgoing, kind));
            }
        }
    }
}

/// `list` holds the summaries of exactly the claims that a relation of
/// `kind` links to `id` in the direction `outgoing`: each such claim is
/// listed, and each listed summary is of such a claim.
pub open spec fn lists_linked(
    list: Seq<ClaimSummary>,
    relations: Seq<RelationState>,
    claims: Seq<ClaimState>,
    id: Seq<char>,
    outgoing: bool,
    kind: RelationKind,
) -> bool {
    &&& forall|t: int, k: int|
        0 <= t < relations.len() && 0 <= k < claims.len() && links(
            #[trigger] relations[t],
            id,
            (#[trigger] claims[k]).id.0@,
            outgoing,
            kind,
        ) ==> exists|j: int| 0 <= j < list.len() && (#[trigger] list[j]).id.0@ == claims[k].id.0@
    &&& forall|j: int|
        0 <= j < list.len() ==> exists|t: int|
            0 <= t < relations.len() && links(#[trigger] relations[t], id, (#[trigger] list[j]).id.0@, outgoing, kind)
}

proof fn lemma_list_links(
    list: Seq<ClaimSummary>,
    relations: Seq<RelationState>,
    claims: Seq<ClaimState>,
    stances: Seq<StanceState>,
    statuses: Seq<(ClaimId, EpistemicStatus)>,
    id: Seq<char>,
    outgoing: bool,
    kind: RelationKind,
)
    requires
        summary_views(list) == related(relations, claims, stances, statuses, id, outgoing, kind),
    ensures
        lists_linked(list, relations, claims, id, outgoing, kind),
{
    lemma_related_lists_linked_claims(relations, claims, stances, statuses, id, outgoing, kind);
    let rel = related(relations, claims, stances, statuses, id, outgoing, kind);
    assert forall|t: int, k: int|
        0 <= t < relations.len() && 0 <= k < claims.len() && links(
            #[trigger] relations[t],
            id,
            (#[trigger] claims[k]).id.0@,
            outgoing,
            kind,
        ) implies exists|j: int| 0 <= j < list.len() && (#[trigger] list[j]).id.0@ == claims[k].id.0@ by {
        let j = choose|j: int| 0 <= j < rel.len() && (#[trigger] rel[j]).id == claims[k].id.0@;
        assert(summary_views(list)[j] == list[j]@);
    }
    assert forall|j: int| 0 <= j < list.len() implies exists|t: int|
        0 <= t < relations.len() && links(#[trigger] relations[t], id, (#[trigger] list[j]).id.0@, outgoing, kind) by {
        assert(summary_views(list)[j] == list[j]@);
        assert(rel[j].id == list[j].id.0@);
    }
}

// ---------------------------------------------------------------------------
// Orders
// ---------------------------------------------------------------------------

impl SortOrder for ClaimSummary {
    open spec fn precedes(self, other: Self) -> bool {
        chars_le(self.id.0@, other.id.0@)
    }

    proof fn lemma_total(a: Self, b: Self) {
        lemma_chars_le_total(a.id.0@, b.id.0@);
    }

    proof fn lemma_transitive(a: Self, b: Self, c: Self) {
        lemma_chars_le_transitive(a.id.0@, b.id.0@, c.id.0@);
    }

    fn precedes_exec(&self, other: &Self) -> (r: bool) {
        str_le(self.id.0.as_str(), other.id.0.as_str())
    }
}

fn signal_rank_exec(s: &AttentionSignal) -> (rank: u8)
    ensures
        rank == signal_rank(s@),
{
    match s {
        AttentionSignal::Contested { .. } => 0,
        AttentionSignal::Unexamined { .. } => 1,
        AttentionSignal::UnresolvedCycle { .. } => 2,
    }
}

fn signal_key_exec(s: &AttentionSignal) -> (key: &str)
    ensures
        key@ == signal_key(s@),
{
    match s {
        AttentionSignal::Contested { claim_id, .. } => claim_id.0.as_str(),
        AttentionSignal::Unexamined { claim_id, .. } => claim_id.0.as_str(),
        AttentionSignal::UnresolvedCycle { claim_ids } => {
            if claim_ids.len() > 0 {
                claim_ids[0].0.as_str()
            } else {
                proof {
                    reveal_strlit("");
                }
                ""
            }
        },
    }
}

impl SortOrder for AttentionSignal {
    open spec fn precedes(self, other: Self) -> bool {
        signal_precedes(self@, other@)
    }

    proof fn lemma_total(a: Self, b: Self) {
        lemma_chars_le_total(signal_key(a@), signal_key(b@));
    }

    proof fn lemma_transitive(a: Self, b: Self, c: Self) {
        if signal_rank(a@) == signal_rank(b@) && signal_rank(b@) == signal_rank(c@) {
            lemma_chars_le_transitive(signal_key(a@), signal_key(b@), signal_key(c@));
        }
    }

    fn precedes_exec(&self, other: &Self) -> (r: bool) {
        let ra = signal_rank_exec(self);
        let rb = signal_rank_exec(other);
        if ra != rb {
            ra < rb
        } else {
            str_le(signal_key_exec(self), signal_key_exec(other))
        }
    }
}

// ---------------------------------------------------------------------------
// Builders
// ---------------------------------------------------------------------------

fn position_of_rank(rank: u8) -> (position: Position)
    ensures
        position == position_at(rank as int),
{
    match rank {
        0 => Position::Block,
        1 => Position::Object,
        2 => Position::StandAside,
        3 => Position::Abstain,
        4 => Position::Consent,
        5 => Position::Support,
        _ => Position::Champion,
    }
}

fn collect_authors(stances: &Vec<StanceState>, target: &str, position: Position) -> (authors: Vec<
    String,
>)
    ensures
        string_views(authors@) == authors_with(stances@, target@, position),
{
    let mut authors: Vec<String> = Vec::new();
    let mut j: usize = 0;
    while j < stances.len()
        invariant
            j <= stances.len(),
            string_views(authors@) == authors_with(stances@.take(j as int), target@, position),
        decreases stances.len() - j,
    {
        let s = &stances[j];
        assert(stances@.take(j + 1).drop_last() =~= stances@.take(j as int));
        let ghost before = authors@;
        if s.position == position && str_eq(s.target_id.0.as_str(), target) {
            authors.push(s.author.clone());
            assert(string_views(authors@) =~= string_views(before).push(s.author@));
        }
        j += 1;
    }
    assert(stances@.take(stances.len() as int) =~= stances@);
    authors
}

/// Summarize one claim: its fields, its status and its stances grouped by
/// position.
pub fn build_claim_summary(
    claim: &ClaimState,
    statuses: &[(ClaimId, EpistemicStatus)],
    state: &MaterializedState,
) -> (summary: ClaimSummary)
    ensures
        summary@ == summary_of(*claim, state.stances@, statuses@),
        summary.id.0@ == claim.id.0@,
        summary.body@ == claim.body@,
        summary.author@ == claim.author@,
        summary.kind == claim.kind,
        summary.resolution == claim.resolution,
        summary.parent_id == claim.parent_id,
        summary.status == status_lookup(statuses@, claim.id.0@),
{
    let status = find_status(statuses, claim.id.0.as_str());
    let mut stances: Vec<StanceSummary> = Vec::new();
    let mut rank: u8 = 0;
    while rank < 7
        invariant
            rank <= 7,
            stances@.map_values(|s: StanceSummary| stance_view(s)) == stance_groups_upto(
                state.stances@,
                claim.id.0@,
                rank as int,
            ),
        decreases 7 - rank,
    {
        let position = position_of_rank(rank);
        let authors = collect_authors(&state.stances, claim.id.0.as_str(), position);
        let ghost before = stances@;
        if authors.len() > 0 {
            let sorted_authors = sort_strings(authors);
            stances.push(StanceSummary { position, authors: sorted_authors });
            assert(stances@.map_values(|s: StanceSummary| stance_view(s)) =~= before.map_values(
                |s: StanceSummary| stance_view(s),
            ).push((position, sorted_chars(authors_with(state.stances@, claim.id.0@, position)))));
        }
        rank += 1;
    }
    let summary = ClaimSummary {
        id: claim.id.clone(),
        body: claim.body.clone(),
        author: claim.author.clone(),
        kind: claim.kind,
        status,
        stances,
        parent_id: clone_claim_id_option(&claim.parent_id),
        resolution: clone_resolution_option(&claim.resolution),
    };
    summary
}

fn collect_blockers(stances: &Vec<StanceState>, target: &str) -> (blockers: Vec<String>)
    ensures
        string_views(blockers@) == blockers_of(stances@, target@),
{
    let mut blockers: Vec<String> = Vec::new();
    let mut j: usize = 0;
    while j < stances.len()
        invariant
            j <= stances.len(),
            string_views(blockers@) == blockers_of(stances@.take(j as int), target@),
        decreases stances.len() - j,
    {
        let s = &stances[j];
        assert(stances@.take(j + 1).drop_last() =~= stances@.take(j as int));
        let ghost before = blockers@;
        if s.position.is_negative() && str_eq(s.target_id.0.as_str(), target) {
            blockers.push(s.author.clone());
            assert(string_views(blockers@) =~= string_views(before).push(s.author@));
        }
        j += 1;
    }
    assert(stances@.take(stances.len() as int) =~= stances@);
    blockers
}

/// The attention signals of the status entries, ordered by kind
/// (contested, unexamined, unresolved) and then by claim id.
pub fn build_attention_signals(
    state: &MaterializedState,
    statuses: &[(ClaimId, EpistemicStatus)],
) -> (signals: Vec<AttentionSignal>)
    ensures
        sorted(signals@),
        signal_views(signals@).to_multiset() == signals_from(
            statuses@,
            state.claims@,
            state.stances@,
        ).to_multiset(),
{
    let mut signals: Vec<AttentionSignal> = Vec::new();
    let mut i: usize = 0;
    while i < statuses.len()
        invariant
            i <= statuses.len(),
            signal_views(signals@) == signals_from(
                statuses@.take(i as int),
                state.claims@,
                state.stances@,
            ),
        decreases statuses.len() - i,
    {
        let (claim_id, status) = &statuses[i];
        assert(statuses@.take(i + 1).drop_last() =~= statuses@.take(i as int));
        assert(statuses@.take(i + 1).last() == statuses@[i as int]);
        let ghost before = signals@;
        match find_claim(&state.claims, claim_id.0.as_str()) {
            None => {},
            Some(index) => {
                let claim = &state.claims[index];
                match status {
                    EpistemicStatus::Unexamined => {
                        signals.push(
                            AttentionSignal::Unexamined {
                                claim_id: claim_id.clone(),
                                body: claim.body.clone(),
                                author: claim.author.clone(),
                            },
                        );
                        assert(signal_views(signals@) =~= signal_views(before).push(
                            signals@.last()@,
                        ));
                    },
                    EpistemicStatus::Contested => {
                        let blockers = collect_blockers(&state.stances, claim_id.0.as_str());
                        signals.push(
                            AttentionSignal::Contested {
                                claim_id: claim_id.clone(),
                                body: claim.body.clone(),
                                blockers,
                            },
                        );
                        assert(signal_views(signals@) =~= signal_views(before).push(
                            signals@.last()@,
                        ));
                    },
                    EpistemicStatus::Unresolved => {
                        let mut claim_ids: Vec<ClaimId> = Vec::new();
                        claim_ids.push(claim_id.clone());
                        signals.push(AttentionSignal::UnresolvedCycle { claim_ids });
                        assert(signals@.last()@ == AttentionView::UnresolvedCycle {
                            ids: seq![claim_id.0@],
                        }) by {
                            assert(claim_ids@.map_values(|id: ClaimId| id.0@) =~= seq![claim_id.0@]);
                        }
                        assert(signal_views(signals@) =~= signal_views(before).push(
                            signals@.last()@,
                        ));
                    },
                    _ => {},
                }
            },
        }
        i += 1;
    }
    assert(statuses@.take(statuses.len() as int) =~= statuses@);
    let unsorted = signals;
    let sorted_signals = sort(unsorted);
    proof {
        lemma_map_multiset(sorted_signals@, unsorted@, |x: AttentionSignal| x@);
    }
    sorted_signals
}

/// The overview: totals, participants, open items, open proposals,
/// resolved claims and attention signals.
pub fn overview(state: &MaterializedState, statuses: &[(ClaimId, EpistemicStatus)]) -> (data:
    OverviewData)
    ensures
        data.total_claims == state.claims@.len(),
        data.total_relations == state.relations@.len(),
        data.total_stances == state.stances@.len(),
        forall|i: int, j: int|
            0 <= i < j < data.participants@.len() ==> chars_le(
                (#[trigger] data.participants@[i])@,
                (#[trigger] data.participants@[j])@,
            ) && data.participants@[i]@ != data.participants@[j]@,
        forall|name: Seq<char>|
            string_views(data.participants@).contains(name) <==> (exists|i: int|
                0 <= i < state.claims@.len() && (#[trigger] state.claims@[i]).author@ == name) || (
            exists|i: int| 0 <= i < state.stances@.len() && (#[trigger] state.stances@[i]).author@ == name),
        sorted(data.items@),
        summary_views(data.items@).to_multiset() == summaries_in(
            state.claims@,
            state.stances@,
            statuses@,
            0,
        ).to_multiset(),
        sorted(data.proposals@),
        summary_views(data.proposals@).to_multiset() == summaries_in(
            state.claims@,
            state.stances@,
            statuses@,
            1,
        ).to_multiset(),
        sorted(data.resolved@),
        summary_views(data.resolved@).to_multiset() == summaries_in(
            state.claims@,
            state.stances@,
            statuses@,
            2,
        ).to_multiset(),
        forall|i: int|
            0 <= i < data.resolved@.len() ==> exists|k: int|
                0 <= k < state.claims@.len() && keeps_resolution(
                    (#[trigger] data.resolved@[i])@,
                    state.claims@[k],
                ),
        sorted(data.attention@),
        signal_views(data.attention@).to_multiset() == signals_from(
            statuses@,
            state.claims@,
            state.stances@,
        ).to_multiset(),
{
    let mut items: Vec<ClaimSummary> = Vec::new();
    let mut proposals: Vec<ClaimSummary> = Vec::new();
    let mut resolved: Vec<ClaimSummary> = Vec::new();
    let mut names: Vec<String> = Vec::new();
    let mut i: usize = 0;
    while i < state.claims.len()
        invariant
            i <= state.claims.len(),
            summary_views(items@) == summaries_in(
                state.claims@.take(i as int),
                state.stances@,
                statuses@,
                0,
            ),
            summary_views(proposals@) == summaries_in(
                state.claims@.take(i as int),
                state.stances@,
                statuses@,
                1,
            ),
            summary_views(resolved@) == summaries_in(
                state.claims@.take(i as int),
                state.stances@,
                statuses@,
                2,
            ),
            string_views(names@) == state.claims@.take(i as int).map_values(
                |c: ClaimState| c.author@,
            ),
        decreases state.claims.len() - i,
    {
        let claim = &state.claims[i];
        assert(state.claims@.take(i + 1).drop_last() =~= state.claims@.take(i as int));
        assert(state.claims@.take(i + 1).last() == state.claims@[i as int]);
        let ghost before_names = names@;
        names.push(claim.author.clone());
        assert(string_views(names@) =~= string_views(before_names).push(claim.author@));
        assert(state.claims@.take(i + 1).map_values(|c: ClaimState| c.author@) =~= state.claims@.take(
            i as int,
        ).map_values(|c: ClaimState| c.author@).push(claim.author@));
        let summary = build_claim_summary(claim, statuses, state);
        let ghost (bi, bp, br) = (items@, proposals@, resolved@);
        match &claim.resolution {
            Some(_) => {
                resolved.push(summary);
                assert(summary_views(resolved@) =~= summary_views(br).push(summary@));
            },
            None => {
                match claim.kind {
                    ClaimKind::Item => {
                        items.push(summary);
                        assert(summary_views(items@) =~= summary_views(bi).push(summary@));
                    },
                    ClaimKind::Proposal => {
                        proposals.push(summary);
                        assert(summary_views(proposals@) =~= summary_views(bp).push(summary@));
                    },
                    _ => {},
                }
            },
        }
        i += 1;
    }
    assert(state.claims@.take(state.claims.len() as int) =~= state.claims@);
    let ghost claim_names = string_views(names@);
    let mut j: usize = 0;
    while j < state.stances.len()
        invariant
            j <= state.stances.len(),
            claim_names == state.claims@.map_values(|c: ClaimState| c.author@),
            string_views(names@) == claim_names + state.stances@.take(j as int).map_values(
                |s: StanceState| s.author@,
            ),
        decreases state.stances.len() - j,
    {
        let ghost before_names = names@;
        names.push(state.stances[j].author.clone());
        assert(string_views(names@) =~= string_views(before_names).push(state.stances@[j as int].author@));
        assert(state.stances@.take(j + 1).map_values(|s: StanceState| s.author@) =~= state.stances@.take(
            j as int,
        ).map_values(|s: StanceState| s.author@).push(state.stances@[j as int].author@));
        j += 1;
    }
    assert(state.stances@.take(state.stances.len() as int) =~= state.stances@);
    let ghost all_names = string_views(names@);
    let participants = sorted_unique(names);
    proof {
        assert forall|name: Seq<char>| all_names.contains(name) <==> (exists|i: int|
            0 <= i < state.claims@.len() && (#[trigger] state.claims@[i]).author@ == name) || (exists|
            i: int,
        | 0 <= i < state.stances@.len() && (#[trigger] state.stances@[i]).author@ == name) by {
            let cn = state.claims@.map_values(|c: ClaimState| c.author@);
            let sn = state.stances@.map_values(|s: StanceState| s.author@);
            if all_names.contains(name) {
                let k = choose|k: int| 0 <= k < all_names.len() && all_names[k] == name;
                if k < cn.len() {
                    assert(state.claims@[k].author@ == name);
                } else {
                    assert(state.stances@[k - cn.len()].author@ == name);
                }
            }
            if exists|i: int| 0 <= i < state.claims@.len() && (#[trigger] state.claims@[i]).author@ == name {
                let i = choose|i: int| 0 <= i < state.claims@.len() && (#[trigger] state.claims@[i]).author@ == name;
                assert(all_names[i] == name);
            }
            if exists|i: int| 0 <= i < state.stances@.len() && (#[trigger] state.stances@[i]).author@ == name {
                let i = choose|i: int| 0 <= i < state.stances@.len() && (#[trigger] state.stances@[i]).author@ == name;
                assert(all_names[cn.len() + i] == name);
            }
        }
    }
    let attention = build_attention_signals(state, statuses);
    let items_sorted = sort(items);
    let proposals_sorted = sort(proposals);
    let resolved_sorted = sort(resolved);
    proof {
        lemma_map_multiset(items_sorted@, items@, |x: ClaimSummary| x@);
        lemma_map_multiset(proposals_sorted@, proposals@, |x: ClaimSummary| x@);
        lemma_map_multiset(resolved_sorted@, resolved@, |x: ClaimSummary| x@);
        lemma_listed_summaries_keep_resolutions(resolved_sorted@, state.claims@, state.stances@, statuses@);
    }
    OverviewData {
        total_claims: state.claims.len(),
        total_relations: state.relations.len(),
        total_stances: state.stances.len(),
        participants,
        items: items_sorted,
        proposals: proposals_sorted,
        resolved: resolved_sorted,
        attention,
    }
}

/// The names in code point order, each once.
pub(crate) fn sorted_unique(names: Vec<String>) -> (unique: Vec<String>)
    ensures
        forall|i: int, j: int|
            0 <= i < j < unique@.len() ==> chars_le((#[trigger] unique@[i])@, (#[trigger] unique@[j])@)
                && unique@[i]@ != unique@[j]@,
        forall|name: Seq<char>|
            string_views(unique@).contains(name) <==> string_views(names@).contains(name),
{
    let ghost original = string_views(names@);
    let sorted_names = sort(names);
    proof {
        lemma_map_multiset(sorted_names@, names@, |x: String| x@);
        assert(string_views(sorted_names@) =~= sorted_names@.map_values(|x: String| x@));
        assert(original =~= names@.map_values(|x: String| x@));
        string_views(sorted_names@).to_multiset_ensures();
        original.to_multiset_ensures();
        assert forall|name: Seq<char>| string_views(sorted_names@).contains(name) <==> original.contains(
            name,
        ) by {
            assert(string_views(sorted_names@).to_multiset().count(name) == original.to_multiset().count(name));
        }
    }
    let mut unique: Vec<String> = Vec::new();
    let mut i: usize = 0;
    while i < sorted_names.len()
        invariant
            i <= sorted_names.len(),
            sorted(sorted_names@),
            forall|a: int, b: int|
                0 <= a < b < unique@.len() ==> chars_le((#[trigger] unique@[a])@, (#[trigger] unique@[b])@)
                    && unique@[a]@ != unique@[b]@,
            forall|name: Seq<char>|
                string_views(unique@).contains(name) <==> string_views(sorted_names@.take(i as int)).contains(
                    name,
                ),
            i > 0 ==> unique@.len() > 0 && unique@.last()@ == sorted_names@[i - 1]@,
            i == 0 ==> unique@.len() == 0,
            forall|a: int| 0 <= a < unique@.len() ==> exists|b: int| 0 <= b < i && (#[trigger] unique@[a])@ == sorted_names@[b]@,
        decreases sorted_names.len() - i,
    {
        let name = &sorted_names[i];
        let ghost before = unique@;
        let keep = unique.len() == 0 || !str_eq(unique[unique.len() - 1].as_str(), name.as_str());
        if keep {
            unique.push(name.clone());
        }
        proof {
            let prefix = sorted_names@.take(i + 1);
            assert(string_views(prefix) =~= string_views(sorted_names@.take(i as int)).push(name@));
            assert forall|a: int| 0 <= a < before.len() implies chars_le(before[a]@, name@) by {
                let b = choose|b: int| 0 <= b < i && before[a]@ == sorted_names@[b]@;
                assert(sorted_names@[b].precedes(sorted_names@[i as int]));
            }
            if keep {
                assert forall|a: int, b: int| 0 <= a < b < unique@.len() implies chars_le(
                    (#[trigger] unique@[a])@,
                    (#[trigger] unique@[b])@,
                ) && unique@[a]@ != unique@[b]@ by {
                    if b == unique@.len() - 1 && a < b {
                        assert(unique@[a] == before[a]);
                        if before.len() > 0 {
                            if unique@[a]@ == name@ {
                                assert(chars_le(before[a]@, before.last()@) || a == before.len() - 1);
                                if a < before.len() - 1 {
                                    lemma_chars_le_transitive(before.last()@, name@, before[a]@);
                                    lemma_chars_le_antisymmetric(before[a]@, before.last()@);
                                }
                            }
                        }
                    }
                }
                assert(string_views(unique@) =~= string_views(before).push(name@));
                assert forall|n: Seq<char>| string_views(unique@).contains(n) <==> string_views(prefix).contains(n) by {
                    if string_views(unique@).contains(n) {
                        let k = choose|k: int| 0 <= k < string_views(unique@).len() && string_views(unique@)[k] == n;
                        if k < before.len() {
                            assert(string_views(before).contains(n)) by {
                                assert(string_views(before)[k] == n);
                            }
                            let m = choose|m: int| 0 <= m < i && string_views(sorted_names@.take(i as int))[m] == n;
                            assert(string_views(prefix)[m] == n);
                        } else {
                            assert(string_views(prefix)[i as int] == n);
                        }
                    }
                    if string_views(prefix).contains(n) {
                        let k = choose|k: int| 0 <= k <= i && string_views(prefix)[k] == n;
                        if k < i {
                            assert(string_views(sorted_names@.take(i as int))[k] == n);
                            assert(string_views(before).contains(n));
                            let m = choose|m: int| 0 <= m < before.len() && string_views(before)[m] == n;
                            assert(string_views(unique@)[m] == n);
                        } else {
                            assert(string_views(unique@)[before.len() as int] == n);
                        }
                    }
                }
                assert forall|a: int| 0 <= a < unique@.len() implies exists|b: int| 0 <= b < i + 1 && (
                #[trigger] unique@[a])@ == sorted_names@[b]@ by {
                    if a == unique@.len() - 1 {
                        assert(unique@[a]@ == sorted_names@[i as int]@);
                    } else {
                        let b = choose|b: int| 0 <= b < i && before[a]@ == sorted_names@[b]@;
                        assert(unique@[a] == before[a]);
                    }
                }
            } else {
                assert(string_views(unique@).contains(name@)) by {
                    assert(string_views(unique@)[unique@.len() - 1] == name@);
                }
                assert forall|n: Seq<char>| string_views(unique@).contains(n) <==> string_views(prefix).contains(n) by {
                    if string_views(unique@).contains(n) {
                        let m = choose|m: int| 0 <= m < i && string_views(sorted_names@.take(i as int))[m] == n;
                        assert(string_views(prefix)[m] == n);
                    }
                    if string_views(prefix).contains(n) {
                        let k = choose|k: int| 0 <= k <= i && string_views(prefix)[k] == n;
                        if k < i {
                            assert(string_views(sorted_names@.take(i as int))[k] == n);
                        }
                    }
                }
            }
        }
        i += 1;
    }
    assert(sorted_names@.take(sorted_names.len() as int) =~= sorted_names@);
    unique
}

/// The detail of the claim `claim_id`: its summary and the summaries of
/// the claims that attack or support it and that it attacks or supports.
pub fn claim_detail(
    state: &MaterializedState,
    statuses: &[(ClaimId, EpistemicStatus)],
    claim_id: &ClaimId,
) -> (detail: Option<ClaimDetail>)
    ensures
        detail is Some <==> claim_index(state.claims@, claim_id.0@) < state.claims@.len(),
        detail matches Some(d) ==> {
            let (claims, stances, relations, statuses, id) = (
                state.claims@,
                state.stances@,
                state.relations@,
                statuses@,
                claim_id.0@,
            );
            &&& d.claim@ == summary_of(claims[claim_index(claims, id)], stances, statuses)
            &&& summary_views(d.attacked_by@) == related(
                relations,
                claims,
                stances,
                statuses,
                id,
                false,
                RelationKind::Attacks,
            )
            &&& summary_views(d.supported_by@) == related(
                relations,
                claims,
                stances,
                statuses,
                id,
                false,
                RelationKind::Supports,
            )
            &&& summary_views(d.attacks@) == related(
                relations,
                claims,
                stances,
                statuses,
                id,
                true,
                RelationKind::Attacks,
            )
            &&& summary_views(d.supports@) == related(
                relations,
                claims,
                stances,
                statuses,
                id,
                true,
                RelationKind::Supports,
            )
            &&& d.claim.id.0@ == id
            &&& lists_linked(d.attacked_by@, relations, claims, id, false, RelationKind::Attacks)
            &&& lists_linked(d.supported_by@, relations, claims, id, false, RelationKind::Supports)
            &&& lists_linked(d.attacks@, relations, claims, id, true, RelationKind::Attacks)
            &&& lists_linked(d.supports@, relations, claims, id, true, RelationKind::Supports)
        },
{
    let index = find_claim(&state.claims, claim_id.0.as_str())?;
    proof {
        lemma_claim_index_from(state.claims@, claim_id.0@, 0);
    }
    let summary = build_claim_summary(&state.claims[index], statuses, state);
    let ghost (relations, claims, stances, st, id) = (
        state.relations@,
        state.claims@,
        state.stances@,
        statuses@,
        claim_id.0@,
    );
    let mut attacked_by: Vec<ClaimSummary> = Vec::new();
    let mut supported_by: Vec<ClaimSummary> = Vec::new();
    let mut attacks: Vec<ClaimSummary> = Vec::new();
    let mut supports: Vec<ClaimSummary> = Vec::new();
    let mut k: usize = 0;
    while k < state.relations.len()
        invariant
            k <= state.relations.len(),
            relations == state.relations@,
            claims == state.claims@,
            stances == state.stances@,
            st == statuses@,
            id == claim_id.0@,
            summary_views(attacked_by@) == related(
                relations.take(k as int),
                claims,
                stances,
                st,
                id,
                false,
                RelationKind::Attacks,
            ),
            summary_views(supported_by@) == related(
                relations.take(k as int),
                claims,
                stances,
                st,
                id,
                false,
                RelationKind::Supports,
            ),
            summary_views(attacks@) == related(
                relations.take(k as int),
                claims,
                stances,
                st,
                id,
                true,
                RelationKind::Attacks,
            ),
            summary_views(supports@) == related(
                relations.take(k as int),
                claims,
                stances,
                st,
                id,
                true,
                RelationKind::Supports,
            ),
        decreases state.relations.len() - k,
    {
        let rel = &state.relations[k];
        assert(relations.take(k + 1).drop_last() =~= relations.take(k as int));
        assert(relations.take(k + 1).last() == relations[k as int]);
        let ghost (a0, s0, a1, s1) = (attacked_by@, supported_by@, attacks@, supports@);
        if str_eq(rel.target_id.0.as_str(), claim_id.0.as_str()) {
            if let Some(source_index) = find_claim(&state.claims, rel.source_id.0.as_str()) {
                let source_summary = build_claim_summary(&state.claims[source_index], statuses, state);
                match rel.kind {
                    RelationKind::Attacks => {
                        attacked_by.push(source_summary);
                        assert(summary_views(attacked_by@) =~= summary_views(a0).push(
                            attacked_by@.last()@,
                        ));
                    },
                    RelationKind::Supports => {
                        supported_by.push(source_summary);
                        assert(summary_views(supported_by@) =~= summary_views(s0).push(
                            supported_by@.last()@,
                        ));
                    },
                }
            }
        }
        if str_eq(rel.source_id.0.as_str(), claim_id.0.as_str()) {
            if let Some(target_index) = find_claim(&state.claims, rel.target_id.0.as_str()) {
                let target_summary = build_claim_summary(&state.claims[target_index], statuses, state);
                match rel.kind {
                    RelationKind::Attacks => {
                        attacks.push(target_summary);
                        assert(summary_views(attacks@) =~= summary_views(a1).push(
                            attacks@.last()@,
                        ));
                    },
                    RelationKind::Supports => {
                        supports.push(target_summary);
                        assert(summary_views(supports@) =~= summary_views(s1).push(
                            supports@.last()@,
                        ));
                    },
                }
            }
        }
        k += 1;
    }
    assert(relations.take(state.relations.len() as int) =~= relations);
    proof {
        lemma_list_links(attacked_by@, relations, claims, stances, st, id, false, RelationKind::Attacks);
        lemma_list_links(supported_by@, relations, claims, stances, st, id, false, RelationKind::Supports);
        lemma_list_links(attacks@, relations, claims, stances, st, id, true, RelationKind::Attacks);
        lemma_list_links(supports@, relations, claims, stances, st, id, true, RelationKind::Supports);
    }
    Some(ClaimDetail { claim: summary, attacked_by, supported_by, attacks, supports })
}

} // verus!
