//! Receiving a session's entries in log order when they may arrive out of
//! order, and following the participant's own submission as its entries
//! come back from the log.
use vstd::prelude::*;

use std::collections::BTreeMap;

use serde_json::Value;

use crate::seeding::{copy_value, json_equal, values_equal};
use crate::types::{DraftId, Entry};

verus! {

broadcast use vstd::std_specs::btree::group_btree_axioms, vstd::laws_cmp::group_laws_cmp;

/// A submission in flight: the drafts it submits, their entries as JSON in
/// the order they are appended, and how many of them the log has echoed.
#[derive(Debug)]
pub struct PendingSubmission {
    pub draft_ids: Vec<DraftId>,
    pub payloads: Vec<Value>,
    pub next_entry: usize,
}

/// What became of an entry's payload once it was in order.
#[derive(Debug)]
pub enum ApplyResult {
    /// The payload was a consensus entry, and it was applied.
    Applied(Entry),
    /// The payload was not a consensus entry, and it was skipped.
    Skipped { error: String },
}

/// What to do next for the submission in flight.
#[derive(Debug, Clone, Copy, PartialEq, Eq, Structural)]
pub enum SubmissionAction {
    /// No submission is in flight.
    Idle,
    /// The log has echoed every entry: the submission can be finished.
    Finish,
    /// Entries remain, but the session is disconnected.
    Paused,
    /// Append the entry at `index` of the submission and wait for its echo.
    Append { index: usize },
}

/// The entries of a session's log, taken in order.
pub struct EntryBuffer {
    next_index: usize,
    buffered_entries: BTreeMap<usize, Value>,
    pending_submission: Option<PendingSubmission>,
}

/// Where the echo count of a submission goes when the log shows `payload`:
/// one further when it is the entry expected next.
pub open spec fn echo_step(payloads: Seq<Value>, at: int, payload: Value) -> int {
    if 0 <= at < payloads.len() && json_equal(payloads[at], payload) {
        at + 1
    } else {
        at
    }
}

/// The echo count after the log shows each of `shown`, in order.
pub open spec fn echoes(payloads: Seq<Value>, at: int, shown: Seq<Value>) -> int
    decreases shown.len(),
{
    if shown.len() == 0 {
        at
    } else {
        echo_step(payloads, echoes(payloads, at, shown.drop_last()), shown.last())
    }
}

proof fn lemma_echoes_push(payloads: Seq<Value>, at: int, shown: Seq<Value>, p: Value)
    ensures
        echoes(payloads, at, shown.push(p)) == echo_step(payloads, echoes(payloads, at, shown), p),
{
    assert(shown.push(p).drop_last() =~= shown);
}

/// How taking the entry `payload` at `index` moves a buffer that expects
/// `next` and holds `buffered` to one that expects `next2` and holds
/// `buffered2`, releasing `released`: an index already taken changes
/// nothing; a later one is held back, replacing what was held at it; the
/// expected one is released, followed by every held entry that continues
/// it without a gap.
pub open spec fn delivery(
    next: int,
    buffered: Map<usize, Value>,
    index: usize,
    payload: Value,
    next2: int,
    buffered2: Map<usize, Value>,
    released: Seq<(usize, Value)>,
) -> bool {
    if index < next {
        &&& released.len() == 0
        &&& next2 == next
        &&& buffered2 == buffered
    } else if index > next {
        &&& released.len() == 0
        &&& next2 == next
        &&& buffered2 == buffered.insert(index, payload)
    } else {
        let n = released.len();
        &&& n >= 1
        &&& released[0] == (index, payload)
        &&& forall|j: int|
            1 <= j < n ==> #[trigger] released[j] == ((index + j) as usize, buffered[(index + j) as usize])
        &&& forall|j: int| 1 <= j < n ==> buffered.contains_key(#[trigger] ((index + j) as usize))
        &&& !buffered.contains_key((index + n) as usize)
        &&& next2 == index + n
        &&& buffered2 == buffered.remove_keys(Set::new(|k: usize| index < k < index + n))
    }
}

/// A buffer expecting `next` and holding `buffered` has taken the entries
/// `delivered` in log order: `released` lists every delivered entry below
/// `next`, in index order, and every other delivered entry is held.
pub open spec fn taken_in_order(
    next: int,
    buffered: Map<usize, Value>,
    delivered: Map<usize, Value>,
    released: Seq<(usize, Value)>,
) -> bool {
    &&& 0 <= next
    &&& released.len() == next
    &&& forall|i: int|
        0 <= i < next ==> #[trigger] delivered.contains_key(i as usize) && released[i] == (
            i as usize,
            delivered[i as usize],
        )
    &&& forall|k: usize| #[trigger]
        buffered.contains_key(k) ==> next < k && delivered.contains_key(k) && buffered[k]
            == delivered[k]
    &&& forall|k: usize| #[trigger] delivered.contains_key(k) ==> k < next || buffered.contains_key(k)
}

/// Releasing from `index` would run past the largest index: every index
/// above it is held, so the next expected index would overflow.
pub open spec fn release_overflows(buffered: Map<usize, Value>, index: usize) -> bool {
    forall|k: usize| index < k ==> #[trigger] buffered.contains_key(k)
}

/// A new buffer has taken nothing and released nothing.
pub proof fn lemma_empty_buffer_is_in_order()
    ensures
        taken_in_order(0, Map::empty(), Map::empty(), Seq::empty()),
{
}

/// Taking an entry whose index has not been delivered before keeps the
/// buffer in log order: whatever the order of arrival, the entries come
/// out by index, each once, and the rest stay held.
pub proof fn lemma_delivery_keeps_log_order(
    next: int,
    buffered: Map<usize, Value>,
    delivered: Map<usize, Value>,
    released: Seq<(usize, Value)>,
    index: usize,
    payload: Value,
    next2: int,
    buffered2: Map<usize, Value>,
    step: Seq<(usize, Value)>,
)
    requires
        taken_in_order(next, buffered, delivered, released),
        !delivered.contains_key(index),
        delivery(next, buffered, index, payload, next2, buffered2, step),
    ensures
        taken_in_order(next2, buffered2, delivered.insert(index, payload), released + step),
{
    let d2 = delivered.insert(index, payload);
    let r2 = released + step;
    if index < next {
        assert(delivered.contains_key(index as int as usize));
    } else if index > next {
        assert forall|i: int| 0 <= i < next2 implies #[trigger] d2.contains_key(i as usize) && r2[i]
            == (i as usize, d2[i as usize]) by {
            assert(delivered.contains_key(i as usize));
        }
    } else {
        let n = step.len();
        assert forall|i: int| 0 <= i < next2 implies #[trigger] d2.contains_key(i as usize) && r2[i]
            == (i as usize, d2[i as usize]) by {
            if i < next {
                assert(delivered.contains_key(i as usize));
                assert(r2[i] == released[i]);
            } else if i == next {
                assert(r2[i] == step[0]);
            } else {
                let j = i - next;
                assert(r2[i] == step[j]);
                assert(buffered.contains_key((index + j) as usize));
            }
        }
        assert forall|k: usize| #[trigger] buffered2.contains_key(k) implies next2 < k
            && d2.contains_key(k) && buffered2[k] == d2[k] by {
            assert(buffered.contains_key(k));
            assert(!(index < k < index + n));
            if k == (index + n) as usize {
                assert(false);
            }
        }
        assert forall|k: usize| #[trigger] d2.contains_key(k) implies k < next2
            || buffered2.contains_key(k) by {
            if k != index && !(k < next) {
                assert(buffered.contains_key(k));
                if !(k < next2) {
                    assert(!(index < k < index + n));
                }
            }
        }
    }
}

/// Once the entries `0..n` and no others have been delivered, the buffer
/// expects `n`, holds nothing, and has released exactly those entries in
/// index order.
pub proof fn lemma_complete_log_is_released(
    next: int,
    buffered: Map<usize, Value>,
    delivered: Map<usize, Value>,
    released: Seq<(usize, Value)>,
    n: usize,
)
    requires
        taken_in_order(next, buffered, delivered, released),
        forall|k: usize| #[trigger] delivered.contains_key(k) <==> k < n,
    ensures
        next == n,
        buffered == Map::<usize, Value>::empty(),
        released == Seq::new(n as nat, |i: int| (i as usize, delivered[i as usize])),
{
    if next < n {
        assert(delivered.contains_key(next as usize));
        assert(buffered.contains_key(next as usize));
    }
    if next > n {
        assert(delivered.contains_key((n as int) as usize));
    }
    assert(buffered =~= Map::<usize, Value>::empty()) by {
        assert forall|k: usize| !buffered.contains_key(k) by {
            if buffered.contains_key(k) {
                assert(delivered.contains_key(k));
            }
        }
    }
    assert forall|i: int| 0 <= i < n implies released[i] == (i as usize, delivered[i as usize]) by {
        assert(delivered.contains_key(i as usize));
    }
    assert(released =~= Seq::new(n as nat, |i: int| (i as usize, delivered[i as usize])));
}

/// The payloads of released entries.
pub open spec fn released_payloads(released: Seq<(usize, Value)>) -> Seq<Value> {
    released.map_values(|r: (usize, Value)| r.1)
}

/// A pending submission after the log shows `shown`.
pub open spec fn pending_after(
    pending: Option<(Seq<DraftId>, Seq<Value>, int)>,
    shown: Seq<Value>,
) -> Option<(Seq<DraftId>, Seq<Value>, int)> {
    match pending {
        None => None,
        Some((ids, payloads, at)) => Some((ids, payloads, echoes(payloads, at, shown))),
    }
}

impl PendingSubmission {
    pub open spec fn model(&self) -> (Seq<DraftId>, Seq<Value>, int) {
        (self.draft_ids@, self.payloads@, self.next_entry as int)
    }
}

pub open spec fn pending_model(p: Option<PendingSubmission>) -> Option<(Seq<DraftId>, Seq<Value>, int)> {
    match p {
        None => None,
        Some(s) => Some(s.model()),
    }
}

impl EntryBuffer {
    pub closed spec fn spec_next_index(&self) -> usize {
        self.next_index
    }

    /// The entries that arrived ahead of a gap, by index.
    pub closed spec fn buffered(&self) -> Map<usize, Value> {
        self.buffered_entries@
    }

    /// The submission in flight, if any: its drafts, its payloads and how
    /// many of them the log has echoed.
    pub closed spec fn pending(&self) -> Option<(Seq<DraftId>, Seq<Value>, int)> {
        pending_model(self.pending_submission)
    }

    /// Every buffered entry lies beyond the next expected index, and below
    /// the largest index.
    pub closed spec fn wf(&self) -> bool {
        forall|k: usize| #[trigger]
            self.buffered_entries@.contains_key(k) ==> self.next_index < k
    }

    /// A buffer expecting entry 0, with nothing buffered and no submission.
    pub fn new() -> (buffer: Self)
        ensures
            buffer.wf(),
            buffer.spec_next_index() == 0,
            buffer.buffered() == Map::<usize, Value>::empty(),
            buffer.pending() is None,
    {
        EntryBuffer { next_index: 0, buffered_entries: BTreeMap::new(), pending_submission: None }
    }

    /// The index of the next entry to take.
    pub fn next_index(&self) -> (index: usize)
        ensures
            index == self.spec_next_index(),
    {
        self.next_index
    }

    /// The entries held back until the gap before them is filled.
    pub fn buffered_entries(&self) -> (entries: &BTreeMap<usize, Value>)
        ensures
            entries@ == self.buffered(),
    {
        &self.buffered_entries
    }

    /// The submission in flight, if any.
    pub fn pending_submission(&self) -> (pending: Option<&PendingSubmission>)
        ensures
            match pending {
                None => self.pending() is None,
                Some(p) => self.pending() == Some(p.model()),
            },
    {
        match &self.pending_submission {
            None => None,
            Some(p) => Some(p),
        }
    }

    /// Whether a submission is in flight and the log has echoed all of it.
    pub fn is_submission_complete(&self) -> (complete: bool)
        ensures
            complete == (self.pending() matches Some((_, payloads, at)) && at >= payloads.len()),
    {
        match &self.pending_submission {
            None => false,
            Some(p) => p.next_entry >= p.payloads.len(),
        }
    }

    /// What the submission in flight needs next, given whether the session
    /// is connected.
    pub fn next_submission_action(&self, connected: bool) -> (action: SubmissionAction)
        ensures
            match self.pending() {
                None => action == SubmissionAction::Idle,
                Some((_, payloads, at)) => if at >= payloads.len() {
                    action == SubmissionAction::Finish
                } else if !connected {
                    action == SubmissionAction::Paused
                } else {
                    action == SubmissionAction::Append { index: at as usize }
                },
            },
    {
        match &self.pending_submission {
            None => SubmissionAction::Idle,
            Some(p) => {
                if p.next_entry >= p.payloads.len() {
                    SubmissionAction::Finish
                } else if !connected {
                    SubmissionAction::Paused
                } else {
                    SubmissionAction::Append { index: p.next_entry }
                }
            },
        }
    }

    /// Count the payload as echoed when it is the entry the submission
    /// expects next.
    fn note_submission_payload(&mut self, payload: &Value)
        ensures
            final(self).next_index == old(self).next_index,
            final(self).buffered_entries@ == old(self).buffered_entries@,
            final(self).pending() == pending_after(old(self).pending(), seq![*payload]),
    {
        proof {
            assert(seq![*payload] =~= Seq::<Value>::empty().push(*payload));
            if let Some(p) = old(self).pending_submission {
                lemma_echoes_push(p.payloads@, p.next_entry as int, Seq::empty(), *payload);
            }
        }
        match &mut self.pending_submission {
            None => {},
            Some(pending) => {
                if pending.next_entry < pending.payloads.len() && values_equal(
                    &pending.payloads[pending.next_entry],
                    payload,
                ) {
                    pending.next_entry = pending.next_entry + 1;
                }
            },
        }
    }

    /// Take the entry at `index`. An entry already taken is ignored; one
    /// beyond the next expected index is held back; the next expected one is
    /// released with every held-back entry that now follows it without a
    /// gap. The released entries come out in index order, and each is
    /// counted against the submission in flight.
    pub fn apply_or_buffer_entry(&mut self, index: usize, payload: Value) -> (released: Vec<
        (usize, Value),
    >)
        requires
            old(self).wf(),
            index == old(self).spec_next_index() ==> !release_overflows(old(self).buffered(), index),
        ensures
            final(self).wf(),
            delivery(
                old(self).spec_next_index() as int,
                old(self).buffered(),
                index,
                payload,
                final(self).spec_next_index() as int,
                final(self).buffered(),
                released@,
            ),
            final(self).pending() == pending_after(old(self).pending(), released_payloads(released@)),
    {
        let mut released: Vec<(usize, Value)> = Vec::new();
        if index < self.next_index {
            return released;
        }
        if index > self.next_index {
            self.buffered_entries.insert(index, payload);
            return released;
        }
        let ghost start = old(self).buffered_entries@;
        assert(forall|k: usize| #[trigger] start.contains_key(k) ==> index < k);
        assert(index < usize::MAX) by {
            if index == usize::MAX {
                assert(release_overflows(start, index));
            }
        }
        let ghost old_pending = old(self).pending();
        self.note_submission_payload(&payload);
        released.push((index, payload));
        self.next_index = index + 1;
        proof {
            assert(released_payloads(released@) =~= seq![payload]);
            assert(start.remove_keys(Set::new(|k: usize| index < k < index + 1)) =~= start);
        }
        loop
            invariant_except_break
                self.next_index == index + released@.len(),
                released@.len() >= 1,
                released@[0] == (index, payload),
                forall|j: int|
                    1 <= j < released@.len() ==> #[trigger] released@[j] == (
                        (index + j) as usize,
                        start[(index + j) as usize],
                    ),
                forall|j: int|
                    1 <= j < released@.len() ==> start.contains_key(#[trigger] ((index + j) as usize)),
                self.buffered_entries@ == start.remove_keys(
                    Set::new(|k: usize| index < k < index + released@.len()),
                ),
                self.pending() == pending_after(old_pending, released_payloads(released@)),
                forall|k: usize| #[trigger] start.contains_key(k) ==> index < k,
                !release_overflows(start, index),
            ensures
                self.next_index == index + released@.len(),
                released@.len() >= 1,
                released@[0] == (index, payload),
                forall|j: int|
                    1 <= j < released@.len() ==> #[trigger] released@[j] == (
                        (index + j) as usize,
                        start[(index + j) as usize],
                    ),
                forall|j: int|
                    1 <= j < released@.len() ==> start.contains_key(#[trigger] ((index + j) as usize)),
                !start.contains_key((index + released@.len()) as usize),
                self.buffered_entries@ == start.remove_keys(
                    Set::new(|k: usize| index < k < index + released@.len()),
                ),
                self.pending() == pending_after(old_pending, released_payloads(released@)),
                forall|k: usize| #[trigger] start.contains_key(k) ==> index < k,
                !release_overflows(start, index),
            decreases usize::MAX - self.next_index,
        {
            let at = self.next_index;
            let ghost before = released@;
            match self.buffered_entries.remove(&at) {
                None => {
                    proof {
                        assert(!self.buffered_entries@.contains_key(at));
                        assert(!start.contains_key(at));
                    }
                    break;
                },
                Some(buffered) => {
                    proof {
                        assert(start.contains_key(at));
                        assert(start[at] == buffered);
                        if at == usize::MAX {
                            assert forall|k: usize| index < k implies #[trigger] start.contains_key(k) by {
                                if k < at {
                                    let j = k - index;
                                    assert(start.contains_key(((index + j) as usize)));
                                }
                            }
                            assert(false);
                        }
                    }
                    self.note_submission_payload(&buffered);
                    released.push((at, buffered));
                    self.next_index = at + 1;
                    proof {
                        assert(released_payloads(released@) =~= released_payloads(before).push(
                            buffered,
                        ));
                        if let Some((ids, payloads, at0)) = old_pending {
                            lemma_echoes_push(payloads, at0, released_payloads(before), buffered);
                            let mid = echoes(payloads, at0, released_payloads(before));
                            assert(seq![buffered] =~= Seq::<Value>::empty().push(buffered));
                            lemma_echoes_push(payloads, mid, Seq::empty(), buffered);
                        }
                        assert(start.remove_keys(Set::new(|k: usize| index < k < index + released@.len()))
                            =~= start.remove_keys(
                            Set::new(|k: usize| index < k < index + before.len()),
                        ).remove(at));
                    }
                },
            }
        }
        released
    }

    /// Start a submission of the drafts `draft_ids`, whose entries are
    /// `payloads`. With no entries nothing starts; else the submission in
    /// flight is replaced by this one, with nothing echoed yet, and a copy of
    /// it is returned.
    pub fn begin_submission(&mut self, draft_ids: Vec<DraftId>, payloads: Vec<Value>) -> (started:
        Option<PendingSubmission>)
        requires
            old(self).wf(),
        ensures
            final(self).wf(),
            final(self).spec_next_index() == old(self).spec_next_index(),
            final(self).buffered() == old(self).buffered(),
            payloads@.len() == 0 ==> started is None && final(self).pending() == old(self).pending(),
            payloads@.len() > 0 ==> {
                &&& final(self).pending() == Some((draft_ids@, payloads@, 0int))
                &&& started matches Some(p) && p.model() == (draft_ids@, payloads@, 0int)
            },
    {
        if payloads.len() == 0 {
            return None;
        }
        let copy = PendingSubmission {
            draft_ids: copy_draft_ids(&draft_ids),
            payloads: copy_payloads(&payloads),
            next_entry: 0,
        };
        self.pending_submission = Some(PendingSubmission { draft_ids, payloads, next_entry: 0 });
        Some(copy)
    }

    /// End the submission in flight, handing back the drafts it submitted so
    /// that they can be removed; `None` when no submission is in flight.
    pub fn finish_submission(&mut self) -> (finished: Option<Vec<DraftId>>)
        requires
            old(self).wf(),
        ensures
            final(self).wf(),
            final(self).spec_next_index() == old(self).spec_next_index(),
            final(self).buffered() == old(self).buffered(),
            final(self).pending() is None,
            match old(self).pending() {
                None => finished is None,
                Some((ids, _, _)) => finished matches Some(v) && v@ == ids,
            },
    {
        match self.pending_submission.take() {
            None => None,
            Some(pending) => Some(pending.draft_ids),
        }
    }
}

fn copy_draft_ids(ids: &Vec<DraftId>) -> (copy: Vec<DraftId>)
    ensures
        copy@ == ids@,
{
    let mut copy: Vec<DraftId> = Vec::new();
    let mut i: usize = 0;
    while i < ids.len()
        invariant
            i <= ids@.len(),
            copy@ == ids@.take(i as int),
        decreases ids.len() - i,
    {
        copy.push(ids[i]);
        i += 1;
        assert(copy@ =~= ids@.take(i as int));
    }
    assert(ids@.take(ids@.len() as int) =~= ids@);
    copy
}

fn copy_payloads(payloads: &Vec<Value>) -> (copy: Vec<Value>)
    ensures
        copy@ == payloads@,
{
    let mut copy: Vec<Value> = Vec::new();
    let mut i: usize = 0;
    while i < payloads.len()
        invariant
            i <= payloads@.len(),
            copy@ == payloads@.take(i as int),
        decreases payloads.len() - i,
    {
        copy.push(copy_value(&payloads[i]));
        i += 1;
        assert(copy@ =~= payloads@.take(i as int));
    }
    assert(payloads@.take(payloads@.len() as int) =~= payloads@);
    copy
}

} // verus!
