//! Session coordination reducer.
//!
//! Tracks which stream entries have arrived, buffers entries that arrive
//! ahead of a gap, and plans page-sized fetches for the missing ranges. It
//! performs no I/O and never panics.
use std::marker::PhantomData;

use vstd::prelude::*;

verus! {

#[derive(Debug, Clone, PartialEq, Eq)]
enum Slot<T> {
    Requested,
    Received(T),
}

/// Reducer state for stream coordination.
#[derive(Debug, Clone, PartialEq, Eq)]
pub struct State<T> {
    slots: Vec<Slot<T>>,
    page_limit: usize,
}

/// Inputs to the coordinator.
#[derive(Debug, Clone, PartialEq, Eq)]
pub enum Event<T> {
    Received { index: usize, entry: T },
}

/// Outputs requested by the coordinator.
#[derive(Debug, PartialEq, Eq)]
pub enum Effect<T> {
    FetchMissing { from: usize, limit: usize, _marker: PhantomData<T> },
}

impl<T> Clone for Effect<T> {
    fn clone(&self) -> (copy: Self)
        ensures
            effect_range(copy) == effect_range(*self),
    {
        match self {
            Effect::FetchMissing { from, limit, .. } => Effect::FetchMissing {
                from: *from,
                limit: *limit,
                _marker: PhantomData,
            },
        }
    }
}

/// Reducer result.
#[derive(Debug, Clone, PartialEq, Eq)]
pub struct Transition<T> {
    pub state: State<T>,
    pub effects: Vec<Effect<T>>,
}

/// Errors from coordinator bootstrap.
#[derive(Debug, Clone, PartialEq, Eq)]
pub enum InitError {
    InvalidPageLimit,
}

// ---------------------------------------------------------------------------
// Mathematical model
// ---------------------------------------------------------------------------

spec fn slot_view<T>(slot: Slot<T>) -> Option<T> {
    match slot {
        Slot::Requested => None,
        Slot::Received(entry) => Some(entry),
    }
}

/// The `(from, limit)` range a fetch effect asks for.
pub open spec fn effect_range<T>(effect: Effect<T>) -> (int, int) {
    match effect {
        Effect::FetchMissing { from, limit, .. } => (from as int, limit as int),
    }
}

/// The ranges of a list of effects.
pub open spec fn effect_ranges<T>(effects: Seq<Effect<T>>) -> Seq<(int, int)> {
    effects.map_values(|e: Effect<T>| effect_range(e))
}

/// Index of the first missing slot, or the length when none is missing.
pub open spec fn first_missing<T>(slots: Seq<Option<T>>, i: int) -> int
    decreases slots.len() - i,
{
    if i >= slots.len() || i < 0 {
        if i < 0 { 0 } else { slots.len() as int }
    } else if slots[i] is None {
        i
    } else {
        first_missing(slots, i + 1)
    }
}

/// The end of the run of missing slots that starts at or after `i`.
pub open spec fn run_end<T>(slots: Seq<Option<T>>, i: int) -> int
    decreases slots.len() - i,
{
    if i >= slots.len() || i < 0 {
        if i < 0 { 0 } else { slots.len() as int }
    } else if slots[i] is Some {
        i
    } else {
        run_end(slots, i + 1)
    }
}

/// The range `[from, end)` cut into consecutive pages of at most `limit`.
pub open spec fn pages(from: int, end: int, limit: int) -> Seq<(int, int)>
    decreases end - from,
{
    if from >= end || limit <= 0 {
        Seq::empty()
    } else {
        let len = if end - from < limit {
            end - from
        } else {
            limit
        };
        seq![(from, len)] + pages(from + len, end, limit)
    }
}

/// The fetches for every run of missing slots at or after `i`, in order.
pub open spec fn fetch_plan<T>(slots: Seq<Option<T>>, limit: int, i: int) -> Seq<(int, int)>
    decreases slots.len() - i, 1int,
{
    if i >= slots.len() || i < 0 {
        Seq::empty()
    } else if slots[i] is Some {
        fetch_plan(slots, limit, i + 1)
    } else {
        let end = run_end(slots, i);
        if end <= i || end > slots.len() {
            Seq::empty()
        } else {
            pages(i, end, limit) + fetch_plan(slots, limit, end)
        }
    }
}

/// The slots after learning that the stream holds at least `latest + 1`
/// entries.
pub open spec fn synced<T>(slots: Seq<Option<T>>, latest: Option<usize>) -> Seq<Option<T>> {
    match latest {
        None => slots,
        Some(latest) => if latest >= slots.len() {
            slots + Seq::new((latest + 1 - slots.len()) as nat, |i: int| None::<T>)
        } else {
            slots
        },
    }
}

/// The slots after receiving `entry` at `index`: the first value received
/// at an index is kept, and receiving beyond the end opens missing slots.
pub open spec fn received<T>(slots: Seq<Option<T>>, index: int, entry: T) -> Seq<Option<T>> {
    if index < slots.len() {
        if slots[index] is Some {
            slots
        } else {
            slots.update(index, Some(entry))
        }
    } else {
        (slots + Seq::new((index - slots.len()) as nat, |i: int| None::<T>)).push(Some(entry))
    }
}

impl<T> State<T> {
    /// Well-formedness: pages are never empty.
    pub closed spec fn wf(&self) -> bool {
        self.page_limit > 0
    }

    /// `None` for a slot that is still missing, `Some(entry)` for one that
    /// was received.
    pub closed spec fn slots(&self) -> Seq<Option<T>> {
        self.slots@.map_values(|s: Slot<T>| slot_view(s))
    }

    pub closed spec fn spec_page_limit(&self) -> usize {
        self.page_limit
    }

    pub(crate) fn empty(page_limit: usize) -> (state: Self)
        requires
            page_limit > 0,
        ensures
            state.wf(),
            state.slots() == Seq::<Option<T>>::empty(),
            state.spec_page_limit() == page_limit,
    {
        let state = Self { slots: Vec::new(), page_limit };
        assert(state.slots() =~= Seq::<Option<T>>::empty());
        state
    }

    /// The number of known slots, missing or received.
    pub fn slot_count(&self) -> (n: usize)
        ensures
            n == self.slots().len(),
    {
        self.slots.len()
    }

    /// The slot at `index`: `None` beyond the known slots, `Some(None)` for
    /// a missing slot, `Some(Some(entry))` for a received one.
    pub fn slot(&self, index: usize) -> (slot: Option<Option<&T>>)
        ensures
            index >= self.slots().len() ==> slot is None,
            index < self.slots().len() ==> slot is Some && (slot->0 is Some <==> self.slots()[index as int] is Some),
            slot matches Some(Some(entry)) ==> Some(*entry) == self.slots()[index as int],
    {
        if index < self.slots.len() {
            match &self.slots[index] {
                Slot::Requested => Some(None),
                Slot::Received(entry) => Some(Some(entry)),
            }
        } else {
            None
        }
    }

    /// The first missing slot, or the known upper bound if none is missing.
    pub fn next_expected(&self) -> (next: usize)
        ensures
            next == first_missing(self.slots(), 0),
            next <= self.slots().len(),
            forall|i: int| 0 <= i < next ==> self.slots()[i] is Some,
            next < self.slots().len() ==> self.slots()[next as int] is None,
    {
        let mut i: usize = 0;
        while i < self.slots.len()
            invariant
                i <= self.slots.len(),
                forall|j: int| 0 <= j < i ==> self.slots()[j] is Some,
                first_missing(self.slots(), 0) == first_missing(self.slots(), i as int),
            decreases self.slots.len() - i,
        {
            match &self.slots[i] {
                Slot::Requested => {
                    return i;
                },
                Slot::Received(_) => {},
            }
            i += 1;
        }
        i
    }

    /// The contiguous received prefix, excluding entries buffered beyond the
    /// first missing slot.
    pub fn committed_prefix(&self) -> (prefix: Vec<&T>)
        ensures
            prefix@.len() == first_missing(self.slots(), 0),
            forall|i: int| 0 <= i < prefix@.len() ==> Some(*prefix@[i]) == self.slots()[i],
    {
        let next = self.next_expected();
        let mut prefix: Vec<&T> = Vec::new();
        let mut i: usize = 0;
        while i < next
            invariant
                i <= next,
                next <= self.slots.len(),
                forall|j: int| 0 <= j < next ==> self.slots()[j] is Some,
                prefix@.len() == i,
                forall|j: int| 0 <= j < i ==> Some(*prefix@[j]) == self.slots()[j],
            decreases next - i,
        {
            match &self.slots[i] {
                Slot::Received(entry) => {
                    prefix.push(entry);
                },
                Slot::Requested => {
                    assert(self.slots()[i as int] is None);
                    return prefix;
                },
            }
            i += 1;
        }
        prefix
    }
}

impl<T> Effect<T> {
    pub(crate) fn fetch_missing(from: usize, limit: usize) -> (effect: Self)
        ensures
            effect_range(effect) == (from as int, limit as int),
    {
        Self::FetchMissing { from, limit, _marker: PhantomData }
    }
}

// ---------------------------------------------------------------------------
// Reducer
// ---------------------------------------------------------------------------

/// Create coordinator state from a page limit and an optional latest known
/// entry index.
pub fn init<T>(page_limit: usize, latest_entry_index: Option<usize>) -> (result: Result<
    Transition<T>,
    InitError,
>)
    requires
        page_limit > 0 ==> (latest_entry_index matches Some(l) ==> l < usize::MAX),
    ensures
        page_limit == 0 <==> result is Err,
        page_limit == 0 ==> result matches Err(InitError::InvalidPageLimit),
        result matches Ok(t) ==> {
            &&& t.state.wf()
            &&& t.state.spec_page_limit() == page_limit
            &&& t.state.slots() == synced(Seq::<Option<T>>::empty(), latest_entry_index)
            &&& effect_ranges(t.effects@) == if latest_entry_index is Some {
                fetch_plan(t.state.slots(), page_limit as int, 0)
            } else {
                Seq::empty()
            }
        },
{
    if page_limit == 0 {
        return Err(InitError::InvalidPageLimit);
    }
    let state = State::empty(page_limit);
    Ok(sync_to_latest(state, latest_entry_index))
}

/// Grow the state to the latest known entry index; never shrinks it.
pub fn sync_to_latest<T>(state: State<T>, latest_entry_index: Option<usize>) -> (t: Transition<T>)
    requires
        state.wf(),
        latest_entry_index matches Some(l) ==> l < usize::MAX,
    ensures
        t.state.wf(),
        t.state.spec_page_limit() == state.spec_page_limit(),
        t.state.slots() == synced(state.slots(), latest_entry_index),
        effect_ranges(t.effects@) == if latest_entry_index is Some {
            fetch_plan(t.state.slots(), state.spec_page_limit() as int, 0)
        } else {
            Seq::empty()
        },
{
    let mut state = state;
    if let Some(latest_entry_index) = latest_entry_index {
        apply_latest_index(&mut state, latest_entry_index);
        let effects = plan_missing_fetches(&state);
        return Transition { state, effects };
    }
    let t = Transition { state, effects: Vec::new() };
    assert(effect_ranges(t.effects@) =~= Seq::empty());
    t
}

/// `new` and `effects` are what `event` makes of `old`: the entry fills its
/// slot, and an entry beyond the known slots asks for everything missing.
pub open spec fn reduced<T>(old: State<T>, event: Event<T>, new: State<T>, effects: Seq<Effect<T>>) -> bool {
    match event {
        Event::Received { index, entry } => {
            &&& new.slots() == received(old.slots(), index as int, entry)
            &&& effect_ranges(effects) == if index < old.slots().len() {
                Seq::empty()
            } else {
                fetch_plan(new.slots(), old.spec_page_limit() as int, 0)
            }
        },
    }
}

/// Reduce one event into a new state and the fetches it calls for.
pub fn reduce<T>(state: State<T>, event: Event<T>) -> (t: Transition<T>)
    requires
        state.wf(),
        event matches Event::Received { index, .. } ==> index < usize::MAX,
    ensures
        t.state.wf(),
        t.state.spec_page_limit() == state.spec_page_limit(),
        reduced(state, event, t.state, t.effects@),
{
    let mut state = state;
    match event {
        Event::Received { index, entry } => {
            let ghost old_slots = state.slots();
            if index < state.slots.len() {
                let already = match &state.slots[index] {
                    Slot::Received(_) => true,
                    Slot::Requested => false,
                };
                if !already {
                    state.slots.set(index, Slot::Received(entry));
                    assert(state.slots() =~= old_slots.update(index as int, Some(entry)));
                }
                let t = Transition { state, effects: Vec::new() };
                assert(effect_ranges(t.effects@) =~= Seq::empty());
                return t;
            }
            let old_len = state.slots.len();
            let ghost limit = state.page_limit;
            while state.slots.len() < index
                invariant
                    old_len <= state.slots.len() <= index,
                    old_len == old_slots.len(),
                    state.page_limit == limit,
                    state.slots()
                        =~= old_slots + Seq::new(
                        (state.slots.len() - old_len) as nat,
                        |i: int| None::<T>,
                    ),
                decreases index - state.slots.len(),
            {
                let ghost before = state.slots();
                state.slots.push(Slot::Requested);
                assert(state.slots() =~= before.push(None));
            }
            state.slots.push(Slot::Received(entry));
            assert(state.slots() =~= received(old_slots, index as int, entry));
            let effects = plan_missing_fetches(&state);
            Transition { state, effects }
        },
    }
}

fn apply_latest_index<T>(state: &mut State<T>, latest_entry_index: usize)
    requires
        old(state).wf(),
        latest_entry_index < usize::MAX,
    ensures
        final(state).wf(),
        final(state).spec_page_limit() == old(state).spec_page_limit(),
        final(state).slots() == synced(old(state).slots(), Some(latest_entry_index)),
{
    let ghost old_slots = state.slots();
    if latest_entry_index >= state.slots.len() {
        let old_len = state.slots.len();
        while state.slots.len() <= latest_entry_index
            invariant
                old_len <= state.slots.len() <= latest_entry_index + 1,
                state.page_limit == old(state).page_limit,
                old_slots == old(state).slots(),
                old_len == old_slots.len(),
                state.slots()
                    =~= old_slots + Seq::new(
                    (state.slots.len() - old_len) as nat,
                    |i: int| None::<T>,
                ),
            decreases latest_entry_index + 1 - state.slots.len(),
        {
            let ghost before = state.slots();
            state.slots.push(Slot::Requested);
            assert(state.slots() =~= before.push(None));
        }
    }
}

fn slot_is_missing<T>(slots: &Vec<Slot<T>>, i: usize) -> (missing: bool)
    requires
        i < slots.len(),
    ensures
        missing == (slot_view(slots@[i as int]) is None),
{
    match &slots[i] {
        Slot::Requested => true,
        Slot::Received(_) => false,
    }
}

proof fn lemma_pages_unfold(from: int, end: int, limit: int)
    requires
        from < end,
        limit > 0,
    ensures
        pages(from, end, limit) == seq![(from, if end - from < limit { end - from } else { limit })]
            + pages(from + if end - from < limit { end - from } else { limit }, end, limit),
{
}

fn plan_missing_fetches<T>(state: &State<T>) -> (effects: Vec<Effect<T>>)
    requires
        state.wf(),
    ensures
        effect_ranges(effects@) == fetch_plan(state.slots(), state.spec_page_limit() as int, 0),
{
    let ghost slots = state.slots();
    let ghost limit = state.page_limit as int;
    let mut effects: Vec<Effect<T>> = Vec::new();
    let mut index: usize = 0;
    let len = state.slots.len();
    while index < len
        invariant
            len == state.slots.len(),
            slots == state.slots(),
            limit == state.page_limit,
            limit > 0,
            index <= len,
            effect_ranges(effects@) + fetch_plan(slots, limit, index as int) == fetch_plan(
                slots,
                limit,
                0,
            ),
        decreases len - index,
    {
        if !slot_is_missing(&state.slots, index) {
            assert(slots[index as int] is Some);
            index += 1;
            continue;
        }
        let start = index;
        while index < len && slot_is_missing(&state.slots, index)
            invariant
                len == state.slots.len(),
                slots == state.slots(),
                start <= index <= len,
                run_end(slots, start as int) == run_end(slots, index as int),
            decreases len - index,
        {
            index += 1;
        }
        let end = index;
        assert(run_end(slots, start as int) == end as int);
        assert(fetch_plan(slots, limit, start as int) == pages(start as int, end as int, limit)
            + fetch_plan(slots, limit, end as int));
        let mut from = start;
        while from < end
            invariant
                len == state.slots.len(),
                slots == state.slots(),
                limit == state.page_limit,
                limit > 0,
                start <= from <= end <= len,
                effect_ranges(effects@) + pages(from as int, end as int, limit) + fetch_plan(
                    slots,
                    limit,
                    end as int,
                ) == fetch_plan(slots, limit, 0),
            decreases end - from,
        {
            let limit_here = if end - from < state.page_limit {
                end - from
            } else {
                state.page_limit
            };
            let ghost before = effect_ranges(effects@);
            proof {
                lemma_pages_unfold(from as int, end as int, limit);
            }
            effects.push(Effect::fetch_missing(from, limit_here));
            assert(effect_ranges(effects@) =~= before.push((from as int, limit_here as int)));
            assert(before + pages(from as int, end as int, limit) =~= before.push(
                (from as int, limit_here as int),
            ) + pages(from + limit_here, end as int, limit));
            from += limit_here;
        }
        assert(pages(end as int, end as int, limit) =~= Seq::<(int, int)>::empty());
        assert(effect_ranges(effects@) + Seq::<(int, int)>::empty() =~= effect_ranges(effects@));
    }
    assert(fetch_plan(slots, limit, len as int) =~= Seq::<(int, int)>::empty());
    assert(effect_ranges(effects@) + Seq::<(int, int)>::empty() =~= effect_ranges(effects@));
    effects
}

// ---------------------------------------------------------------------------
// Laws
// ---------------------------------------------------------------------------

proof fn lemma_first_missing<T>(slots: Seq<Option<T>>, i: int)
    requires
        0 <= i <= slots.len(),
    ensures
        i <= first_missing(slots, i) <= slots.len(),
        forall|j: int| i <= j < first_missing(slots, i) ==> slots[j] is Some,
        first_missing(slots, i) < slots.len() ==> slots[first_missing(slots, i)] is None,
    decreases slots.len() - i,
{
    if i < slots.len() && slots[i] is Some {
        lemma_first_missing(slots, i + 1);
    }
}

proof fn lemma_run_end<T>(slots: Seq<Option<T>>, i: int)
    requires
        0 <= i <= slots.len(),
    ensures
        i <= run_end(slots, i) <= slots.len(),
        forall|j: int| i <= j < run_end(slots, i) ==> slots[j] is None,
        run_end(slots, i) < slots.len() ==> slots[run_end(slots, i)] is Some,
    decreases slots.len() - i,
{
    if i < slots.len() && slots[i] is None {
        lemma_run_end(slots, i + 1);
    }
}

/// Each range lies inside `[lo, hi)`, is non-empty, at most `limit` long,
/// and the ranges are in ascending order without overlap.
pub open spec fn ranges_within(ranges: Seq<(int, int)>, lo: int, hi: int, limit: int) -> bool {
    &&& forall|k: int|
        0 <= k < ranges.len() ==> lo <= (#[trigger] ranges[k]).0 && 0 < ranges[k].1 <= limit
            && ranges[k].0 + ranges[k].1 <= hi
    &&& forall|k: int, m: int|
        0 <= k < m < ranges.len() ==> (#[trigger] ranges[k]).0 + ranges[k].1 <= (
        #[trigger] ranges[m]).0
}

/// Index `j` falls inside one of the ranges.
pub open spec fn covered(ranges: Seq<(int, int)>, j: int) -> bool {
    exists|k: int| 0 <= k < ranges.len() && (#[trigger] ranges[k]).0 <= j < ranges[k].0 + ranges[k].1
}

proof fn lemma_pages<T>(from: int, end: int, limit: int)
    requires
        from <= end,
        limit > 0,
    ensures
        ranges_within(pages(from, end, limit), from, end, limit),
        forall|j: int| from <= j < end ==> #[trigger] covered(pages(from, end, limit), j),
    decreases end - from,
{
    if from < end {
        let len = if end - from < limit {
            end - from
        } else {
            limit
        };
        lemma_pages::<T>(from + len, end, limit);
        let rest = pages(from + len, end, limit);
        let all = pages(from, end, limit);
        assert(all == seq![(from, len)] + rest);
        assert forall|k: int, m: int| 0 <= k < m < all.len() implies (#[trigger] all[k]).0 + all[k].1
            <= (#[trigger] all[m]).0 by {
            if k > 0 {
                assert(all[k] == rest[k - 1]);
                assert(all[m] == rest[m - 1]);
            } else {
                assert(all[m] == rest[m - 1]);
            }
        }
        assert forall|k: int| 0 <= k < all.len() implies from <= (#[trigger] all[k]).0 && 0 < all[k].1
            <= limit && all[k].0 + all[k].1 <= end by {
            if k > 0 {
                assert(all[k] == rest[k - 1]);
            }
        }
        assert forall|j: int| from <= j < end implies #[trigger] covered(all, j) by {
            if j < from + len {
                assert(all[0] == (from, len));
            } else {
                assert(covered(rest, j));
                let k = choose|k: int| 0 <= k < rest.len() && (#[trigger] rest[k]).0 <= j < rest[k].0 + rest[k].1;
                assert(all[k + 1] == rest[k]);
            }
        }
    }
}

proof fn lemma_fetch_plan_from<T>(slots: Seq<Option<T>>, limit: int, i: int)
    requires
        0 <= i <= slots.len(),
        limit > 0,
    ensures
        ranges_within(fetch_plan(slots, limit, i), i, slots.len() as int, limit),
        forall|k: int, j: int|
            0 <= k < fetch_plan(slots, limit, i).len() && (#[trigger] fetch_plan(slots, limit, i)[k]).0
                <= j < fetch_plan(slots, limit, i)[k].0 + fetch_plan(slots, limit, i)[k].1
                ==> #[trigger] slots[j] is None,
        forall|j: int|
            i <= j < slots.len() && #[trigger] slots[j] is None ==> covered(
                fetch_plan(slots, limit, i),
                j,
            ),
    decreases slots.len() - i,
{
    let plan = fetch_plan(slots, limit, i);
    if i == slots.len() {
        assert(plan =~= Seq::<(int, int)>::empty());
    } else if slots[i] is Some {
        lemma_fetch_plan_from(slots, limit, i + 1);
        assert forall|j: int| i <= j < slots.len() && #[trigger] slots[j] is None implies covered(
            plan,
            j,
        ) by {
            assert(j != i);
        }
    } else {
        lemma_run_end(slots, i);
        let end = run_end(slots, i);
        assert(end > i);
        lemma_pages::<T>(i, end, limit);
        lemma_fetch_plan_from(slots, limit, end);
        let first = pages(i, end, limit);
        let rest = fetch_plan(slots, limit, end);
        assert(plan == first + rest);
        assert forall|k: int| 0 <= k < plan.len() implies i <= (#[trigger] plan[k]).0 && 0 < plan[k].1
            <= limit && plan[k].0 + plan[k].1 <= slots.len() by {
            if k >= first.len() {
                assert(plan[k] == rest[k - first.len()]);
            } else {
                assert(plan[k] == first[k]);
            }
        }
        assert forall|k: int, m: int| 0 <= k < m < plan.len() implies (#[trigger] plan[k]).0
            + plan[k].1 <= (#[trigger] plan[m]).0 by {
            if m < first.len() {
                assert(plan[k] == first[k]);
                assert(plan[m] == first[m]);
            } else if k >= first.len() {
                assert(plan[k] == rest[k - first.len()]);
                assert(plan[m] == rest[m - first.len()]);
            } else {
                assert(plan[k] == first[k]);
                assert(plan[m] == rest[m - first.len()]);
            }
        }
        assert forall|k: int, j: int|
            0 <= k < plan.len() && (#[trigger] plan[k]).0 <= j < plan[k].0 + plan[k].1 implies #[trigger] slots[j] is None by {
            if k >= first.len() {
                assert(plan[k] == rest[k - first.len()]);
            } else {
                assert(plan[k] == first[k]);
            }
        }
        assert forall|j: int| i <= j < slots.len() && #[trigger] slots[j] is None implies covered(
            plan,
            j,
        ) by {
            if j < end {
                assert(covered(first, j));
                let k = choose|k: int| 0 <= k < first.len() && (#[trigger] first[k]).0 <= j < first[k].0 + first[k].1;
                assert(plan[k] == first[k]);
            } else {
                assert(j != end || end == slots.len());
                assert(covered(rest, j));
                let k = choose|k: int| 0 <= k < rest.len() && (#[trigger] rest[k]).0 <= j < rest[k].0 + rest[k].1;
                assert(plan[k + first.len()] == rest[k]);
            }
        }
    }
}

/// The planned fetches are ascending, non-overlapping, each between one
/// entry and a page long, inside the known slots, ask only for missing
/// slots, and together cover every missing slot.
pub proof fn lemma_fetch_plan_exact<T>(slots: Seq<Option<T>>, page_limit: int)
    requires
        page_limit > 0,
    ensures
        ranges_within(fetch_plan(slots, page_limit, 0), 0, slots.len() as int, page_limit),
        forall|k: int, j: int|
            0 <= k < fetch_plan(slots, page_limit, 0).len() && (#[trigger] fetch_plan(
                slots,
                page_limit,
                0,
            )[k]).0 <= j < fetch_plan(slots, page_limit, 0)[k].0 + fetch_plan(
                slots,
                page_limit,
                0,
            )[k].1 ==> #[trigger] slots[j] is None,
        forall|j: int|
            0 <= j < slots.len() && #[trigger] slots[j] is None ==> covered(
                fetch_plan(slots, page_limit, 0),
                j,
            ),
{
    lemma_fetch_plan_from(slots, page_limit, 0);
}

/// Receiving an entry never removes or overwrites a received entry, keeps
/// the first value received at an index, never shrinks the slots, and never
/// moves the next expected index backwards.
pub proof fn lemma_received_monotonic<T>(slots: Seq<Option<T>>, index: int, entry: T)
    requires
        0 <= index,
    ensures
        received(slots, index, entry).len() >= slots.len(),
        index < received(slots, index, entry).len(),
        forall|i: int|
            0 <= i < slots.len() && #[trigger] slots[i] is Some ==> received(slots, index, entry)[i]
                == slots[i],
        received(slots, index, entry)[index] == if index < slots.len() && slots[index] is Some {
            slots[index]
        } else {
            Some(entry)
        },
        first_missing(received(slots, index, entry), 0) >= first_missing(slots, 0),
{
    let new = received(slots, index, entry);
    lemma_first_missing(slots, 0);
    lemma_first_missing(new, 0);
    let r = first_missing(slots, 0);
    assert forall|j: int| 0 <= j < r implies new[j] is Some by {
        assert(slots[j] is Some);
    }
}

/// Learning of a later entry never removes or overwrites a received entry,
/// never shrinks the slots, and never moves the next expected index
/// backwards; afterwards the slots reach past the latest index.
pub proof fn lemma_synced_monotonic<T>(slots: Seq<Option<T>>, latest: Option<usize>)
    ensures
        synced(slots, latest).len() >= slots.len(),
        latest matches Some(l) ==> l < synced(slots, latest).len(),
        forall|i: int| 0 <= i < slots.len() ==> #[trigger] synced(slots, latest)[i] == slots[i],
        first_missing(synced(slots, latest), 0) >= first_missing(slots, 0),
{
    let new = synced(slots, latest);
    lemma_first_missing(slots, 0);
    lemma_first_missing(new, 0);
    let r = first_missing(slots, 0);
    assert forall|j: int| 0 <= j < r implies new[j] is Some by {
        assert(slots[j] is Some);
    }
}

} // verus!
