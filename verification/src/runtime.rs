//! Routing the kernel's effects to the connections that are still open.
//!
//! The host keeps one handle per connected worker and client stream; the
//! kernel names them by id. Before the host acts on a batch of effects, the
//! router decides which effects can be delivered, which dispatches fail
//! back into the kernel, and which handles are used up on the way.
use vstd::prelude::*;

use crate::gateway::Effect;
use crate::gateway::Event;
use crate::strings::to_string;

verus! {

/// The ids of the workers and client streams whose handles are still held.
#[derive(Debug, PartialEq, Eq)]
pub struct LiveHandles {
    pub workers: Vec<u64>,
    pub streams: Vec<u64>,
}

impl LiveHandles {
    pub open spec fn worker_ids(self) -> Set<u64> {
        self.workers@.to_set()
    }

    pub open spec fn stream_ids(self) -> Set<u64> {
        self.streams@.to_set()
    }
}

/// The outcome of routing a batch of effects: the effects to deliver, in
/// order; the failed dispatches, as the stream and the reason, in order;
/// and the worker and stream ids whose handles are left.
pub struct Routing {
    pub delivered: Seq<Effect>,
    pub failed: Seq<(u64, Seq<char>)>,
    pub workers: Set<u64>,
    pub streams: Set<u64>,
}

/// Route one more effect after `r`. A dispatch uses up the worker's handle
/// and needs the stream's; an error frame needs the stream's handle; the
/// closing frame uses it up; a protocol violation always goes through.
pub open spec fn route(r: Routing, e: Effect) -> Routing {
    match e {
        Effect::DispatchJob(job) => if !r.workers.contains(job.worker_id) {
            Routing {
                failed: r.failed.push((job.client_stream_id, "worker handle not found"@)),
                ..r
            }
        } else if !r.streams.contains(job.client_stream_id) {
            Routing {
                failed: r.failed.push((job.client_stream_id, "stream handle not found"@)),
                workers: r.workers.remove(job.worker_id),
                ..r
            }
        } else {
            Routing {
                delivered: r.delivered.push(e),
                workers: r.workers.remove(job.worker_id),
                ..r
            }
        },
        Effect::SendClientError(frame) => if r.streams.contains(frame.client_stream_id) {
            Routing { delivered: r.delivered.push(e), ..r }
        } else {
            r
        },
        Effect::SendClientDone(frame) => if r.streams.contains(frame.client_stream_id) {
            Routing {
                delivered: r.delivered.push(e),
                streams: r.streams.remove(frame.client_stream_id),
                ..r
            }
        } else {
            r
        },
        Effect::ProtocolViolation(_) => Routing { delivered: r.delivered.push(e), ..r },
    }
}

/// Route `effects` in order, starting with the handles of `workers` and
/// `streams`.
pub open spec fn routing(workers: Set<u64>, streams: Set<u64>, effects: Seq<Effect>) -> Routing
    decreases effects.len(),
{
    if effects.len() == 0 {
        Routing { delivered: Seq::empty(), failed: Seq::empty(), workers, streams }
    } else {
        route(routing(workers, streams, effects.drop_last()), effects.last())
    }
}

/// Whether `id` is among `ids`.
fn holds_id(ids: &Vec<u64>, id: u64) -> (found: bool)
    ensures
        found == ids@.contains(id),
{
    let mut i: usize = 0;
    while i < ids.len()
        invariant
            i <= ids.len(),
            forall|j: int| 0 <= j < i ==> ids@[j] != id,
        decreases ids.len() - i,
    {
        if ids[i] == id {
            assert(ids@[i as int] == id);
            return true;
        }
        i += 1;
    }
    false
}

/// Drop every occurrence of `id` from `ids`.
fn drop_id(ids: &mut Vec<u64>, id: u64)
    ensures
        final(ids)@.to_set() == old(ids)@.to_set().remove(id),
{
    let mut kept: Vec<u64> = Vec::new();
    let mut i: usize = 0;
    while i < ids.len()
        invariant
            i <= ids.len(),
            forall|x: u64| kept@.contains(x) <==> (x != id && ids@.take(i as int).contains(x)),
        decreases ids.len() - i,
    {
        let x = ids[i];
        let ghost prev = kept@;
        proof {
            assert forall|y: u64| ids@.take(i + 1).contains(y) <==> (ids@.take(i as int).contains(y)
                || y == x) by {
                if ids@.take(i + 1).contains(y) {
                    let k = choose|k: int| 0 <= k < i + 1 && #[trigger] ids@.take(i + 1)[k] == y;
                    if k < i {
                        assert(ids@.take(i as int)[k] == y);
                    }
                }
                if ids@.take(i as int).contains(y) {
                    let k = choose|k: int| 0 <= k < i && #[trigger] ids@.take(i as int)[k] == y;
                    assert(ids@.take(i + 1)[k] == y);
                }
                if y == x {
                    assert(ids@.take(i + 1)[i as int] == y);
                }
            }
        }
        if x != id {
            let ghost before = kept@;
            kept.push(x);
            proof {
                assert forall|y: u64| kept@.contains(y) <==> (before.contains(y) || y == x) by {
                    if kept@.contains(y) {
                        let k = choose|k: int| 0 <= k < kept@.len() && #[trigger] kept@[k] == y;
                        if k < before.len() {
                            assert(before[k] == y);
                        }
                    }
                    if before.contains(y) {
                        let k = choose|k: int| 0 <= k < before.len() && #[trigger] before[k] == y;
                        assert(kept@[k] == y);
                    }
                    if y == x {
                        assert(kept@[before.len() as int] == y);
                    }
                }
            }
        }
        assert forall|y: u64| kept@.contains(y) <==> (y != id && ids@.take(i + 1).contains(y)) by {
            assert(ids@.take(i + 1).contains(y) <==> (ids@.take(i as int).contains(y) || y == x));
            assert(prev.contains(y) <==> (y != id && ids@.take(i as int).contains(y)));
            if x != id {
                assert(kept@.contains(y) <==> (prev.contains(y) || y == x));
            } else {
                assert(kept@ == prev);
            }
        }
        i += 1;
    }
    assert(ids@.take(ids.len() as int) =~= ids@);
    let ghost given = ids@;
    *ids = kept;
    assert(ids@.to_set() =~= given.to_set().remove(id));
}

/// Route the kernel's `effects` in order: deliver those whose handles are
/// held, turn each dispatch that cannot be delivered into an
/// `AssignmentFailed` event for the kernel, and give up the handles that
/// delivery uses up.
pub fn resolve_effects(handles: &mut LiveHandles, effects: Vec<Effect>) -> (routed: (Vec<Effect>, Vec<Event>))
    ensures
        ({
            let r = routing(old(handles).worker_ids(), old(handles).stream_ids(), effects@);
            &&& routed.0@ == r.delivered
            &&& routed.1@.len() == r.failed.len()
            &&& forall|i: int|
                0 <= i < r.failed.len() ==> (#[trigger] routed.1@[i] matches Event::AssignmentFailed {
                    client_stream_id,
                    message,
                } && client_stream_id == r.failed[i].0 && message@ == r.failed[i].1)
            &&& final(handles).worker_ids() == r.workers
            &&& final(handles).stream_ids() == r.streams
        }),
{
    let ghost workers0 = handles.worker_ids();
    let ghost streams0 = handles.stream_ids();
    let total = effects.len();
    let ghost all = effects@;
    let mut effects = effects;
    let mut delivered: Vec<Effect> = Vec::new();
    let mut fallbacks: Vec<Event> = Vec::new();
    let mut k: usize = 0;
    proof {
        reveal_strlit("worker handle not found");
        reveal_strlit("stream handle not found");
    }
    while effects.len() > 0
        invariant
            k + effects@.len() == all.len(),
            all.len() == total,
            effects@ == all.skip(k as int),
            ({
                let r = routing(workers0, streams0, all.take(k as int));
                &&& delivered@ == r.delivered
                &&& fallbacks@.len() == r.failed.len()
                &&& forall|i: int|
                    0 <= i < r.failed.len() ==> (#[trigger] fallbacks@[i] matches Event::AssignmentFailed {
                        client_stream_id,
                        message,
                    } && client_stream_id == r.failed[i].0 && message@ == r.failed[i].1)
                &&& handles.worker_ids() == r.workers
                &&& handles.stream_ids() == r.streams
            }),
        decreases effects@.len(),
    {
        let effect = effects.remove(0);
        let ghost r = routing(workers0, streams0, all.take(k as int));
        let ghost before = fallbacks@;
        assert(effect == all[k as int]);
        assert(all.take(k + 1).drop_last() =~= all.take(k as int));
        assert(all.take(k + 1).last() == effect);
        match effect {
            Effect::DispatchJob(job) => {
                if !holds_id(&handles.workers, job.worker_id) {
                    fallbacks.push(
                        Event::AssignmentFailed {
                            client_stream_id: job.client_stream_id,
                            message: to_string("worker handle not found"),
                        },
                    );
                } else {
                    drop_id(&mut handles.workers, job.worker_id);
                    if !holds_id(&handles.streams, job.client_stream_id) {
                        fallbacks.push(
                            Event::AssignmentFailed {
                                client_stream_id: job.client_stream_id,
                                message: to_string("stream handle not found"),
                            },
                        );
                    } else {
                        delivered.push(Effect::DispatchJob(job));
                    }
                }
            },
            Effect::SendClientError(frame) => {
                if holds_id(&handles.streams, frame.client_stream_id) {
                    delivered.push(Effect::SendClientError(frame));
                }
            },
            Effect::SendClientDone(frame) => {
                if holds_id(&handles.streams, frame.client_stream_id) {
                    drop_id(&mut handles.streams, frame.client_stream_id);
                    delivered.push(Effect::SendClientDone(frame));
                }
            },
            Effect::ProtocolViolation(v) => {
                delivered.push(Effect::ProtocolViolation(v));
            },
        }
        proof {
            let r2 = routing(workers0, streams0, all.take(k + 1));
            assert(r2 == route(r, all[k as int]));
            assert forall|i: int| 0 <= i < r2.failed.len() implies (#[trigger] fallbacks@[i] matches Event::AssignmentFailed {
                client_stream_id,
                message,
            } && client_stream_id == r2.failed[i].0 && message@ == r2.failed[i].1) by {
                if i < r.failed.len() {
                    assert(fallbacks@[i] == before[i]);
                    assert(r2.failed[i] == r.failed[i]);
                }
            }
        }
        k += 1;
        assert(effects@ =~= all.skip(k as int));
    }
    assert(all.take(k as int) =~= all);
    (delivered, fallbacks)
}

/// A dispatch whose handles are not both held is never delivered: it fails
/// back to the kernel for its stream, as "worker handle not found" when the
/// worker's handle is gone, else as "stream handle not found" with the
/// worker's handle used up. A protocol violation is always delivered, and
/// neither kind of effect touches the other handles.
pub proof fn lemma_undeliverable_dispatch_fails_back(
    workers: Set<u64>,
    streams: Set<u64>,
    effects: Seq<Effect>,
    e: Effect,
)
    ensures
        ({
            let before = routing(workers, streams, effects);
            let after = routing(workers, streams, effects.push(e));
            match e {
                Effect::DispatchJob(job) => if !before.workers.contains(job.worker_id) {
                    &&& after.delivered == before.delivered
                    &&& after.failed == before.failed.push(
                        (job.client_stream_id, "worker handle not found"@),
                    )
                    &&& after.workers == before.workers
                    &&& after.streams == before.streams
                } else if !before.streams.contains(job.client_stream_id) {
                    &&& after.delivered == before.delivered
                    &&& after.failed == before.failed.push(
                        (job.client_stream_id, "stream handle not found"@),
                    )
                    &&& after.workers == before.workers.remove(job.worker_id)
                    &&& after.streams == before.streams
                } else {
                    true
                },
                Effect::ProtocolViolation(_) => {
                    &&& after.delivered == before.delivered.push(e)
                    &&& after.failed == before.failed
                    &&& after.workers == before.workers
                    &&& after.streams == before.streams
                },
                _ => true,
            }
        }),
{
    assert(effects.push(e).drop_last() =~= effects);
}

} // verus!
