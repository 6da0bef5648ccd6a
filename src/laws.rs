//! Properties of layouts and of the allocation policies, proved over the state machine
//! that every allocation attempt follows.
use vstd::prelude::*;
use crate::layout::{is_power_of_two, layout_check, AllocLayout, LayoutError};
use crate::policy::{
    action_of, actions, answers, escalate, run, step, Action, AllocResult, Event, FatalError, Phase, PolicyLayer,
    ShmBuf,
};
use crate::alloc_layout::{gc_defrag_dealloc_layers, gc_layers};
use crate::driver::faithful_from;

verus! {

/// One more event adds its state's action to the list of actions.
pub proof fn lemma_actions_push(layers: Seq<PolicyLayer>, events: Seq<Event>, e: Event)
    ensures
        run(layers, events.push(e)) == step(layers, run(layers, events).0, run(layers, events).1, e),
        actions(layers, events.push(e)) == actions(layers, events).push(
            action_of(layers, run(layers, events.push(e)).1),
        ),
{
    assert(events.push(e).drop_last() =~= events);
}

/// Every size within the arena with a power-of-two alignment gives a well-formed layout,
/// and that layout is all that an allocation call asks of its layout, however many
/// attempts use it.
pub proof fn law_valid_layout_accepted(capacity: usize, size: usize, alignment: usize)
    requires
        is_power_of_two(alignment as nat),
        size <= capacity,
    ensures
        layout_check(capacity, size, alignment) == None::<LayoutError>,
        AllocLayout::spec_new(capacity, size, alignment).wf(),
        AllocLayout::spec_new(capacity, size, alignment).spec_size() == size,
        AllocLayout::spec_new(capacity, size, alignment).spec_alignment() == alignment,
{
    AllocLayout::lemma_spec_new(capacity, size, alignment);
}

/// An alignment that is not a power of two is refused as an invalid argument.
pub proof fn law_bad_alignment_refused(capacity: usize, size: usize, alignment: usize)
    requires
        !is_power_of_two(alignment as nat),
    ensures
        layout_check(capacity, size, alignment) == Some(LayoutError::InvalidArgument),
{
}

/// Under the bare single call, whatever the backend answers, the only action ever asked
/// for is an allocation call: no reclamation.
pub proof fn law_just_alloc_never_reclaims(events: Seq<Event>)
    ensures
        action_of(Seq::empty(), run(Seq::empty(), events).1) is Allocate || action_of(
            Seq::empty(),
            run(Seq::empty(), events).1,
        ) is Done,
        actions(Seq::empty(), seq![Event::Allocated(AllocResult::NeedRetry)]) == seq![
            Action::Allocate,
            Action::Done(AllocResult::NeedRetry),
        ],
    decreases events.len(),
{
    let layers = Seq::<PolicyLayer>::empty();
    if events.len() > 0 {
        law_just_alloc_never_reclaims(events.drop_last());
    }
    lemma_actions_push(layers, Seq::empty(), Event::Allocated(AllocResult::NeedRetry));
    assert(Seq::<Event>::empty().push(Event::Allocated(AllocResult::NeedRetry)) =~= seq![
        Event::Allocated(AllocResult::NeedRetry),
    ]);
}

/// Garbage collection around the single call: after a `NeedRetry` it collects once and
/// calls once more, and the second answer, whatever it is, ends the attempt.
pub proof fn law_garbage_collect_once(r: AllocResult)
    ensures
        actions(
            gc_layers(),
            seq![
                Event::Allocated(AllocResult::NeedRetry),
                Event::Collected,
                Event::Allocated(r),
            ],
        ) == seq![Action::Allocate, Action::GarbageCollect, Action::Allocate, Action::Done(r)],
{
    let l = gc_layers();
    let e0 = Seq::<Event>::empty();
    let e1 = e0.push(Event::Allocated(AllocResult::NeedRetry));
    let e2 = e1.push(Event::Collected);
    let e3 = e2.push(Event::Allocated(r));
    lemma_actions_push(l, e0, Event::Allocated(AllocResult::NeedRetry));
    lemma_actions_push(l, e1, Event::Collected);
    lemma_actions_push(l, e2, Event::Allocated(r));
    assert(run(l, e1).0 =~= seq![1u64]);
    assert(run(l, e2).0 =~= seq![1u64]);
    assert(run(l, e2).1 == Phase::Allocating);
    assert(escalate(l, seq![1u64], 1) == (seq![1u64], Phase::Finished(AllocResult::NeedRetry)));
    assert(run(l, e3).1 == Phase::Finished(r));
    assert(actions(l, e0) == seq![Action::Allocate]);
    assert(e3 =~= seq![
        Event::Allocated(AllocResult::NeedRetry),
        Event::Collected,
        Event::Allocated(r),
    ]);
    assert(actions(l, e3) =~= seq![
        Action::Allocate,
        Action::GarbageCollect,
        Action::Allocate,
        Action::Done(r),
    ]);
}

/// Eviction around the single call, with at most three evictions. When the backend
/// grants the region after two evictions, exactly two are made; when its fourth answer
/// still fails, exactly three are made and that answer ends the attempt.
pub proof fn law_deallocate_three(b: ShmBuf, last: AllocResult)
    requires
        !(last is Granted),
    ensures
        actions(
            seq![PolicyLayer::Deallocate(3)],
            seq![
                Event::Allocated(AllocResult::NeedRetry),
                Event::Deallocated(true),
                Event::Allocated(AllocResult::NeedRetry),
                Event::Deallocated(true),
                Event::Allocated(AllocResult::Granted(b)),
            ],
        ) == seq![
            Action::Allocate,
            Action::DeallocateOldest,
            Action::Allocate,
            Action::DeallocateOldest,
            Action::Allocate,
            Action::Done(AllocResult::Granted(b)),
        ],
        actions(
            seq![PolicyLayer::Deallocate(3)],
            seq![
                Event::Allocated(AllocResult::NeedRetry),
                Event::Deallocated(true),
                Event::Allocated(AllocResult::NeedRetry),
                Event::Deallocated(true),
                Event::Allocated(AllocResult::NeedRetry),
                Event::Deallocated(true),
                Event::Allocated(last),
            ],
        ) == seq![
            Action::Allocate,
            Action::DeallocateOldest,
            Action::Allocate,
            Action::DeallocateOldest,
            Action::Allocate,
            Action::DeallocateOldest,
            Action::Allocate,
            Action::Done(last),
        ],
{
    let l = seq![PolicyLayer::Deallocate(3)];
    let nr = Event::Allocated(AllocResult::NeedRetry);
    let d = Event::Deallocated(true);
    let g = Event::Allocated(AllocResult::Granted(b));
    let e0 = Seq::<Event>::empty();
    let e1 = e0.push(nr);
    let e2 = e1.push(d);
    let e3 = e2.push(nr);
    let e4 = e3.push(d);
    let e5 = e4.push(nr);
    let e6 = e5.push(d);
    let e7 = e6.push(Event::Allocated(last));
    let g5 = e4.push(g);
    assert(actions(l, e0) == seq![Action::Allocate]);
    lemma_actions_push(l, e0, nr);
    assert(run(l, e1) == (seq![1u64], Phase::Reclaiming(0)));
    lemma_actions_push(l, e1, d);
    assert(run(l, e2).0 =~= seq![1u64]);
    lemma_actions_push(l, e2, nr);
    assert(run(l, e3).0 =~= seq![2u64]);
    lemma_actions_push(l, e3, d);
    assert(run(l, e4).0 =~= seq![2u64]);
    lemma_actions_push(l, e4, g);
    lemma_actions_push(l, e4, nr);
    assert(run(l, e5).0 =~= seq![3u64]);
    lemma_actions_push(l, e5, d);
    assert(run(l, e6).0 =~= seq![3u64]);
    assert(run(l, e6).1 == Phase::Allocating);
    lemma_actions_push(l, e6, Event::Allocated(last));
    assert(escalate(l, seq![3u64], 1) == (seq![3u64], Phase::Finished(AllocResult::NeedRetry)));
    assert(run(l, e7).1 == Phase::Finished(last));
    assert(g5 =~= seq![nr, d, nr, d, g]);
    assert(e7 =~= seq![nr, d, nr, d, nr, d, Event::Allocated(last)]);
    assert(actions(l, g5) =~= seq![
        Action::Allocate,
        Action::DeallocateOldest,
        Action::Allocate,
        Action::DeallocateOldest,
        Action::Allocate,
        Action::Done(AllocResult::Granted(b)),
    ]);
    assert(actions(l, e7) =~= seq![
        Action::Allocate,
        Action::DeallocateOldest,
        Action::Allocate,
        Action::DeallocateOldest,
        Action::Allocate,
        Action::DeallocateOldest,
        Action::Allocate,
        Action::Done(last),
    ]);
}

/// Blocking around the single call: after a `NeedRetry` it waits for one change of the
/// backend's capacity, calls again, and a final answer ends the attempt.
pub proof fn law_block_on_one_wait(r: AllocResult)
    requires
        !(r is NeedRetry),
    ensures
        actions(
            seq![PolicyLayer::BlockOn],
            seq![
                Event::Allocated(AllocResult::NeedRetry),
                Event::CapacityChanged,
                Event::Allocated(r),
            ],
        ) == seq![Action::Allocate, Action::AwaitCapacity, Action::Allocate, Action::Done(r)],
{
    let l = seq![PolicyLayer::BlockOn];
    let e0 = Seq::<Event>::empty();
    let e1 = e0.push(Event::Allocated(AllocResult::NeedRetry));
    let e2 = e1.push(Event::CapacityChanged);
    let e3 = e2.push(Event::Allocated(r));
    assert(actions(l, e0) == seq![Action::Allocate]);
    lemma_actions_push(l, e0, Event::Allocated(AllocResult::NeedRetry));
    assert(run(l, e1) == (seq![0u64], Phase::Reclaiming(0)));
    lemma_actions_push(l, e1, Event::CapacityChanged);
    lemma_actions_push(l, e2, Event::Allocated(r));
    assert(e3 =~= seq![
        Event::Allocated(AllocResult::NeedRetry),
        Event::CapacityChanged,
        Event::Allocated(r),
    ]);
    assert(actions(l, e3) =~= seq![
        Action::Allocate,
        Action::AwaitCapacity,
        Action::Allocate,
        Action::Done(r),
    ]);
}

/// Eviction around defragmentation around garbage collection: against a backend that
/// needs a collection, then a defragmentation, then one eviction, the reclamation steps
/// come in that order (the inner collection being tried afresh after each outer step),
/// with a single eviction, before the region is granted.
pub proof fn law_composed_chain_order(b: ShmBuf)
    ensures
        actions(
            gc_defrag_dealloc_layers(),
            seq![
                Event::Allocated(AllocResult::NeedRetry),
                Event::Collected,
                Event::Allocated(AllocResult::NeedRetry),
                Event::Defragmented,
                Event::Allocated(AllocResult::NeedRetry),
                Event::Collected,
                Event::Allocated(AllocResult::NeedRetry),
                Event::Deallocated(true),
                Event::Allocated(AllocResult::Granted(b)),
            ],
        ) == seq![
            Action::Allocate,
            Action::GarbageCollect,
            Action::Allocate,
            Action::Defragment,
            Action::Allocate,
            Action::GarbageCollect,
            Action::Allocate,
            Action::DeallocateOldest,
            Action::Allocate,
            Action::Done(AllocResult::Granted(b)),
        ],
{
    let l = gc_defrag_dealloc_layers();
    let nr = Event::Allocated(AllocResult::NeedRetry);
    let g = Event::Allocated(AllocResult::Granted(b));
    let e0 = Seq::<Event>::empty();
    let e1 = e0.push(nr);
    let e2 = e1.push(Event::Collected);
    let e3 = e2.push(nr);
    let e4 = e3.push(Event::Defragmented);
    let e5 = e4.push(nr);
    let e6 = e5.push(Event::Collected);
    let e7 = e6.push(nr);
    let e8 = e7.push(Event::Deallocated(true));
    let e9 = e8.push(g);
    assert(actions(l, e0) == seq![Action::Allocate]);
    assert(run(l, e0).0 =~= seq![0u64, 0u64, 0u64]);
    lemma_actions_push(l, e0, nr);
    assert(run(l, e1).0 =~= seq![1u64, 0u64, 0u64]);
    assert(run(l, e1).1 == Phase::Reclaiming(0));
    lemma_actions_push(l, e1, Event::Collected);
    assert(run(l, e2).0 =~= seq![1u64, 0u64, 0u64]);
    assert(run(l, e2).1 == Phase::Allocating);
    lemma_actions_push(l, e2, nr);
    let c2 = run(l, e2).0;
    assert(escalate(l, c2, 0) == escalate(l, c2, 1));
    assert(escalate(l, c2, 1) == (c2.update(1, 1u64), Phase::Reclaiming(1)));
    assert(run(l, e3).0 =~= seq![1u64, 1u64, 0u64]);
    assert(run(l, e3).1 == Phase::Reclaiming(1));
    lemma_actions_push(l, e3, Event::Defragmented);
    assert(run(l, e4).0 =~= seq![0u64, 1u64, 0u64]);
    assert(run(l, e4).1 == Phase::Allocating);
    lemma_actions_push(l, e4, nr);
    assert(run(l, e5).0 =~= seq![1u64, 1u64, 0u64]);
    assert(run(l, e5).1 == Phase::Reclaiming(0));
    lemma_actions_push(l, e5, Event::Collected);
    assert(run(l, e6).0 =~= seq![1u64, 1u64, 0u64]);
    assert(run(l, e6).1 == Phase::Allocating);
    lemma_actions_push(l, e6, nr);
    let c6 = run(l, e6).0;
    assert(escalate(l, c6, 0) == escalate(l, c6, 1));
    assert(escalate(l, c6, 1) == escalate(l, c6, 2));
    assert(escalate(l, c6, 2) == (c6.update(2, 1u64), Phase::Reclaiming(2)));
    assert(run(l, e7).0 =~= seq![1u64, 1u64, 1u64]);
    assert(run(l, e7).1 == Phase::Reclaiming(2));
    lemma_actions_push(l, e7, Event::Deallocated(true));
    assert(run(l, e8).0 =~= seq![0u64, 0u64, 1u64]);
    assert(run(l, e8).1 == Phase::Allocating);
    lemma_actions_push(l, e8, g);
    assert(e9 =~= seq![
        nr,
        Event::Collected,
        nr,
        Event::Defragmented,
        nr,
        Event::Collected,
        nr,
        Event::Deallocated(true),
        g,
    ]);
    assert(actions(l, e9) =~= seq![
        Action::Allocate,
        Action::GarbageCollect,
        Action::Allocate,
        Action::Defragment,
        Action::Allocate,
        Action::GarbageCollect,
        Action::Allocate,
        Action::DeallocateOldest,
        Action::Allocate,
        Action::Done(AllocResult::Granted(b)),
    ]);
}

/// Under any policy, a fatal answer to an allocation call ends the attempt with that
/// very error, and no event after it asks for anything more.
pub proof fn law_fatal_short_circuits(
    layers: Seq<PolicyLayer>,
    events: Seq<Event>,
    f: FatalError,
    later: Seq<Event>,
)
    requires
        action_of(layers, run(layers, events).1) == Action::Allocate,
    ensures
        run(layers, events.push(Event::Allocated(AllocResult::Fatal(f))) + later).1
            == Phase::Finished(AllocResult::Fatal(f)),
        action_of(layers, run(layers, events.push(Event::Allocated(AllocResult::Fatal(f))) + later).1)
            == Action::Done(AllocResult::Fatal(f)),
    decreases later.len(),
{
    let fatal = events.push(Event::Allocated(AllocResult::Fatal(f)));
    if later.len() == 0 {
        assert(fatal + later =~= fatal);
        lemma_actions_push(layers, events, Event::Allocated(AllocResult::Fatal(f)));
    } else {
        law_fatal_short_circuits(layers, events, f, later.drop_last());
        assert((fatal + later).drop_last() =~= fatal + later.drop_last());
    }
}

/// What the driver reports under the bare single call is at most one answer, to an
/// allocation call: it never asks the backend to reclaim.
pub proof fn law_just_alloc_calls_once(layout: AllocLayout, h: Seq<Event>)
    requires
        faithful_from(Seq::empty(), layout, h, 0),
    ensures
        h.len() <= 1,
        h.len() == 1 ==> h[0] is Allocated,
{
    let l = Seq::<PolicyLayer>::empty();
    if h.len() >= 1 {
        assert(h.take(0) =~= Seq::<Event>::empty());
        assert(answers(action_of(l, run(l, h.take(0)).1), h[0]));
    }
    if h.len() >= 2 {
        assert(h.take(1) =~= Seq::<Event>::empty().push(h[0]));
        lemma_actions_push(l, Seq::<Event>::empty(), h[0]);
        assert(answers(action_of(l, run(l, h.take(1)).1), h[1]));
    }
}

/// In what the driver reports under any policy, a fatal answer is the last event, and
/// the attempt ends with that very error.
pub proof fn law_fatal_is_last(
    layers: Seq<PolicyLayer>,
    layout: AllocLayout,
    h: Seq<Event>,
    i: int,
    f: FatalError,
)
    requires
        faithful_from(layers, layout, h, 0),
        0 <= i < h.len(),
        h[i] == Event::Allocated(AllocResult::Fatal(f)),
    ensures
        i == h.len() - 1,
        run(layers, h).1 == Phase::Finished(AllocResult::Fatal(f)),
{
    assert(answers(action_of(layers, run(layers, h.take(i)).1), h[i]));
    assert(h.take(i + 1) =~= h.take(i).push(h[i]));
    lemma_actions_push(layers, h.take(i), h[i]);
    if i + 1 < h.len() {
        assert(answers(action_of(layers, run(layers, h.take(i + 1)).1), h[i + 1]));
    }
    assert(h.take(h.len() as int) =~= h);
}

} // verus!
