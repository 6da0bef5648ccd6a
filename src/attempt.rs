//! One allocation attempt under a policy, carried out one action at a time.
use vstd::prelude::*;
use crate::policy::{
    action_of, escalate, initial, restart_inside, run, state_wf, step, step_limit, Action,
    AllocPolicy, AllocResult, Event, Phase, PolicyLayer,
};

verus! {

/// The state of an allocation attempt: the policy's layers, how many reclamation steps
/// each layer has taken in its current run, the phase, and every event received so far.
pub struct AllocAttempt {
    layers: Vec<PolicyLayer>,
    counters: Vec<u64>,
    phase: Phase,
    history: Ghost<Seq<Event>>,
}

/// Running one more event is one more step.
pub proof fn lemma_run_push(layers: Seq<PolicyLayer>, events: Seq<Event>, e: Event)
    ensures
        run(layers, events.push(e)) == step(layers, run(layers, events).0, run(layers, events).1, e),
{
    assert(events.push(e).drop_last() =~= events);
}

/// Escalation keeps the state well formed.
pub proof fn lemma_escalate_wf(layers: Seq<PolicyLayer>, counters: Seq<u64>, k: nat)
    requires
        state_wf(layers, counters, Phase::Allocating),
    ensures
        state_wf(layers, escalate(layers, counters, k).0, escalate(layers, counters, k).1),
    decreases layers.len() - k,
{
    if k < layers.len() {
        match layers[k as int] {
            PolicyLayer::BlockOn => {},
            layer => {
                if counters[k as int] < step_limit(layer) {
                    let c2 = counters.update(k as int, (counters[k as int] + 1) as u64);
                    assert forall|i: int| 0 <= i < layers.len() implies #[trigger] c2[i] <= step_limit(
                        layers[i],
                    ) by {
                        if i != k {
                            assert(c2[i] == counters[i]);
                        }
                    }
                } else {
                    lemma_escalate_wf(layers, counters, k + 1);
                }
            },
        }
    }
}

/// Every step keeps the state well formed.
pub proof fn lemma_step_wf(layers: Seq<PolicyLayer>, counters: Seq<u64>, phase: Phase, e: Event)
    requires
        state_wf(layers, counters, phase),
    ensures
        state_wf(layers, step(layers, counters, phase, e).0, step(layers, counters, phase, e).1),
{
    lemma_escalate_wf(layers, counters, 0);
    match phase {
        Phase::Reclaiming(k) => {
            lemma_escalate_wf(layers, counters, k as nat + 1);
            let c2 = restart_inside(counters, k as nat);
            assert forall|i: int| 0 <= i < layers.len() implies #[trigger] c2[i] <= step_limit(
                layers[i],
            ) by {
                if i >= k {
                    assert(c2[i] == counters[i]);
                }
            }
        },
        _ => {},
    }
}

fn escalate_from(layers: &Vec<PolicyLayer>, counters: &mut Vec<u64>, k: usize) -> (phase: Phase)
    requires
        state_wf(layers@, old(counters)@, Phase::Allocating),
        k <= layers@.len(),
    ensures
        (final(counters)@, phase) == escalate(layers@, old(counters)@, k as nat),
{
    let mut i: usize = k;
    while i < layers.len()
        invariant
            k <= i <= layers@.len(),
            state_wf(layers@, counters@, Phase::Allocating),
            counters@ == old(counters)@,
            escalate(layers@, counters@, k as nat) == escalate(layers@, counters@, i as nat),
        decreases layers@.len() - i,
    {
        let layer = layers[i];
        let limit: u64 = match layer {
            PolicyLayer::BlockOn => {
                return Phase::Reclaiming(i);
            },
            PolicyLayer::GarbageCollect => 1,
            PolicyLayer::Defragment => 1,
            PolicyLayer::Deallocate(n) => n,
        };
        let c = counters[i];
        if c < limit {
            counters.set(i, c + 1);
            return Phase::Reclaiming(i);
        }
        i = i + 1;
    }
    Phase::Finished(AllocResult::NeedRetry)
}

fn restart_from(counters: &mut Vec<u64>, k: usize)
    requires
        k <= old(counters)@.len(),
    ensures
        final(counters)@ == restart_inside(old(counters)@, k as nat),
{
    let ghost orig = counters@;
    let mut i: usize = 0;
    while i < k
        invariant
            i <= k,
            k <= orig.len(),
            counters@.len() == orig.len(),
            orig == old(counters)@,
            forall|j: int| 0 <= j < i ==> #[trigger] counters@[j] == 0,
            forall|j: int| i <= j < orig.len() ==> #[trigger] counters@[j] == orig[j],
        decreases k - i,
    {
        counters.set(i, 0);
        i = i + 1;
    }
    assert(counters@ =~= restart_inside(orig, k as nat));
}

impl AllocAttempt {
    pub closed spec fn layers(&self) -> Seq<PolicyLayer> {
        self.layers@
    }

    pub closed spec fn counters(&self) -> Seq<u64> {
        self.counters@
    }

    pub closed spec fn phase(&self) -> Phase {
        self.phase
    }

    /// The events received since the attempt began, in order.
    pub closed spec fn history(&self) -> Seq<Event> {
        self.history@
    }

    /// The action that the attempt waits on.
    pub open spec fn pending(&self) -> Action {
        action_of(self.layers(), self.phase())
    }

    /// The state is the one that its history leads to.
    pub open spec fn wf(&self) -> bool {
        &&& state_wf(self.layers(), self.counters(), self.phase())
        &&& (self.counters(), self.phase()) == run(self.layers(), self.history())
    }

    /// Starts an attempt under `policy`; its first action is an allocation call.
    pub fn new(policy: AllocPolicy) -> (r: AllocAttempt)
        ensures
            r.wf(),
            r.layers() == policy@,
            r.history() == Seq::<Event>::empty(),
            r.pending() == Action::Allocate,
    {
        let layers = policy.into_layers();
        let mut counters: Vec<u64> = Vec::new();
        let mut i: usize = 0;
        while i < layers.len()
            invariant
                i <= layers@.len(),
                counters@.len() == i,
                forall|j: int| 0 <= j < i ==> #[trigger] counters@[j] == 0,
            decreases layers@.len() - i,
        {
            counters.push(0);
            i = i + 1;
        }
        assert(counters@ =~= initial(layers@).0);
        assert(layers@.len() <= usize::MAX) by {
            let _n = layers.len();
        }
        AllocAttempt { layers, counters, phase: Phase::Allocating, history: Ghost(Seq::empty()) }
    }

    /// The action that the attempt waits on.
    pub fn pending_action(&self) -> (r: Action)
        requires
            self.wf(),
        ensures
            r == self.pending(),
    {
        match self.phase {
            Phase::Allocating => Action::Allocate,
            Phase::Reclaiming(k) => match self.layers[k] {
                PolicyLayer::GarbageCollect => Action::GarbageCollect,
                PolicyLayer::Defragment => Action::Defragment,
                PolicyLayer::Deallocate(_) => Action::DeallocateOldest,
                PolicyLayer::BlockOn => Action::AwaitCapacity,
            },
            Phase::Finished(r) => Action::Done(r),
        }
    }

    /// The result, once the attempt is over.
    pub fn outcome(&self) -> (r: Option<AllocResult>)
        requires
            self.wf(),
        ensures
            r == (match self.pending() {
                Action::Done(res) => Some(res),
                _ => None::<AllocResult>,
            }),
    {
        match self.phase {
            Phase::Finished(r) => Some(r),
            _ => None,
        }
    }

    /// Reports the outcome of the pending action and returns the next one.
    /// An event that does not answer the pending action is recorded and changes nothing.
    pub fn resume(&mut self, e: Event) -> (r: Action)
        requires
            old(self).wf(),
        ensures
            final(self).wf(),
            final(self).layers() == old(self).layers(),
            final(self).history() == old(self).history().push(e),
            (final(self).counters(), final(self).phase()) == step(
                old(self).layers(),
                old(self).counters(),
                old(self).phase(),
                e,
            ),
            r == final(self).pending(),
    {
        proof {
            lemma_run_push(self.layers@, self.history@, e);
            lemma_step_wf(self.layers@, self.counters@, self.phase, e);
        }
        let pending = self.pending_action();
        let answered = match (pending, e) {
            (Action::Allocate, Event::Allocated(_)) => true,
            (Action::GarbageCollect, Event::Collected) => true,
            (Action::Defragment, Event::Defragmented) => true,
            (Action::DeallocateOldest, Event::Deallocated(_)) => true,
            (Action::AwaitCapacity, Event::CapacityChanged) => true,
            _ => false,
        };
        if answered {
            match self.phase {
                Phase::Allocating => match e {
                    Event::Allocated(AllocResult::NeedRetry) => {
                        self.phase = escalate_from(&self.layers, &mut self.counters, 0);
                    },
                    Event::Allocated(r) => {
                        self.phase = Phase::Finished(r);
                    },
                    _ => {},
                },
                Phase::Reclaiming(k) => match e {
                    Event::Deallocated(false) => {
                        let n = self.layers.len();
                        assert(k < n);
                        self.phase = escalate_from(&self.layers, &mut self.counters, k + 1);
                    },
                    _ => {
                        restart_from(&mut self.counters, k);
                        self.phase = Phase::Allocating;
                    },
                },
                Phase::Finished(_) => {},
            }
        }
        self.history = Ghost(self.history@.push(e));
        self.pending_action()
    }
}

} // verus!
