//! Allocation policies and the state machine that carries out one allocation attempt.
//!
//! A policy is a stack of reclamation layers around a single allocation call. Layer 0 is
//! the innermost wrapper; the last layer is the outermost. When the backend answers
//! `NeedRetry`, the innermost layer that still has a reclamation step left performs it,
//! and then the policy made of the layers inside it is run again from its start.
use vstd::prelude::*;

verus! {

/// A region of the arena handed to the caller.
#[derive(Clone, Copy, Debug, PartialEq, Eq, Structural)]
pub struct ShmBuf {
    pub offset: usize,
    pub size: usize,
}

/// A failure that no reclamation can mend.
#[derive(Clone, Copy, Debug, PartialEq, Eq, Structural)]
pub enum FatalError {
    /// The backend reports that its arena is corrupted.
    Corrupted,
    /// The backend reports another unrecoverable condition, with its own code.
    Unrecoverable(u32),
    /// The backend handed out a region that does not serve the layout.
    MisplacedChunk,
}

/// The outcome of one allocation call, or of a whole policy.
#[derive(Clone, Copy, Debug, PartialEq, Eq, Structural)]
pub enum AllocResult {
    /// Success: the region now belongs to the caller.
    Granted(ShmBuf),
    /// Transient failure: reclaiming memory may help.
    NeedRetry,
    Fatal(FatalError),
}

/// One reclamation layer of a policy.
#[derive(Clone, Copy, Debug, PartialEq, Eq, Structural)]
pub enum PolicyLayer {
    /// On `NeedRetry`, collect garbage once and run the inner policy once more.
    GarbageCollect,
    /// On `NeedRetry`, defragment once and run the inner policy once more.
    Defragment,
    /// On `NeedRetry`, evict the oldest allocation and run the inner policy again,
    /// at most this many times.
    Deallocate(u64),
    /// On `NeedRetry`, wait until the backend's free capacity changes, then run the
    /// inner policy again, without bound.
    BlockOn,
}

/// How many reclamation steps a layer may take within one run of its outer layers.
/// A blocking layer counts none: its waits are not bounded.
pub open spec fn step_limit(layer: PolicyLayer) -> nat {
    match layer {
        PolicyLayer::GarbageCollect => 1,
        PolicyLayer::Defragment => 1,
        PolicyLayer::Deallocate(n) => n as nat,
        PolicyLayer::BlockOn => 0,
    }
}

/// What the attempt asks its driver to do next.
#[derive(Clone, Copy, Debug, PartialEq, Eq, Structural)]
pub enum Action {
    Allocate,
    GarbageCollect,
    Defragment,
    DeallocateOldest,
    AwaitCapacity,
    Done(AllocResult),
}

/// What the driver reports back after carrying out an action.
#[derive(Clone, Copy, Debug, PartialEq, Eq, Structural)]
pub enum Event {
    Allocated(AllocResult),
    Collected,
    Defragmented,
    /// Whether an allocation was evicted.
    Deallocated(bool),
    CapacityChanged,
}

/// Where an attempt stands.
#[derive(Clone, Copy, Debug, PartialEq, Eq, Structural)]
pub enum Phase {
    /// Waiting for the answer of an allocation call.
    Allocating,
    /// Waiting for the reclamation step of the given layer.
    Reclaiming(usize),
    /// Over, with this result.
    Finished(AllocResult),
}

/// The action that a layer's reclamation step asks for.
pub open spec fn reclaim_action(layer: PolicyLayer) -> Action {
    match layer {
        PolicyLayer::GarbageCollect => Action::GarbageCollect,
        PolicyLayer::Defragment => Action::Defragment,
        PolicyLayer::Deallocate(_) => Action::DeallocateOldest,
        PolicyLayer::BlockOn => Action::AwaitCapacity,
    }
}

/// The action pending in a phase.
pub open spec fn action_of(layers: Seq<PolicyLayer>, phase: Phase) -> Action {
    match phase {
        Phase::Allocating => Action::Allocate,
        Phase::Reclaiming(k) => if k < layers.len() {
            reclaim_action(layers[k as int])
        } else {
            Action::Done(AllocResult::NeedRetry)
        },
        Phase::Finished(r) => Action::Done(r),
    }
}

/// Holds when `e` is the report of having carried out `a`.
pub open spec fn answers(a: Action, e: Event) -> bool {
    match a {
        Action::Allocate => e is Allocated,
        Action::GarbageCollect => e is Collected,
        Action::Defragment => e is Defragmented,
        Action::DeallocateOldest => e is Deallocated,
        Action::AwaitCapacity => e is CapacityChanged,
        Action::Done(_) => false,
    }
}

/// A `NeedRetry` travels outwards from layer `k`: the first layer with a step left
/// takes it; past the outermost layer the attempt ends with `NeedRetry`.
pub open spec fn escalate(layers: Seq<PolicyLayer>, counters: Seq<u64>, k: nat) -> (Seq<u64>, Phase)
    decreases layers.len() - k,
{
    if k >= layers.len() {
        (counters, Phase::Finished(AllocResult::NeedRetry))
    } else {
        match layers[k as int] {
            PolicyLayer::BlockOn => (counters, Phase::Reclaiming(k as usize)),
            layer => if counters[k as int] < step_limit(layer) {
                (counters.update(k as int, (counters[k as int] + 1) as u64), Phase::Reclaiming(k as usize))
            } else {
                escalate(layers, counters, k + 1)
            },
        }
    }
}

/// The counters once the layers inside layer `k` start afresh.
pub open spec fn restart_inside(counters: Seq<u64>, k: nat) -> Seq<u64> {
    Seq::new(counters.len(), |i: int| if i < k { 0u64 } else { counters[i] })
}

/// The state before any event.
pub open spec fn initial(layers: Seq<PolicyLayer>) -> (Seq<u64>, Phase) {
    (Seq::new(layers.len(), |i: int| 0u64), Phase::Allocating)
}

/// One transition. An event that does not answer the pending action changes nothing.
pub open spec fn step(layers: Seq<PolicyLayer>, counters: Seq<u64>, phase: Phase, e: Event) -> (
    Seq<u64>,
    Phase,
) {
    if !answers(action_of(layers, phase), e) {
        (counters, phase)
    } else {
        match phase {
            Phase::Allocating => match e {
                Event::Allocated(AllocResult::NeedRetry) => escalate(layers, counters, 0),
                Event::Allocated(r) => (counters, Phase::Finished(r)),
                _ => (counters, phase),
            },
            Phase::Reclaiming(k) => match e {
                Event::Deallocated(false) => escalate(layers, counters, k as nat + 1),
                _ => (restart_inside(counters, k as nat), Phase::Allocating),
            },
            Phase::Finished(_) => (counters, phase),
        }
    }
}

/// The state reached after the given events.
pub open spec fn run(layers: Seq<PolicyLayer>, events: Seq<Event>) -> (Seq<u64>, Phase)
    decreases events.len(),
{
    if events.len() == 0 {
        initial(layers)
    } else {
        let prev = run(layers, events.drop_last());
        step(layers, prev.0, prev.1, events.last())
    }
}

/// The actions asked for before the first event and after each one.
pub open spec fn actions(layers: Seq<PolicyLayer>, events: Seq<Event>) -> Seq<Action>
    decreases events.len(),
{
    if events.len() == 0 {
        seq![Action::Allocate]
    } else {
        actions(layers, events.drop_last()).push(action_of(layers, run(layers, events).1))
    }
}

/// Counters within their limits, one per layer, and a phase that names a layer.
pub open spec fn state_wf(layers: Seq<PolicyLayer>, counters: Seq<u64>, phase: Phase) -> bool {
    &&& layers.len() <= usize::MAX
    &&& counters.len() == layers.len()
    &&& forall|i: int| 0 <= i < layers.len() ==> #[trigger] counters[i] <= step_limit(layers[i])
    &&& phase is Reclaiming ==> (phase->Reclaiming_0 as int) < layers.len()
}

/// A composition of reclamation layers around a single allocation call.
#[derive(Debug)]
pub struct AllocPolicy {
    layers: Vec<PolicyLayer>,
}

impl View for AllocPolicy {
    type V = Seq<PolicyLayer>;

    closed spec fn view(&self) -> Seq<PolicyLayer> {
        self.layers@
    }
}

impl AllocPolicy {
    /// A single allocation call, with no reclamation.
    pub fn just_alloc() -> (r: AllocPolicy)
        ensures
            r@ == Seq::<PolicyLayer>::empty(),
    {
        AllocPolicy { layers: Vec::new() }
    }

    /// Wraps `self` in one more layer.
    pub fn wrap(self, layer: PolicyLayer) -> (r: AllocPolicy)
        ensures
            r@ == self@.push(layer),
    {
        let mut layers = self.layers;
        layers.push(layer);
        AllocPolicy { layers }
    }

    /// `GarbageCollect` around `inner`.
    pub fn garbage_collect(inner: AllocPolicy) -> (r: AllocPolicy)
        ensures
            r@ == inner@.push(PolicyLayer::GarbageCollect),
    {
        inner.wrap(PolicyLayer::GarbageCollect)
    }

    /// `Defragment` around `inner`.
    pub fn defragment(inner: AllocPolicy) -> (r: AllocPolicy)
        ensures
            r@ == inner@.push(PolicyLayer::Defragment),
    {
        inner.wrap(PolicyLayer::Defragment)
    }

    /// `Deallocate` with at most `limit` evictions around `inner`.
    pub fn deallocate(limit: u64, inner: AllocPolicy) -> (r: AllocPolicy)
        ensures
            r@ == inner@.push(PolicyLayer::Deallocate(limit)),
    {
        inner.wrap(PolicyLayer::Deallocate(limit))
    }

    /// `BlockOn` around `inner`.
    pub fn block_on(inner: AllocPolicy) -> (r: AllocPolicy)
        ensures
            r@ == inner@.push(PolicyLayer::BlockOn),
    {
        inner.wrap(PolicyLayer::BlockOn)
    }

    /// The layers, innermost first.
    pub(crate) fn into_layers(self) -> (r: Vec<PolicyLayer>)
        ensures
            r@ == self@,
    {
        self.layers
    }

    /// The number of layers.
    pub fn depth(&self) -> (r: usize)
        ensures
            r == self@.len(),
    {
        self.layers.len()
    }
}

} // verus!
