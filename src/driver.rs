//! Carrying out an allocation attempt against a backend.
use vstd::prelude::*;
use crate::attempt::AllocAttempt;
use crate::backend::ShmBackend;
use crate::layout::AllocLayout;
use crate::policy::{
    action_of, answers, escalate, run, restart_inside, state_wf, step, step_limit, Action, AllocResult, Event, FatalError,
    Phase, PolicyLayer, ShmBuf,
};

verus! {

/// Holds when `b` lies in the arena, starts on the layout's alignment and holds its size.
pub open spec fn serves(layout: AllocLayout, b: ShmBuf) -> bool {
    &&& b.size >= layout.spec_size()
    &&& b.offset + b.size <= layout.spec_capacity()
    &&& (b.offset as int) % (layout.spec_alignment() as int) == 0
}

/// A backend's answer as the policy sees it: a region that does not serve the layout
/// is a fatal error, never a success.
pub open spec fn checked(layout: AllocLayout, r: AllocResult) -> AllocResult {
    match r {
        AllocResult::Granted(b) => if serves(layout, b) {
            r
        } else {
            AllocResult::Fatal(FatalError::MisplacedChunk)
        },
        _ => r,
    }
}

/// Checks a backend's answer against the layout.
pub fn check_chunk(layout: &AllocLayout, r: AllocResult) -> (c: AllocResult)
    requires
        layout.wf(),
    ensures
        c == checked(*layout, r),
{
    match r {
        AllocResult::Granted(b) => {
            let cap = layout.capacity();
            let align = layout.alignment();
            proof {
                crate::layout::lemma_power_of_two_positive(align as nat);
            }
            if b.size >= layout.size() && b.size <= cap && b.offset <= cap - b.size && b.offset
                % align == 0 {
                r
            } else {
                AllocResult::Fatal(FatalError::MisplacedChunk)
            }
        },
        _ => r,
    }
}

/// Holds when each event of `h` from index `start` on answers the action that was
/// pending before it, and each region granted there serves `layout`.
pub open spec fn faithful_from(
    layers: Seq<PolicyLayer>,
    layout: AllocLayout,
    h: Seq<Event>,
    start: int,
) -> bool {
    forall|i: int|
        start <= i < h.len() ==> {
            &&& answers(action_of(layers, run(layers, #[trigger] h.take(i)).1), h[i])
            &&& (h[i] matches Event::Allocated(AllocResult::Granted(b)) ==> serves(layout, b))
        }
}

/// How many allocation calls one run of the innermost `i` layers may make at most.
pub open spec fn weight(layers: Seq<PolicyLayer>, i: nat) -> nat
    decreases i,
{
    if i == 0 || i > layers.len() {
        1
    } else {
        weight(layers, (i - 1) as nat) * (1 + step_limit(layers[i - 1]))
    }
}

/// The reclamation steps left to the layers from `k` outwards, each weighted by the
/// allocation calls it may bring about.
pub open spec fn slack(layers: Seq<PolicyLayer>, counters: Seq<u64>, k: nat) -> nat
    decreases layers.len() - k,
{
    if k >= layers.len() {
        0
    } else {
        (step_limit(layers[k as int]) - counters[k as int]) as nat * weight(layers, k) + slack(
            layers,
            counters,
            k + 1,
        )
    }
}

/// A bound on what is left of an attempt until it ends or waits.
pub open spec fn remaining(layers: Seq<PolicyLayer>, counters: Seq<u64>, phase: Phase) -> nat {
    match phase {
        Phase::Allocating => 2 * (1 + slack(layers, counters, 0)),
        Phase::Reclaiming(k) => 2 * (weight(layers, k as nat) + slack(layers, counters, k as nat))
            + 1,
        Phase::Finished(_) => 0,
    }
}

proof fn lemma_weight_positive(layers: Seq<PolicyLayer>, i: nat)
    ensures
        weight(layers, i) >= 1,
    decreases i,
{
    if i > 0 && i <= layers.len() {
        lemma_weight_positive(layers, (i - 1) as nat);
        let w = weight(layers, (i - 1) as nat);
        let f = 1 + step_limit(layers[i - 1]);
        assert(w * f >= 1) by (nonlinear_arith)
            requires
                w >= 1,
                f >= 1,
        ;
    }
}

proof fn lemma_slack_suffix(layers: Seq<PolicyLayer>, c1: Seq<u64>, c2: Seq<u64>, k: nat)
    requires
        forall|i: int| k <= i < layers.len() ==> c1[i] == c2[i],
    ensures
        slack(layers, c1, k) == slack(layers, c2, k),
    decreases layers.len() - k,
{
    if k < layers.len() {
        lemma_slack_suffix(layers, c1, c2, k + 1);
    }
}

proof fn lemma_slack_monotone(layers: Seq<PolicyLayer>, c: Seq<u64>, k: nat, j: nat)
    requires
        k <= j,
    ensures
        slack(layers, c, j) <= slack(layers, c, k),
    decreases j - k,
{
    if k < j && k < layers.len() {
        lemma_slack_monotone(layers, c, k + 1, j);
    }
}

/// Taking one step at layer `j` uses up that layer's weight of slack.
proof fn lemma_slack_take(layers: Seq<PolicyLayer>, c: Seq<u64>, j: nat, k: nat)
    requires
        state_wf(layers, c, Phase::Allocating),
        k <= j < layers.len(),
        c[j as int] < step_limit(layers[j as int]),
    ensures
        slack(layers, c.update(j as int, (c[j as int] + 1) as u64), k) + weight(layers, j) == slack(
            layers,
            c,
            k,
        ),
    decreases j - k,
{
    let c2 = c.update(j as int, (c[j as int] + 1) as u64);
    if k < j {
        lemma_slack_take(layers, c, j, k + 1);
        assert(c2[k as int] == c[k as int]);
    } else {
        lemma_slack_suffix(layers, c, c2, j + 1);
        let w = weight(layers, j);
        let a = (step_limit(layers[j as int]) - c[j as int]) as nat;
        assert(a * w == (a - 1) * w + w) by (nonlinear_arith)
            requires
                a >= 1,
        ;
    }
}

/// Escalation from layer `k` to a non-blocking layer leaves less to do.
proof fn lemma_escalate_remaining(layers: Seq<PolicyLayer>, c: Seq<u64>, k: nat)
    requires
        state_wf(layers, c, Phase::Allocating),
    ensures
        ({
            let (c2, p2) = escalate(layers, c, k);
            p2 is Reclaiming && !(layers[p2->Reclaiming_0 as int] is BlockOn) ==> remaining(
                layers,
                c2,
                p2,
            ) <= 2 * slack(layers, c, k) + 1
        }),
    decreases layers.len() - k,
{
    if k < layers.len() {
        match layers[k as int] {
            PolicyLayer::BlockOn => {},
            layer => {
                if c[k as int] < step_limit(layer) {
                    lemma_slack_take(layers, c, k, k);
                } else {
                    lemma_escalate_remaining(layers, c, k + 1);
                    lemma_slack_monotone(layers, c, k, k + 1);
                }
            },
        }
    }
}

/// Restarting the layers inside `k` refills their slack to one less than `k`'s weight.
proof fn lemma_restart_slack(layers: Seq<PolicyLayer>, c: Seq<u64>, k: nat, j: nat)
    requires
        state_wf(layers, c, Phase::Allocating),
        j <= k < layers.len(),
    ensures
        slack(layers, restart_inside(c, k), j) + weight(layers, j) == weight(layers, k) + slack(
            layers,
            c,
            k,
        ),
    decreases k - j,
{
    let c2 = restart_inside(c, k);
    if j == k {
        lemma_slack_suffix(layers, c, c2, k);
    } else {
        lemma_restart_slack(layers, c, k, j + 1);
        let w = weight(layers, j);
        let l = step_limit(layers[j as int]);
        assert(c2[j as int] == 0);
        assert(weight(layers, j + 1) == w * (1 + l));
        assert(w * (1 + l) == w + l * w) by (nonlinear_arith);
    }
}

/// Escalation ends on a layer at or past `k`, or with `NeedRetry`.
proof fn lemma_escalate_shape(layers: Seq<PolicyLayer>, c: Seq<u64>, k: nat)
    ensures
        !(escalate(layers, c, k).1 is Allocating),
        escalate(layers, c, k).1 is Finished ==> escalate(layers, c, k).1 == Phase::Finished(
            AllocResult::NeedRetry,
        ),
    decreases layers.len() - k,
{
    if k < layers.len() {
        lemma_escalate_shape(layers, c, k + 1);
    }
}

/// A step that grants a region is the report of an allocation call that granted it.
proof fn lemma_granted_step(layers: Seq<PolicyLayer>, c: Seq<u64>, p: Phase, e: Event, b: ShmBuf)
    requires
        !(p is Finished),
        step(layers, c, p, e).1 == Phase::Finished(AllocResult::Granted(b)),
    ensures
        e == Event::Allocated(AllocResult::Granted(b)),
{
    lemma_escalate_shape(layers, c, 0);
    if let Phase::Reclaiming(k) = p {
        lemma_escalate_shape(layers, c, k as nat + 1);
    }
}

/// Every step that the driver takes without waiting leaves less to do.
proof fn lemma_step_decreases(layers: Seq<PolicyLayer>, c: Seq<u64>, p: Phase, e: Event)
    requires
        state_wf(layers, c, p),
        !(p is Finished),
        p is Reclaiming ==> !(layers[p->Reclaiming_0 as int] is BlockOn),
        answers(action_of(layers, p), e),
        !(step(layers, c, p, e).1 is Finished),
        !(action_of(layers, step(layers, c, p, e).1) is AwaitCapacity),
    ensures
        remaining(layers, step(layers, c, p, e).0, step(layers, c, p, e).1) < remaining(
            layers,
            c,
            p,
        ),
{
    crate::attempt::lemma_step_wf(layers, c, p, e);
    match p {
        Phase::Allocating => {
            lemma_escalate_remaining(layers, c, 0);
            assert(e == Event::Allocated(AllocResult::NeedRetry));
            lemma_escalate_shape(layers, c, 0);
        },
        Phase::Reclaiming(k) => {
            lemma_weight_positive(layers, k as nat);
            lemma_escalate_remaining(layers, c, k as nat + 1);
            lemma_escalate_shape(layers, c, k as nat + 1);
            lemma_slack_monotone(layers, c, k as nat, k as nat + 1);
            lemma_restart_slack(layers, c, k as nat, 0);
            assert(weight(layers, 0) == 1);
        },
        _ => {},
    }
}

/// Carries out the attempt's actions against `backend` until the attempt is over or
/// waits for the backend's capacity to change. Every region reported as granted has
/// been checked to serve `layout`.
pub fn drive<B: ShmBackend>(attempt: &mut AllocAttempt, layout: &AllocLayout, backend: &mut B) -> (r:
    Action)
    requires
        old(attempt).wf(),
        layout.wf(),
    ensures
        final(attempt).wf(),
        final(attempt).layers() == old(attempt).layers(),
        old(attempt).history().is_prefix_of(final(attempt).history()),
        r == final(attempt).pending(),
        r is Done || r is AwaitCapacity,
        old(attempt).pending() is Done || old(attempt).pending() is AwaitCapacity
            ==> final(attempt).history() == old(attempt).history(),
        !(old(attempt).pending() is Done) ==> (r matches Action::Done(AllocResult::Granted(b))
            ==> serves(*layout, b)),
        faithful_from(
            old(attempt).layers(),
            *layout,
            final(attempt).history(),
            old(attempt).history().len() as int,
        ),
{
    let mut action = attempt.pending_action();
    let ghost h0 = attempt.history();
    if let Action::Done(_) = action {
        return action;
    }
    if let Action::AwaitCapacity = action {
        return action;
    }
    loop
        invariant
            attempt.wf(),
            layout.wf(),
            attempt.layers() == old(attempt).layers(),
            h0 == old(attempt).history(),
            h0.is_prefix_of(attempt.history()),
            action == attempt.pending(),
            !(old(attempt).pending() is Done),
            !(old(attempt).pending() is AwaitCapacity),
            action matches Action::Done(AllocResult::Granted(b)) ==> serves(*layout, b),
            faithful_from(attempt.layers(), *layout, attempt.history(), h0.len() as int),
        decreases remaining(attempt.layers(), attempt.counters(), attempt.phase()),
    {
        let ghost before = (attempt.counters(), attempt.phase());
        let event = match action {
            Action::Done(_) => {
                return action;
            },
            Action::AwaitCapacity => {
                return action;
            },
            Action::Allocate => {
                let answer = backend.allocate(layout);
                Event::Allocated(check_chunk(layout, answer))
            },
            Action::GarbageCollect => {
                backend.garbage_collect();
                Event::Collected
            },
            Action::Defragment => {
                backend.defragment();
                Event::Defragmented
            },
            Action::DeallocateOldest => {
                let freed = backend.deallocate_oldest();
                Event::Deallocated(freed)
            },
        };
        let ghost h1 = attempt.history();
        let ghost prev_action = action;
        action = attempt.resume(event);
        proof {
            let layers = attempt.layers();
            let h2 = attempt.history();
            assert(h2 == h1.push(event));
            assert(h1.take(h1.len() as int) =~= h1);
            assert(h2.take(h1.len() as int) =~= h1);
            assert(answers(prev_action, event));
            assert forall|i: int| h0.len() <= i < h2.len() implies {
                &&& answers(action_of(layers, run(layers, #[trigger] h2.take(i)).1), h2[i])
                &&& (h2[i] matches Event::Allocated(AllocResult::Granted(b)) ==> serves(*layout, b))
            } by {
                if i < h1.len() {
                    assert(h2.take(i) =~= h1.take(i));
                    assert(h2[i] == h1[i]);
                }
            }
            assert(h0.is_prefix_of(attempt.history())) by {
                assert(attempt.history() == h1.push(event));
                assert(attempt.history().subrange(0, h0.len() as int) =~= h0) by {
                    assert(h1.subrange(0, h0.len() as int) =~= h0);
                }
            }
            let layers = attempt.layers();
            if !(action is Done) && !(action is AwaitCapacity) {
                lemma_step_decreases(layers, before.0, before.1, event);
            }
            if let Action::Done(AllocResult::Granted(b)) = action {
                lemma_granted_step(layers, before.0, before.1, event, b);
            }
        }
        match action {
            Action::Done(_) => {
                return action;
            },
            Action::AwaitCapacity => {
                return action;
            },
            _ => {},
        }
    }
}

} // verus!
