//! Allocation layouts held by their owner, and allocation under the usual policies.
use vstd::prelude::*;
use crate::attempt::AllocAttempt;
use crate::backend::ShmBackend;
use crate::driver::{drive, faithful_from, serves};
use crate::layout::{is_power_of_two, AllocLayout, LayoutError};
use crate::policy::{run, Action, AllocPolicy, AllocResult, Event, Phase, PolicyLayer};

verus! {

/// How many of the oldest allocations the deallocating policy may evict.
pub const DEALLOCATE_LIMIT: u64 = 100;

/// An owned slot for a layout: either a layout or the empty (gravestone) state.
#[allow(non_camel_case_types)]
#[derive(Debug)]
pub struct z_owned_alloc_layout_t {
    layout: Option<AllocLayout>,
}

impl View for z_owned_alloc_layout_t {
    type V = Option<AllocLayout>;

    closed spec fn view(&self) -> Option<AllocLayout> {
        self.layout
    }
}

/// Holds when some sequence of backend answers, each answering the action asked for and
/// each granted region serving `layout`, leads `layers` to end with `r`.
pub open spec fn may_end_with(layers: Seq<PolicyLayer>, layout: AllocLayout, r: AllocResult) -> bool {
    exists|h: Seq<Event>| run(layers, h).1 == Phase::Finished(r) && faithful_from(layers, layout, h, 0)
}

/// The layers of `GarbageCollect<JustAlloc>`.
pub open spec fn gc_layers() -> Seq<PolicyLayer> {
    seq![PolicyLayer::GarbageCollect]
}

/// The layers of `Defragment<GarbageCollect<JustAlloc>>`.
pub open spec fn gc_defrag_layers() -> Seq<PolicyLayer> {
    seq![PolicyLayer::GarbageCollect, PolicyLayer::Defragment]
}

/// The layers of `Deallocate<DEALLOCATE_LIMIT, Defragment<GarbageCollect<JustAlloc>>>`.
pub open spec fn gc_defrag_dealloc_layers() -> Seq<PolicyLayer> {
    seq![
        PolicyLayer::GarbageCollect,
        PolicyLayer::Defragment,
        PolicyLayer::Deallocate(DEALLOCATE_LIMIT),
    ]
}

/// Builds a layout for `size` bytes aligned to `alignment` on `provider`'s arena.
/// On failure `this` is left empty.
pub fn z_alloc_layout_new<B: ShmBackend>(
    this: &mut z_owned_alloc_layout_t,
    provider: &B,
    size: usize,
    alignment: usize,
) -> (r: Result<(), LayoutError>)
    ensures
        !is_power_of_two(alignment as nat) <==> r == Err::<(), LayoutError>(
            LayoutError::InvalidArgument,
        ),
        r is Ok <==> final(this)@ is Some,
        final(this)@ matches Some(l) ==> l.wf() && l.spec_size() == size && l.spec_alignment()
            == alignment,
        r == Err::<(), LayoutError>(LayoutError::LayoutInfeasible) ==> is_power_of_two(
            alignment as nat,
        ),
{
    let capacity = provider.capacity();
    match AllocLayout::construct(capacity, size, alignment) {
        Ok(l) => {
            this.layout = Some(l);
            Ok(())
        },
        Err(e) => {
            this.layout = None;
            Err(e)
        },
    }
}

/// A slot in the empty state.
pub fn z_alloc_layout_null() -> (r: z_owned_alloc_layout_t)
    ensures
        r@ is None,
{
    z_owned_alloc_layout_t { layout: None }
}

/// Returns whether `this` holds a layout.
pub fn z_alloc_layout_check(this: &z_owned_alloc_layout_t) -> (r: bool)
    ensures
        r == this@ is Some,
{
    this.layout.is_some()
}

/// Borrows the layout that `this` holds.
pub fn z_alloc_layout_loan(this: &z_owned_alloc_layout_t) -> (r: &AllocLayout)
    requires
        this@ is Some,
    ensures
        *r == this@->Some_0,
{
    this.layout.as_ref().unwrap()
}

/// Empties `this`; the backend and its allocations are untouched.
pub fn z_alloc_layout_drop(this: &mut z_owned_alloc_layout_t)
    ensures
        final(this)@ is None,
{
    this.layout = None;
}

/// Runs `policy` to its end against `backend`.
fn alloc_under<B: ShmBackend>(layout: &AllocLayout, policy: AllocPolicy, backend: &mut B) -> (r:
    AllocResult)
    requires
        layout.wf(),
        forall|i: int| 0 <= i < policy@.len() ==> !(#[trigger] policy@[i] is BlockOn),
    ensures
        may_end_with(policy@, *layout, r),
        r matches AllocResult::Granted(b) ==> serves(*layout, b),
{
    let ghost layers = policy@;
    let mut attempt = AllocAttempt::new(policy);
    let action = drive(&mut attempt, layout, backend);
    match action {
        Action::Done(r) => {
            assert(run(layers, attempt.history()).1 == Phase::Finished(r));
            assert(faithful_from(layers, *layout, attempt.history(), 0));
            r
        },
        _ => {
            proof {
                assert(false);
            }
            AllocResult::NeedRetry
        },
    }
}

/// One allocation call, with no reclamation.
pub fn z_alloc_layout_alloc<B: ShmBackend>(layout: &AllocLayout, provider: &mut B) -> (r:
    AllocResult)
    requires
        layout.wf(),
    ensures
        may_end_with(Seq::<PolicyLayer>::empty(), *layout, r),
        r matches AllocResult::Granted(b) ==> serves(*layout, b),
{
    alloc_under(layout, AllocPolicy::just_alloc(), provider)
}

/// Allocation that collects garbage once on a transient failure.
pub fn z_alloc_layout_alloc_gc<B: ShmBackend>(layout: &AllocLayout, provider: &mut B) -> (r:
    AllocResult)
    requires
        layout.wf(),
    ensures
        may_end_with(gc_layers(), *layout, r),
        r matches AllocResult::Granted(b) ==> serves(*layout, b),
{
    let policy = AllocPolicy::garbage_collect(AllocPolicy::just_alloc());
    assert(policy@ =~= gc_layers());
    alloc_under(layout, policy, provider)
}

/// Allocation that collects garbage, then defragments, on transient failures.
pub fn z_alloc_layout_alloc_gc_defrag<B: ShmBackend>(layout: &AllocLayout, provider: &mut B) -> (r:
    AllocResult)
    requires
        layout.wf(),
    ensures
        may_end_with(gc_defrag_layers(), *layout, r),
        r matches AllocResult::Granted(b) ==> serves(*layout, b),
{
    let policy = AllocPolicy::defragment(AllocPolicy::garbage_collect(AllocPolicy::just_alloc()));
    assert(policy@ =~= gc_defrag_layers());
    alloc_under(layout, policy, provider)
}

/// Allocation that collects garbage, defragments, and then evicts up to
/// `DEALLOCATE_LIMIT` of the oldest allocations, on transient failures.
pub fn z_alloc_layout_alloc_gc_defrag_dealloc<B: ShmBackend>(
    layout: &AllocLayout,
    provider: &mut B,
) -> (r: AllocResult)
    requires
        layout.wf(),
    ensures
        may_end_with(gc_defrag_dealloc_layers(), *layout, r),
        r matches AllocResult::Granted(b) ==> serves(*layout, b),
{
    let policy = AllocPolicy::deallocate(
        DEALLOCATE_LIMIT,
        AllocPolicy::defragment(AllocPolicy::garbage_collect(AllocPolicy::just_alloc())),
    );
    assert(policy@ =~= gc_defrag_dealloc_layers());
    alloc_under(layout, policy, provider)
}

} // verus!
