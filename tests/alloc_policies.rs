use zenohc::alloc_layout::{
    z_alloc_layout_alloc, z_alloc_layout_alloc_gc, z_alloc_layout_alloc_gc_defrag,
    z_alloc_layout_alloc_gc_defrag_dealloc, z_alloc_layout_check, z_alloc_layout_drop,
    z_alloc_layout_loan, z_alloc_layout_new, z_alloc_layout_null, z_owned_alloc_layout_t,
    DEALLOCATE_LIMIT,
};
use zenohc::attempt::AllocAttempt;
use zenohc::backend::ShmBackend;
use zenohc::driver::{check_chunk, drive};
use zenohc::layout::{power_of_two, AllocLayout, LayoutError};
use zenohc::policy::{Action, AllocPolicy, AllocResult, Event, FatalError, PolicyLayer, ShmBuf};

#[derive(Debug, Clone, Copy, PartialEq, Eq)]
enum Call {
    Allocate,
    GarbageCollect,
    Defragment,
    DeallocateOldest,
    AwaitCapacity,
}

/// A backend that grants a region once the reclamation it needs has happened.
struct TestBackend {
    capacity: usize,
    needs_gc: bool,
    needs_defrag: bool,
    evictions_needed: usize,
    waits_needed: usize,
    outstanding: usize,
    fatal_on_call: Option<usize>,
    misplace: bool,
    gc_done: bool,
    defrag_done: bool,
    evicted: usize,
    waited: usize,
    calls: Vec<Call>,
}

impl TestBackend {
    fn new(capacity: usize) -> TestBackend {
        TestBackend {
            capacity,
            needs_gc: false,
            needs_defrag: false,
            evictions_needed: 0,
            waits_needed: 0,
            outstanding: 1000,
            fatal_on_call: None,
            misplace: false,
            gc_done: false,
            defrag_done: false,
            evicted: 0,
            waited: 0,
            calls: Vec::new(),
        }
    }

    fn never_succeeds(capacity: usize) -> TestBackend {
        let mut b = TestBackend::new(capacity);
        b.evictions_needed = usize::MAX;
        b.needs_gc = true;
        b.needs_defrag = true;
        b.waits_needed = usize::MAX;
        b.gc_done = false;
        b
    }

    fn count(&self, c: Call) -> usize {
        self.calls.iter().filter(|x| **x == c).count()
    }

    fn reclaims(&self) -> usize {
        self.calls.iter().filter(|x| **x != Call::Allocate).count()
    }
}

impl ShmBackend for TestBackend {
    fn capacity(&self) -> usize {
        self.capacity
    }

    fn allocate(&mut self, layout: &AllocLayout) -> AllocResult {
        self.calls.push(Call::Allocate);
        let n = self.count(Call::Allocate);
        if self.fatal_on_call == Some(n) {
            return AllocResult::Fatal(FatalError::Corrupted);
        }
        let ready = (!self.needs_gc || self.gc_done)
            && (!self.needs_defrag || self.defrag_done)
            && self.evicted >= self.evictions_needed
            && self.waited >= self.waits_needed;
        if !ready {
            return AllocResult::NeedRetry;
        }
        let offset = if self.misplace { 1 } else { 0 };
        AllocResult::Granted(ShmBuf { offset, size: layout.size() })
    }

    fn deallocate_oldest(&mut self) -> bool {
        self.calls.push(Call::DeallocateOldest);
        if self.outstanding == 0 {
            return false;
        }
        self.outstanding -= 1;
        self.evicted += 1;
        true
    }

    fn defragment(&mut self) {
        self.calls.push(Call::Defragment);
        self.defrag_done = true;
    }

    fn garbage_collect(&mut self) {
        self.calls.push(Call::GarbageCollect);
        self.gc_done = true;
    }

    fn await_capacity_change(&mut self) {
        self.calls.push(Call::AwaitCapacity);
        self.waited += 1;
    }
}

fn layout(size: usize, alignment: usize) -> AllocLayout {
    AllocLayout::construct(4096, size, alignment).unwrap()
}

/// Runs `policy` to its end, waiting on the backend whenever the attempt asks to.
fn run_blocking(policy: AllocPolicy, l: &AllocLayout, b: &mut TestBackend) -> AllocResult {
    let mut attempt = AllocAttempt::new(policy);
    loop {
        match drive(&mut attempt, l, b) {
            Action::Done(r) => return r,
            Action::AwaitCapacity => {
                b.await_capacity_change();
                attempt.resume(Event::CapacityChanged);
            }
            other => panic!("driver stopped on {:?}", other),
        }
    }
}

#[test]
fn power_of_two_values() {
    assert!(power_of_two(1));
    assert!(power_of_two(2));
    assert!(power_of_two(64));
    assert!(power_of_two(1 << 63));
    assert!(!power_of_two(0));
    assert!(!power_of_two(3));
    assert!(!power_of_two(12));
    assert!(!power_of_two(usize::MAX));
}

#[test]
fn valid_layouts_are_built() {
    for &(size, alignment) in &[(0usize, 1usize), (1, 1), (64, 8), (4096, 4096), (100, 2), (4096, 1)] {
        let l = AllocLayout::construct(4096, size, alignment).unwrap();
        assert_eq!(l.size(), size);
        assert_eq!(l.alignment(), alignment);
        assert_eq!(l.capacity(), 4096);
    }
}

#[test]
fn layout_is_reused_across_attempts() {
    let l = layout(128, 16);
    let mut b = TestBackend::new(4096);
    for _ in 0..5 {
        let r = z_alloc_layout_alloc(&l, &mut b);
        assert_eq!(r, AllocResult::Granted(ShmBuf { offset: 0, size: 128 }));
    }
    assert_eq!(l, layout(128, 16));
    assert_eq!(b.count(Call::Allocate), 5);
}

#[test]
fn bad_alignment_is_invalid_argument() {
    for &alignment in &[0usize, 3, 5, 6, 12, 100, usize::MAX] {
        assert_eq!(AllocLayout::construct(4096, 16, alignment), Err(LayoutError::InvalidArgument));
        assert_eq!(AllocLayout::construct(4096, 1 << 20, alignment), Err(LayoutError::InvalidArgument));
    }
}

#[test]
fn oversized_layout_is_infeasible() {
    assert_eq!(AllocLayout::construct(4096, 4097, 8), Err(LayoutError::LayoutInfeasible));
    assert_eq!(AllocLayout::construct(0, 1, 1), Err(LayoutError::LayoutInfeasible));
}

#[test]
fn owned_layout_slot() {
    let b = TestBackend::new(1024);
    let mut slot: z_owned_alloc_layout_t = z_alloc_layout_null();
    assert!(!z_alloc_layout_check(&slot));
    assert_eq!(z_alloc_layout_new(&mut slot, &b, 256, 32), Ok(()));
    assert!(z_alloc_layout_check(&slot));
    let l = z_alloc_layout_loan(&slot);
    assert_eq!(l.size(), 256);
    assert_eq!(l.alignment(), 32);
    assert_eq!(l.capacity(), 1024);
    z_alloc_layout_drop(&mut slot);
    assert!(!z_alloc_layout_check(&slot));
    assert_eq!(z_alloc_layout_new(&mut slot, &b, 256, 24), Err(LayoutError::InvalidArgument));
    assert!(!z_alloc_layout_check(&slot));
    assert_eq!(z_alloc_layout_new(&mut slot, &b, 2048, 32), Err(LayoutError::LayoutInfeasible));
    assert!(!z_alloc_layout_check(&slot));
}

#[test]
fn just_alloc_never_reclaims() {
    let l = layout(64, 8);
    let mut b = TestBackend::never_succeeds(4096);
    assert_eq!(z_alloc_layout_alloc(&l, &mut b), AllocResult::NeedRetry);
    assert_eq!(b.calls, vec![Call::Allocate]);
    assert_eq!(b.reclaims(), 0);
}

#[test]
fn garbage_collect_once_then_success() {
    let l = layout(64, 8);
    let mut b = TestBackend::new(4096);
    b.needs_gc = true;
    let r = z_alloc_layout_alloc_gc(&l, &mut b);
    assert_eq!(r, AllocResult::Granted(ShmBuf { offset: 0, size: 64 }));
    assert_eq!(b.calls, vec![Call::Allocate, Call::GarbageCollect, Call::Allocate]);
}

#[test]
fn garbage_collect_does_not_loop() {
    let l = layout(64, 8);
    let mut b = TestBackend::never_succeeds(4096);
    let r = z_alloc_layout_alloc_gc(&l, &mut b);
    assert_eq!(r, AllocResult::NeedRetry);
    assert_eq!(b.calls, vec![Call::Allocate, Call::GarbageCollect, Call::Allocate]);
}

#[test]
fn gc_defrag_order() {
    let l = layout(64, 8);
    let mut b = TestBackend::new(4096);
    b.needs_defrag = true;
    let r = z_alloc_layout_alloc_gc_defrag(&l, &mut b);
    assert_eq!(r, AllocResult::Granted(ShmBuf { offset: 0, size: 64 }));
    assert_eq!(
        b.calls,
        vec![Call::Allocate, Call::GarbageCollect, Call::Allocate, Call::Defragment, Call::Allocate]
    );
}

#[test]
fn deallocate_three_succeeds_after_two_evictions() {
    let l = layout(64, 8);
    let mut b = TestBackend::new(4096);
    b.evictions_needed = 2;
    let policy = AllocPolicy::deallocate(3, AllocPolicy::just_alloc());
    let r = run_blocking(policy, &l, &mut b);
    assert_eq!(r, AllocResult::Granted(ShmBuf { offset: 0, size: 64 }));
    assert_eq!(b.count(Call::DeallocateOldest), 2);
    assert_eq!(
        b.calls,
        vec![
            Call::Allocate,
            Call::DeallocateOldest,
            Call::Allocate,
            Call::DeallocateOldest,
            Call::Allocate
        ]
    );
}

#[test]
fn deallocate_three_gives_up_after_three() {
    let l = layout(64, 8);
    let mut b = TestBackend::never_succeeds(4096);
    let policy = AllocPolicy::deallocate(3, AllocPolicy::just_alloc());
    let r = run_blocking(policy, &l, &mut b);
    assert_eq!(r, AllocResult::NeedRetry);
    assert_eq!(b.count(Call::DeallocateOldest), 3);
    assert_eq!(b.count(Call::Allocate), 4);
    assert_eq!(b.count(Call::GarbageCollect), 0);
    assert_eq!(b.count(Call::Defragment), 0);
}

#[test]
fn deallocate_three_returns_last_error() {
    let l = layout(64, 8);
    let mut b = TestBackend::never_succeeds(4096);
    b.fatal_on_call = Some(4);
    let policy = AllocPolicy::deallocate(3, AllocPolicy::just_alloc());
    let r = run_blocking(policy, &l, &mut b);
    assert_eq!(r, AllocResult::Fatal(FatalError::Corrupted));
    assert_eq!(b.count(Call::DeallocateOldest), 3);
}

#[test]
fn deallocate_stops_when_nothing_is_left() {
    let l = layout(64, 8);
    let mut b = TestBackend::never_succeeds(4096);
    b.outstanding = 1;
    let policy = AllocPolicy::deallocate(3, AllocPolicy::just_alloc());
    let r = run_blocking(policy, &l, &mut b);
    assert_eq!(r, AllocResult::NeedRetry);
    assert_eq!(
        b.calls,
        vec![Call::Allocate, Call::DeallocateOldest, Call::Allocate, Call::DeallocateOldest]
    );
}

#[test]
fn deallocate_zero_is_just_alloc() {
    let l = layout(64, 8);
    let mut b = TestBackend::never_succeeds(4096);
    let policy = AllocPolicy::deallocate(0, AllocPolicy::just_alloc());
    assert_eq!(run_blocking(policy, &l, &mut b), AllocResult::NeedRetry);
    assert_eq!(b.calls, vec![Call::Allocate]);
}

#[test]
fn block_on_waits_once() {
    let l = layout(64, 8);
    let mut b = TestBackend::new(4096);
    b.waits_needed = 1;
    let mut attempt = AllocAttempt::new(AllocPolicy::block_on(AllocPolicy::just_alloc()));
    assert_eq!(drive(&mut attempt, &l, &mut b), Action::AwaitCapacity);
    assert_eq!(attempt.outcome(), None);
    b.await_capacity_change();
    assert_eq!(attempt.resume(Event::CapacityChanged), Action::Allocate);
    let r = drive(&mut attempt, &l, &mut b);
    assert_eq!(r, Action::Done(AllocResult::Granted(ShmBuf { offset: 0, size: 64 })));
    assert_eq!(attempt.outcome(), Some(AllocResult::Granted(ShmBuf { offset: 0, size: 64 })));
    assert_eq!(b.calls, vec![Call::Allocate, Call::AwaitCapacity, Call::Allocate]);
}

#[test]
fn block_on_gc_defrag_waits_after_reclaiming() {
    let l = layout(64, 8);
    let mut b = TestBackend::new(4096);
    b.waits_needed = 2;
    let policy = AllocPolicy::block_on(AllocPolicy::defragment(AllocPolicy::garbage_collect(
        AllocPolicy::just_alloc(),
    )));
    let r = run_blocking(policy, &l, &mut b);
    assert_eq!(r, AllocResult::Granted(ShmBuf { offset: 0, size: 64 }));
    assert_eq!(b.count(Call::AwaitCapacity), 2);
    assert_eq!(b.count(Call::GarbageCollect), 4);
    assert_eq!(b.count(Call::Defragment), 2);
    assert_eq!(&b.calls[..5], &[
        Call::Allocate,
        Call::GarbageCollect,
        Call::Allocate,
        Call::Defragment,
        Call::Allocate
    ]);
    assert_eq!(b.calls[7], Call::AwaitCapacity);
}

#[test]
fn composed_chain_order() {
    let l = layout(64, 8);
    let mut b = TestBackend::new(4096);
    b.needs_gc = true;
    b.needs_defrag = true;
    b.evictions_needed = 1;
    let r = z_alloc_layout_alloc_gc_defrag_dealloc(&l, &mut b);
    assert_eq!(r, AllocResult::Granted(ShmBuf { offset: 0, size: 64 }));
    let reclaims: Vec<Call> = b.calls.iter().copied().filter(|c| *c != Call::Allocate).collect();
    assert_eq!(
        reclaims,
        vec![Call::GarbageCollect, Call::Defragment, Call::GarbageCollect, Call::DeallocateOldest]
    );
    assert_eq!(b.count(Call::DeallocateOldest), 1);
    assert_eq!(b.count(Call::Allocate), 5);
}

#[test]
fn composed_chain_exhausts_evictions() {
    let l = layout(64, 8);
    let mut b = TestBackend::never_succeeds(4096);
    let r = z_alloc_layout_alloc_gc_defrag_dealloc(&l, &mut b);
    assert_eq!(r, AllocResult::NeedRetry);
    assert_eq!(b.count(Call::DeallocateOldest) as u64, DEALLOCATE_LIMIT);
}

#[test]
fn fatal_short_circuits_every_policy() {
    let l = layout(64, 8);
    let fatal = AllocResult::Fatal(FatalError::Corrupted);
    let mut b = TestBackend::never_succeeds(4096);
    b.fatal_on_call = Some(1);
    assert_eq!(z_alloc_layout_alloc(&l, &mut b), fatal);
    assert_eq!(b.reclaims(), 0);
    let mut b = TestBackend::never_succeeds(4096);
    b.fatal_on_call = Some(1);
    assert_eq!(z_alloc_layout_alloc_gc(&l, &mut b), fatal);
    assert_eq!(b.reclaims(), 0);
    let mut b = TestBackend::never_succeeds(4096);
    b.fatal_on_call = Some(1);
    assert_eq!(z_alloc_layout_alloc_gc_defrag(&l, &mut b), fatal);
    assert_eq!(b.reclaims(), 0);
    let mut b = TestBackend::never_succeeds(4096);
    b.fatal_on_call = Some(1);
    assert_eq!(z_alloc_layout_alloc_gc_defrag_dealloc(&l, &mut b), fatal);
    assert_eq!(b.reclaims(), 0);
    let mut b = TestBackend::never_succeeds(4096);
    b.fatal_on_call = Some(1);
    let policy = AllocPolicy::block_on(AllocPolicy::just_alloc());
    assert_eq!(run_blocking(policy, &l, &mut b), fatal);
    assert_eq!(b.reclaims(), 0);
}

#[test]
fn fatal_in_the_middle_of_a_chain() {
    let l = layout(64, 8);
    let mut b = TestBackend::never_succeeds(4096);
    b.fatal_on_call = Some(3);
    let r = z_alloc_layout_alloc_gc_defrag_dealloc(&l, &mut b);
    assert_eq!(r, AllocResult::Fatal(FatalError::Corrupted));
    assert_eq!(
        b.calls,
        vec![Call::Allocate, Call::GarbageCollect, Call::Allocate, Call::Defragment, Call::Allocate]
    );
}

#[test]
fn misplaced_region_is_fatal() {
    let l = layout(64, 8);
    let mut b = TestBackend::new(4096);
    b.misplace = true;
    assert_eq!(z_alloc_layout_alloc(&l, &mut b), AllocResult::Fatal(FatalError::MisplacedChunk));
    assert_eq!(b.reclaims(), 0);
}

#[test]
fn check_chunk_cases() {
    let l = layout(64, 8);
    let ok = AllocResult::Granted(ShmBuf { offset: 4032, size: 64 });
    assert_eq!(check_chunk(&l, ok), ok);
    let bigger = AllocResult::Granted(ShmBuf { offset: 0, size: 128 });
    assert_eq!(check_chunk(&l, bigger), bigger);
    let bad = AllocResult::Fatal(FatalError::MisplacedChunk);
    assert_eq!(check_chunk(&l, AllocResult::Granted(ShmBuf { offset: 4, size: 64 })), bad);
    assert_eq!(check_chunk(&l, AllocResult::Granted(ShmBuf { offset: 0, size: 63 })), bad);
    assert_eq!(check_chunk(&l, AllocResult::Granted(ShmBuf { offset: 4040, size: 64 })), bad);
    assert_eq!(check_chunk(&l, AllocResult::Granted(ShmBuf { offset: usize::MAX - 7, size: 64 })), bad);
    assert_eq!(check_chunk(&l, AllocResult::NeedRetry), AllocResult::NeedRetry);
    let other = AllocResult::Fatal(FatalError::Unrecoverable(7));
    assert_eq!(check_chunk(&l, other), other);
}

#[test]
fn unrelated_event_changes_nothing() {
    let mut attempt = AllocAttempt::new(AllocPolicy::garbage_collect(AllocPolicy::just_alloc()));
    assert_eq!(attempt.pending_action(), Action::Allocate);
    assert_eq!(attempt.resume(Event::Collected), Action::Allocate);
    assert_eq!(attempt.resume(Event::Allocated(AllocResult::NeedRetry)), Action::GarbageCollect);
    assert_eq!(attempt.resume(Event::Deallocated(true)), Action::GarbageCollect);
    assert_eq!(attempt.resume(Event::Collected), Action::Allocate);
    assert_eq!(attempt.resume(Event::Allocated(AllocResult::NeedRetry)), Action::Done(AllocResult::NeedRetry));
    assert_eq!(attempt.resume(Event::Allocated(AllocResult::NeedRetry)), Action::Done(AllocResult::NeedRetry));
    assert_eq!(attempt.outcome(), Some(AllocResult::NeedRetry));
}

#[test]
fn policy_depth_counts_layers() {
    let p = AllocPolicy::deallocate(
        100,
        AllocPolicy::defragment(AllocPolicy::garbage_collect(AllocPolicy::just_alloc())),
    );
    assert_eq!(p.depth(), 3);
    assert_eq!(AllocPolicy::just_alloc().depth(), 0);
    assert_eq!(AllocPolicy::just_alloc().wrap(PolicyLayer::BlockOn).depth(), 1);
}
