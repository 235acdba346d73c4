use mmtk::copyspace::{CopySemantics, CopySpace};
use mmtk::cycle::{initial_cycle_state, step, CycleState, GcAction, GcEvent, GcPhase};
use mmtk::mutator::{
    create_triplespace_mutator, Mutator, triplespace_alloc, triplespace_mutator_prepare,
    triplespace_mutator_release, VMMutatorThread, VMWorkerThread,
};
use mmtk::plan::{
    AllocationSemantics, AllocatorSelector, CopySelector, CreateGeneralPlanArgs, GCWorkContext,
    GCWorker, ProcessEdgesKind, SpaceId,
};
use mmtk::scanning::{ObjectTracer, ObjectTracerContext, RootsWorkFactory, Scanning, SlotVisitor};
use mmtk::soda::{Soda, SodaWorkContext};
use mmtk::tracer::{PlanTracerContext, QueuingTracer};
use mmtk::triplespace::{TripleSpace, TripleSpaceWorkContext};
use mmtk::util::{bytes_to_pages_up, ObjectReference};

const HEAP_START: u64 = 0x10_0000;
const SPACE_BYTES: u64 = 0x4_0000;

fn args() -> CreateGeneralPlanArgs {
    CreateGeneralPlanArgs { heap_start: HEAP_START, space_bytes: SPACE_BYTES, heap_pages: 256 }
}

fn in_range(space: &CopySpace, r: ObjectReference) -> bool {
    space.start() <= r.addr && r.addr < space.limit()
}

#[test]
fn scenario_two_region_cycle_copies_only_reachable() {
    let mut plan = Soda::new(args());
    let x = plan.allocate(64).unwrap();
    let y = plan.allocate(32).unwrap();
    assert!(in_range(plan.tospace(), x));
    assert!(in_range(plan.tospace(), y));
    let mut roots = vec![y];

    plan.prepare();
    assert!(plan.trace_roots(&mut roots));
    plan.release();

    let to = plan.tospace();
    assert!(in_range(to, roots[0]));
    assert_eq!(to.num_objects(), 1);
    assert_eq!(to.object_at(0).start, roots[0].addr);
    assert_eq!(to.object_at(0).bytes, 32);
    assert_eq!(to.cursor() - to.start(), 32);
    assert_eq!(plan.fromspace().num_objects(), 0);
    assert_eq!(plan.fromspace().reserved_pages(), 0);
}

#[test]
fn scenario_three_region_eden_is_evacuated() {
    let mut plan = TripleSpace::new(args());
    let mut mutator = create_triplespace_mutator(VMMutatorThread(1), &plan);
    let z = triplespace_alloc(&mutator, &mut plan, 48, AllocationSemantics::Default).unwrap();
    assert!(in_range(plan.edenspace(), z));
    let mut roots = vec![z];

    plan.prepare();
    triplespace_mutator_prepare(&mut mutator, VMWorkerThread(0));
    assert!(plan.trace_roots(&mut roots));
    plan.release();
    triplespace_mutator_release(&mut mutator, VMWorkerThread(0));

    assert!(in_range(plan.tospace(), roots[0]));
    assert!(!in_range(plan.edenspace(), roots[0]));
    assert_eq!(plan.edenspace().reserved_pages(), 0);
    assert_eq!(plan.edenspace().num_objects(), 0);
    assert_eq!(mutator.bump_pointer.space, SpaceId::Eden);
}

#[test]
fn scenario_ping_pong_swaps_regions() {
    let mut plan = Soda::new(args());
    let a = plan.allocate(40).unwrap();
    let mut roots = vec![a];

    plan.prepare();
    let (to1_start, to1_limit) = (plan.tospace().start(), plan.tospace().limit());
    let (from1_start, from1_limit) = (plan.fromspace().start(), plan.fromspace().limit());
    assert!(plan.trace_roots(&mut roots));
    plan.release();
    assert!(to1_start <= roots[0].addr && roots[0].addr < to1_limit);

    plan.prepare();
    assert_eq!(plan.tospace().start(), from1_start);
    assert_eq!(plan.tospace().limit(), from1_limit);
    assert_eq!(plan.fromspace().start(), to1_start);
    assert_eq!(plan.fromspace().limit(), to1_limit);
    assert!(plan.trace_roots(&mut roots));
    plan.release();
    assert!(from1_start <= roots[0].addr && roots[0].addr < from1_limit);
    assert_eq!(plan.tospace().num_objects(), 1);
}

#[test]
fn scenario_weak_reference_round() {
    let mut answers = vec![true, false];
    let mut next_answer = 0usize;
    let mut handler_calls = 0u32;
    let mut extra_rounds = 0u32;
    let mut releases = 0u32;

    let mut state: CycleState = initial_cycle_state();
    let mut event = GcEvent::Triggered;
    loop {
        let (next, action) = step(state, event).unwrap();
        state = next;
        event = match action {
            GcAction::Prepare => GcEvent::Prepared,
            GcAction::ScanRoots => GcEvent::ClosureDrained,
            GcAction::ProcessWeakRefs => {
                handler_calls += 1;
                let again = answers[next_answer];
                next_answer += 1;
                GcEvent::WeakRefsProcessed(again)
            }
            GcAction::ExpandClosure => {
                assert_eq!(releases, 0);
                extra_rounds += 1;
                GcEvent::ClosureDrained
            }
            GcAction::Release => {
                releases += 1;
                GcEvent::Released
            }
            GcAction::ResumeMutators => break,
        };
    }
    answers.clear();
    assert_eq!(handler_calls, 2);
    assert_eq!(extra_rounds, 1);
    assert_eq!(releases, 1);
    assert_eq!(state.phase, GcPhase::Idle);
    assert_eq!(state.extra_rounds, 1);
    assert_eq!(state.releases, 1);
}

#[test]
fn out_of_order_events_are_refused() {
    let s = initial_cycle_state();
    assert!(step(s, GcEvent::Released).is_none());
    assert!(step(s, GcEvent::WeakRefsProcessed(false)).is_none());
    let (prep, a) = step(s, GcEvent::Triggered).unwrap();
    assert_eq!(a, GcAction::Prepare);
    assert!(step(prep, GcEvent::Triggered).is_none());
    assert!(step(prep, GcEvent::ClosureDrained).is_none());
}

#[test]
fn slots_with_same_referent_converge() {
    let mut plan = Soda::new(args());
    let a = plan.allocate(16).unwrap();
    let b = plan.allocate(24).unwrap();
    let mut roots = vec![a, b, a, a, b];
    plan.prepare();
    assert!(plan.trace_roots(&mut roots));
    assert_eq!(roots[0], roots[2]);
    assert_eq!(roots[0], roots[3]);
    assert_eq!(roots[1], roots[4]);
    assert_ne!(roots[0], roots[1]);
    assert_ne!(roots[0], a);
    assert_eq!(plan.tospace().num_objects(), 2);
}

#[test]
fn tracing_twice_copies_once() {
    let mut plan = Soda::new(args());
    let a = plan.allocate(16).unwrap();
    plan.prepare();
    let first = plan.trace_object(a).unwrap();
    let cursor = plan.tospace().cursor();
    let second = plan.trace_object(a).unwrap();
    assert_eq!(first, second);
    assert_eq!(plan.tospace().cursor(), cursor);
    assert_eq!(plan.tospace().num_objects(), 1);
    assert_eq!(plan.fromspace().object_at(0).forwarded, Some(first));
}

#[test]
fn objects_outside_the_source_do_not_move() {
    let mut plan = TripleSpace::new(args());
    plan.prepare();
    let elsewhere = ObjectReference { addr: 8 };
    assert_eq!(plan.trace_object(elsewhere), Some(elsewhere));
    assert_eq!(plan.tospace().num_objects(), 0);
}

#[test]
fn roles_alternate_each_cycle() {
    let mut plan = TripleSpace::new(args());
    assert!(!plan.is_hi());
    for cycle in 0..4 {
        let hi_before = plan.is_hi();
        let to_before = plan.tospace().start();
        plan.prepare();
        assert_eq!(plan.is_hi(), !hi_before);
        assert_eq!(plan.fromspace().start(), to_before);
        assert!(plan.fromspace().is_from_space());
        assert!(!plan.tospace().is_from_space());
        assert!(plan.edenspace().is_from_space());
        assert_eq!(plan.fromspace().copy_for_sft_trace(), Some(CopySemantics::DefaultCopy));
        assert_eq!(plan.tospace().copy_for_sft_trace(), None);
        assert_eq!(plan.edenspace().copy_for_sft_trace(), Some(CopySemantics::DefaultCopy));
        plan.release();
        assert_eq!(plan.tospace_id() == SpaceId::CopySpace1, cycle % 2 == 0);
    }
}

#[test]
fn used_pages_drop_by_the_released_source() {
    let mut plan = Soda::new(args());
    let live = plan.allocate(5000).unwrap();
    plan.allocate(9000).unwrap();
    assert_eq!(plan.get_used_pages(), 4);
    let mut roots = vec![live];
    plan.prepare();
    assert!(plan.trace_roots(&mut roots));
    assert_eq!(plan.get_used_pages(), 4 + 2);
    assert_eq!(plan.get_collection_reserved_pages(), 2);
    plan.release();
    assert_eq!(plan.get_used_pages(), 2);
}

#[test]
fn three_region_used_pages_count_all_regions() {
    let mut plan = TripleSpace::new(args());
    let mutator = create_triplespace_mutator(VMMutatorThread(7), &plan);
    triplespace_alloc(&mutator, &mut plan, 4097, AllocationSemantics::Default).unwrap();
    plan.allocate_in(SpaceId::CopySpace0, 10).unwrap();
    assert_eq!(plan.get_used_pages(), 3);
    assert_eq!(plan.get_collection_reserved_pages(), 1);
    plan.prepare();
    plan.release();
    assert_eq!(plan.get_used_pages(), 0);
}

#[test]
fn destination_exhaustion_fails_the_trace() {
    let small = CreateGeneralPlanArgs { heap_start: 4096, space_bytes: 100, heap_pages: 4 };
    let mut plan = Soda::new(small);
    let a = plan.allocate(60).unwrap();
    assert!(plan.allocate(60).is_none());
    plan.prepare();
    let b = plan.allocate(60).unwrap();
    let mut roots = vec![b];
    plan.prepare();
    assert_eq!(plan.tospace().object_at(0).start, a.addr);
    assert_eq!(plan.tospace().limit() - plan.tospace().cursor(), 40);
    assert!(!plan.trace_roots(&mut roots));
    assert_eq!(roots, vec![b]);
    assert_eq!(plan.trace_object(b), None);
}

#[test]
fn collection_required_follows_budget() {
    let tight = CreateGeneralPlanArgs { heap_start: HEAP_START, space_bytes: SPACE_BYTES, heap_pages: 2 };
    let mut plan = Soda::new(tight);
    assert!(!plan.collection_required(false));
    assert!(plan.collection_required(true));
    plan.allocate(4096).unwrap();
    assert!(!plan.collection_required(false));
    plan.allocate(1).unwrap();
    assert!(plan.collection_required(false));
}

#[test]
fn copy_config_targets_destination() {
    let mut plan = Soda::new(args());
    let c = plan.create_copy_config();
    assert_eq!(c.space_mapping, vec![(CopySelector::CopySpace(0), SpaceId::CopySpace0)]);
    assert_eq!(c.copy_mapping[0], (CopySemantics::DefaultCopy, CopySelector::CopySpace(0)));
    assert_eq!(c.copy_mapping[1], (CopySemantics::Nursery, CopySelector::Unused));
    assert!(c.constraints.moves_objects);
    plan.prepare();
    let c = plan.create_copy_config();
    assert_eq!(c.space_mapping, vec![(CopySelector::CopySpace(0), SpaceId::CopySpace1)]);
    assert!(plan.current_gc_may_move_object());
    assert!(plan.constraints().moves_objects);
}

#[test]
fn workers_rebind_to_destination() {
    let mut plan = TripleSpace::new(args());
    let mut worker = GCWorker::new(3);
    plan.prepare();
    plan.prepare_worker(&mut worker);
    assert_eq!(worker.copy_destination, Some(SpaceId::CopySpace1));
    assert_eq!(worker.ordinal, 3);
    plan.release();
    plan.prepare();
    plan.prepare_worker(&mut worker);
    assert_eq!(worker.copy_destination, Some(SpaceId::CopySpace0));
}

#[test]
fn allocator_mapping_serves_default_only() {
    let plan = TripleSpace::new(args());
    assert_eq!(plan.get_allocator_mapping(AllocationSemantics::Default), AllocatorSelector::BumpPointer(0));
    assert_eq!(plan.get_allocator_mapping(AllocationSemantics::Los), AllocatorSelector::Unmapped);
    let soda = Soda::new(args());
    assert_eq!(soda.get_allocator_mapping(AllocationSemantics::Immortal), AllocatorSelector::Unmapped);
}

#[test]
fn mutator_binds_to_eden() {
    let mut plan = TripleSpace::new(args());
    let mut mutator = create_triplespace_mutator(VMMutatorThread(2), &plan);
    assert_eq!(mutator.space_mapping, vec![(AllocatorSelector::BumpPointer(0), SpaceId::Eden)]);
    assert!(triplespace_alloc(&mutator, &mut plan, 8, AllocationSemantics::Los).is_none());
    mutator.bump_pointer.rebind(SpaceId::CopySpace1);
    triplespace_mutator_release(&mut mutator, VMWorkerThread(0));
    assert_eq!(mutator.bump_pointer.space, SpaceId::Eden);
    assert_eq!(mutator.mutator_tls, VMMutatorThread(2));
}

#[test]
fn queuing_tracer_enqueues_each_copy_once() {
    let mut plan = TripleSpace::new(args());
    let a = plan.allocate_in(SpaceId::Eden, 16).unwrap();
    let b = plan.allocate_in(SpaceId::CopySpace0, 16).unwrap();
    plan.prepare();
    let worker = GCWorker::new(0);
    let mut tracer = QueuingTracer::new(plan, &worker);
    let a1 = tracer.trace_object(a);
    let b1 = tracer.trace_object(b);
    assert_eq!(tracer.trace_object(a), a1);
    assert_eq!(tracer.trace_object(b), b1);
    assert!(!tracer.exhausted());
    let (plan, work) = tracer.finish();
    assert_eq!(work, vec![a1, b1]);
    assert_eq!(plan.tospace().num_objects(), 2);
}

#[test]
fn pages_round_up() {
    assert_eq!(bytes_to_pages_up(0), 0);
    assert_eq!(bytes_to_pages_up(1), 1);
    assert_eq!(bytes_to_pages_up(4096), 1);
    assert_eq!(bytes_to_pages_up(4097), 2);
    assert_eq!(bytes_to_pages_up(u64::MAX), 1 << 52);
}

#[test]
fn region_find_and_forward() {
    let mut s = CopySpace::new(4096, 4096, true);
    let a = s.allocate(10).unwrap();
    let b = s.allocate(20).unwrap();
    assert_eq!(a.addr, 4096);
    assert_eq!(b.addr, 4106);
    assert_eq!(s.find(4106), Some(1));
    assert_eq!(s.find(4100), None);
    s.set_forwarding(1, ObjectReference { addr: 9000 });
    assert_eq!(s.object_at(1).forwarded, Some(ObjectReference { addr: 9000 }));
    assert!(s.in_space(b));
    assert!(!s.in_space(ObjectReference { addr: 8192 }));
    s.release();
    assert_eq!(s.num_objects(), 0);
    assert!(!s.is_from_space());
    assert_eq!(s.cursor(), 4096);
}

#[test]
fn tracer_context_hands_out_one_scope() {
    let mut plan = Soda::new(args());
    let a = plan.allocate(16).unwrap();
    plan.prepare();
    let mut ctx = PlanTracerContext::new(plan);
    let worker = GCWorker::new(1);
    let mut tracer = ctx.tracer_for(&worker);
    let moved = tracer.trace_object(a);
    assert_ne!(moved, a);
    let (plan, work) = tracer.finish();
    assert_eq!(work, vec![moved]);
    assert_eq!(plan.fromspace().object_at(0).forwarded, Some(moved));
}

#[test]
fn work_contexts_reject_pinning_roots() {
    assert_eq!(SodaWorkContext::default_process_edges(), ProcessEdgesKind::Sft);
    assert_eq!(SodaWorkContext::pinning_process_edges(), ProcessEdgesKind::Unsupported);
    assert_eq!(TripleSpaceWorkContext::default_process_edges(), ProcessEdgesKind::Sft);
    assert_eq!(TripleSpaceWorkContext::pinning_process_edges(), ProcessEdgesKind::Unsupported);
}

#[test]
fn three_region_roots_from_both_sources_converge() {
    let mut plan = TripleSpace::new(args());
    let old = plan.allocate_in(SpaceId::CopySpace0, 24).unwrap();
    let young = plan.allocate_in(SpaceId::Eden, 8).unwrap();
    plan.prepare();
    assert_eq!(plan.fromspace().start(), HEAP_START);
    let mut roots = vec![young, old, young, old];
    assert!(plan.trace_roots(&mut roots));
    assert_eq!(roots[0], roots[2]);
    assert_eq!(roots[1], roots[3]);
    assert_ne!(roots[0], roots[1]);
    assert!(in_range(plan.tospace(), roots[0]));
    assert!(in_range(plan.tospace(), roots[1]));
    assert_eq!(plan.tospace().num_objects(), 2);
    plan.release();
    assert_eq!(plan.get_used_pages(), 1);
}

#[test]
fn closures_serve_as_visitor_and_tracer() {
    let mut seen: Vec<usize> = Vec::new();
    {
        let mut visit = |slot: usize| seen.push(slot);
        visit.visit_slot(3);
        visit.visit_slot(5);
    }
    assert_eq!(seen, vec![3, 5]);

    let mut shift = |o: ObjectReference| ObjectReference { addr: o.addr + 8 };
    assert_eq!(shift.trace_object(ObjectReference { addr: 100 }), ObjectReference { addr: 108 });
}

#[test]
fn constraints_are_the_copying_defaults() {
    let soda = Soda::new(args());
    let triple = TripleSpace::new(args());
    for c in [soda.constraints(), triple.constraints()] {
        assert!(c.moves_objects);
        assert!(!c.needs_forward_after_liveness);
        assert!(!c.may_trace_duplicate_edges);
    }
}

#[test]
fn tracer_reports_a_full_destination() {
    let small = CreateGeneralPlanArgs { heap_start: 4096, space_bytes: 100, heap_pages: 4 };
    let mut plan = Soda::new(small);
    let a = plan.allocate(60).unwrap();
    plan.prepare();
    plan.allocate(50).unwrap();
    let worker = GCWorker::new(0);
    let mut tracer = QueuingTracer::new(plan, &worker);
    assert_eq!(tracer.trace_object(a), a);
    assert!(tracer.exhausted());
    let (plan, work) = tracer.finish();
    assert!(work.is_empty());
    assert_eq!(plan.fromspace().object_at(0).forwarded, None);
}

struct Binding;

impl Scanning for Binding {
    fn scan_object<SV: SlotVisitor<usize>>(_tls: VMWorkerThread, _object: ObjectReference, _v: &mut SV) {}

    fn scan_object_and_trace_edges<OT: ObjectTracer>(
        _tls: VMWorkerThread,
        _object: ObjectReference,
        _t: &mut OT,
    ) {
    }

    fn notify_initial_thread_scan_complete(_partial_scan: bool, _tls: VMWorkerThread) {}

    fn scan_roots_in_mutator_thread<F: RootsWorkFactory<usize>>(
        _tls: VMWorkerThread,
        _mutator: &mut Mutator,
        _factory: F,
    ) {
    }

    fn scan_vm_specific_roots<F: RootsWorkFactory<usize>>(_tls: VMWorkerThread, _factory: F) {}

    fn supports_return_barrier() -> bool {
        false
    }

    fn prepare_for_roots_re_scanning() {}
}

#[test]
fn scanning_defaults() {
    assert!(Binding::support_slot_enqueuing(VMWorkerThread(0), ObjectReference { addr: 64 }));
    assert!(!Binding::unique_object_enqueuing());
    let mut worker = GCWorker::new(0);
    let ctx = PlanTracerContext::new(Soda::new(args()));
    assert!(!Binding::process_weak_refs(&mut worker, ctx));
}
