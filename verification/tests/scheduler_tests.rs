//! Scheduler, task and timer tests.

use kernel_core::physical::{init as frame_init, MemoryRegion, RegionKind};
use kernel_core::scheduler::{create_demo_tasks, init as task_init, timer_tick, Scheduler};
use kernel_core::task::{
    context_switch, yield_now, RegisterState, Task, TaskIdCounter, TaskState, STACK_SIZE,
};
use kernel_core::timer::{pit_divisor, sleep_target, TickCounter};

fn test_allocator() -> kernel_core::physical::BitmapAllocator {
    frame_init(&vec![MemoryRegion {
        base: 0x200000,
        length: 64 * 1024 * 1024,
        kind: RegionKind::Usable,
    }])
}

#[test]
fn three_tasks_round_robin() {
    // Tasks A, B, C added in that order: four consecutive decisions make the
    // current task A, B, C, A.
    let mut alloc = test_allocator();
    let mut ids = TaskIdCounter::new();
    let mut sched = Scheduler::new();
    let a = Task::new(0x1000, "A".to_string(), &mut ids, &mut alloc);
    let b = Task::new(0x2000, "B".to_string(), &mut ids, &mut alloc);
    let c = Task::new(0x3000, "C".to_string(), &mut ids, &mut alloc);
    let (id_a, id_b, id_c) = (a.id, b.id, c.id);
    sched.add_task(a);
    sched.add_task(b);
    sched.add_task(c);
    assert_eq!(sched.schedule(), Some(id_a));
    assert_eq!(sched.current_task_id(), Some(id_a));
    assert_eq!(sched.schedule(), Some(id_b));
    assert_eq!(sched.schedule(), Some(id_c));
    assert_eq!(sched.schedule(), Some(id_a));
    let (ready, switches) = sched.stats();
    assert_eq!(ready, 2);
    assert_eq!(switches, 4);
}

#[test]
fn single_task_promotion() {
    // One ready task and no current task: one decision promotes it and takes
    // the switch counter to one.
    let mut alloc = test_allocator();
    let mut ids = TaskIdCounter::new();
    let mut sched = Scheduler::new();
    let t = Task::new(0x1000, "only".to_string(), &mut ids, &mut alloc);
    let id = t.id;
    sched.add_task(t);
    assert_eq!(sched.schedule(), Some(id));
    let (ready, switches) = sched.stats();
    assert_eq!(ready, 0);
    assert_eq!(switches, 1);
    assert_eq!(sched.current_task().unwrap().state, TaskState::Running);
}

#[test]
fn empty_queue_keeps_current() {
    // An empty ready queue leaves the current task in place and does not
    // move the switch counter.
    let mut alloc = test_allocator();
    let mut ids = TaskIdCounter::new();
    let mut sched = Scheduler::new();
    let t = Task::new(0x1000, "only".to_string(), &mut ids, &mut alloc);
    let id = t.id;
    sched.add_task(t);
    sched.schedule();
    assert_eq!(sched.schedule(), Some(id));
    assert_eq!(sched.schedule(), Some(id));
    let (ready, switches) = sched.stats();
    assert_eq!(ready, 0);
    assert_eq!(switches, 1);
}

#[test]
fn schedule_on_empty_scheduler() {
    let mut sched = Scheduler::new();
    assert_eq!(sched.schedule(), None);
    let (ready, switches) = sched.stats();
    assert_eq!(ready, 0);
    assert_eq!(switches, 0);
}

#[test]
fn blocked_task_leaves_scheduling() {
    let mut alloc = test_allocator();
    let mut ids = TaskIdCounter::new();
    let mut sched = Scheduler::new();
    let t1 = Task::new(0x1000, "worker".to_string(), &mut ids, &mut alloc);
    let t2 = Task::new(0x2000, "other".to_string(), &mut ids, &mut alloc);
    let (id1, id2) = (t1.id, t2.id);
    sched.add_task(t1);
    sched.add_task(t2);
    sched.schedule();
    sched.block_current_task();
    assert_eq!(sched.current_task().unwrap().state, TaskState::Blocked);
    // The blocked task is retired at the next decision and never returns.
    assert_eq!(sched.schedule(), Some(id2));
    assert_eq!(sched.schedule(), Some(id2));
    assert_ne!(sched.current_task_id(), Some(id1));
}

#[test]
fn terminated_task_leaves_scheduling() {
    let mut alloc = test_allocator();
    let mut ids = TaskIdCounter::new();
    let mut sched = Scheduler::new();
    let t1 = Task::new(0x1000, "doomed".to_string(), &mut ids, &mut alloc);
    let id1 = t1.id;
    sched.add_task(t1);
    assert_eq!(sched.schedule(), Some(id1));
    sched.terminate_current_task();
    assert_eq!(sched.current_task().unwrap().state, TaskState::Terminated);
    assert_eq!(sched.schedule(), None);
    assert!(sched.current_task().is_none());
}

#[test]
fn task_creation_seeds_snapshot() {
    let mut alloc = test_allocator();
    let mut ids = TaskIdCounter::new();
    let before = alloc.free_frames();
    let t = Task::new(0xCAFE, "worker".to_string(), &mut ids, &mut alloc);
    assert_eq!(t.id.0, 0);
    assert_eq!(t.state, TaskState::Ready);
    assert_eq!(t.stack_size, STACK_SIZE);
    assert_eq!(t.stack_base, 0x200000);
    assert_eq!(t.registers.rip, 0xCAFE);
    assert_eq!(t.registers.rsp, 0x200000 + STACK_SIZE as u64 - 8);
    assert_eq!(t.registers.rbp, 0x200000 + STACK_SIZE as u64);
    assert_eq!(t.registers.rflags, 0x202);
    assert_eq!(alloc.free_frames(), before - 16);
    let t2 = Task::new(0xBEEF, "worker2".to_string(), &mut ids, &mut alloc);
    assert_eq!(t2.id.0, 1);
    assert_eq!(t2.stack_base, 0x210000);
}

#[test]
fn boot_task_seeding() {
    // The boot path queues the kernel task and the two demonstration tasks,
    // all ready, in order.
    let mut alloc = test_allocator();
    let mut ids = TaskIdCounter::new();
    let mut sched = task_init(0x1111, 0x2222, &mut ids, &mut alloc);
    let (ready, switches) = sched.stats();
    assert_eq!(ready, 3);
    assert_eq!(switches, 0);
    let first = sched.schedule().unwrap();
    assert_eq!(first.0, 0);
    assert_eq!(sched.current_task().unwrap().name, "Kernel");
    let second = sched.schedule().unwrap();
    assert_eq!(second.0, 1);
    assert_eq!(sched.current_task().unwrap().name, "Counter Task");
    assert_eq!(sched.current_task().unwrap().registers.rip, 0x1111);
    let third = sched.schedule().unwrap();
    assert_eq!(third.0, 2);
    assert_eq!(sched.current_task().unwrap().name, "Letter Task");
    assert_eq!(sched.current_task().unwrap().registers.rip, 0x2222);
}

#[test]
fn demo_tasks_join_existing_scheduler() {
    let mut alloc = test_allocator();
    let mut ids = TaskIdCounter::new();
    let mut sched = Scheduler::new();
    create_demo_tasks(&mut sched, 0xAAAA, 0xBBBB, &mut ids, &mut alloc);
    let (ready, _) = sched.stats();
    assert_eq!(ready, 2);
}

#[test]
fn timer_drives_scheduling_every_tenth_tick() {
    let mut alloc = test_allocator();
    let mut ids = TaskIdCounter::new();
    let mut sched = Scheduler::new();
    let t = Task::new(0x1000, "worker".to_string(), &mut ids, &mut alloc);
    sched.add_task(t);
    let mut ticks: u64 = 0;
    for _ in 0..9 {
        timer_tick(&mut sched, &mut ticks);
    }
    assert_eq!(sched.stats().1, 0);
    timer_tick(&mut sched, &mut ticks);
    assert_eq!(ticks, 10);
    assert_eq!(sched.stats().1, 1);
}

#[test]
fn context_switch_exchanges_snapshots() {
    let mut alloc = test_allocator();
    let mut ids = TaskIdCounter::new();
    let mut outgoing = Task::new(0x1000, "out".to_string(), &mut ids, &mut alloc);
    let incoming = Task::new(0x2000, "in".to_string(), &mut ids, &mut alloc);
    let mut cpu = RegisterState::default();
    cpu.rax = 7;
    cpu.rip = 0x9999;
    let cpu_before = cpu;
    context_switch(&mut outgoing, &incoming, &mut cpu);
    assert_eq!(outgoing.registers, cpu_before);
    assert_eq!(cpu, incoming.registers);
}

#[test]
fn tick_counter_and_sleep() {
    let mut tc = TickCounter::new();
    assert_eq!(tc.ticks(), 0);
    for _ in 0..250 {
        tc.tick();
    }
    assert_eq!(tc.ticks(), 250);
    assert_eq!(tc.uptime_seconds(), 2);
    assert_eq!(sleep_target(tc.ticks(), 30), 253);
    assert_eq!(pit_divisor(), 11931);
}

#[test]
fn yield_marker_text() {
    assert_eq!(yield_now(), "[yield] ");
}
