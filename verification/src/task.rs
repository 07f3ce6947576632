//! Task control blocks and the register snapshot used for context switching.

use vstd::prelude::*;
use crate::physical::BitmapAllocator;

verus! {

/// Unique task identifier; identifiers grow monotonically and are never reused.
#[derive(Clone, Copy, PartialEq, Eq, Structural, Debug)]
pub struct TaskId(pub u64);

/// Execution state of a task.
#[derive(Clone, Copy, PartialEq, Eq, Structural, Debug)]
pub enum TaskState {
    Ready,
    Running,
    Blocked,
    Terminated,
}

/// Full CPU register snapshot saved and restored across a context switch.
#[derive(Clone, Copy, PartialEq, Eq, Structural, Debug)]
pub struct RegisterState {
    pub rax: u64,
    pub rbx: u64,
    pub rcx: u64,
    pub rdx: u64,
    pub rsi: u64,
    pub rdi: u64,
    pub rbp: u64,
    pub rsp: u64,
    pub r8: u64,
    pub r9: u64,
    pub r10: u64,
    pub r11: u64,
    pub r12: u64,
    pub r13: u64,
    pub r14: u64,
    pub r15: u64,
    pub rip: u64,
    pub rflags: u64,
}

impl RegisterState {
    /// The snapshot a fresh task starts from: all registers zero, flags with
    /// interrupts enabled and the always-set reserved bit.
    pub open spec fn spec_default() -> RegisterState {
        (RegisterState {
            rax: 0,
            rbx: 0,
            rcx: 0,
            rdx: 0,
            rsi: 0,
            rdi: 0,
            rbp: 0,
            rsp: 0,
            r8: 0,
            r9: 0,
            r10: 0,
            r11: 0,
            r12: 0,
            r13: 0,
            r14: 0,
            r15: 0,
            rip: 0,
            rflags: 0x202,
        })
    }
}

impl Default for RegisterState {
    fn default() -> (r: Self)
        ensures
            r == RegisterState::spec_default(),
    {
        RegisterState {
            rax: 0,
            rbx: 0,
            rcx: 0,
            rdx: 0,
            rsi: 0,
            rdi: 0,
            rbp: 0,
            rsp: 0,
            r8: 0,
            r9: 0,
            r10: 0,
            r11: 0,
            r12: 0,
            r13: 0,
            r14: 0,
            r15: 0,
            rip: 0,
            rflags: 0x202,
        }
    }
}

/// Hands out task identifiers, each exactly once.
pub struct TaskIdCounter {
    next: u64,
}

impl TaskIdCounter {
    /// The identifier the next task will get.
    pub closed spec fn spec_next(&self) -> u64 {
        self.next
    }

    /// A counter starting at zero.
    pub fn new() -> (r: Self)
        ensures
            r.spec_next() == 0,
    {
        TaskIdCounter { next: 0 }
    }

    /// Take the next identifier; later identifiers are strictly larger.
    pub fn fresh(&mut self) -> (r: TaskId)
        requires
            old(self).spec_next() < u64::MAX,
        ensures
            r.0 == old(self).spec_next(),
            final(self).spec_next() == old(self).spec_next() + 1,
    {
        let id = self.next;
        self.next = self.next + 1;
        TaskId(id)
    }
}

/// Task control block: identity, display name, execution state, register
/// snapshot, and the exclusively owned stack region.
#[derive(Debug)]
pub struct Task {
    pub id: TaskId,
    pub name: String,
    pub state: TaskState,
    pub registers: RegisterState,
    pub stack_base: u64,
    pub stack_size: usize,
}

/// Stack size for new tasks: 64 KiB, sixteen frames.
pub const STACK_SIZE: usize = 64 * 1024;

/// Frames needed for one task stack.
pub const STACK_FRAMES: usize = 16;

impl Task {
    /// Reserve sixteen frames for a task stack and return the address of the
    /// first.
    ///
    /// The first frame allocated is the lowest free frame and the stack is
    /// based there; the allocator's free count drops by [`STACK_FRAMES`].
    /// First-fit allocation from an untouched region hands the frames out
    /// back to back, which is what basing the whole stack on the first frame
    /// assumes (the identity-mapping simplification).
    fn allocate_stack(alloc: &mut BitmapAllocator) -> (base: u64)
        requires
            old(alloc).wf(),
            old(alloc).free_count() >= STACK_FRAMES,
        ensures
            final(alloc).wf(),
            final(alloc).total() == old(alloc).total(),
            final(alloc).free_count() == old(alloc).free_count() - STACK_FRAMES,
            base == (base as int / 4096) * 4096,
            old(alloc).is_free(base as int / 4096),
            forall|g: int| 0 <= g < base as int / 4096 ==> !old(alloc).is_free(g),
            base + 4096 <= old(alloc).total() * 4096,
    {
        let mut stack_frames: Vec<crate::physical::PhysFrame> = Vec::new();
        let mut i: usize = 0;
        let mut base: u64 = 0;
        while i < STACK_FRAMES
            invariant
                alloc.wf(),
                alloc.total() == old(alloc).total(),
                i <= STACK_FRAMES,
                i == 0 ==> *alloc == *old(alloc),
                alloc.free_count() == old(alloc).free_count() - i,
                old(alloc).free_count() >= STACK_FRAMES,
                i > 0 ==> {
                    &&& base == (base as int / 4096) * 4096
                    &&& old(alloc).is_free(base as int / 4096)
                    &&& forall|g: int| 0 <= g < base as int / 4096 ==> !old(alloc).is_free(g)
                    &&& base as int / 4096 < old(alloc).total()
                },
            decreases STACK_FRAMES - i,
        {
            let got = alloc.alloc_frame();
            match got {
                Some(frame) => {
                    if i == 0 {
                        base = frame.addr;
                        proof {
                            vstd::arithmetic::div_mod::lemma_fundamental_div_mod_converse(
                                base as int,
                                4096,
                                frame.spec_number(),
                                0,
                            );
                        }
                    }
                    stack_frames.push(frame);
                },
                None => {
                    // Unreachable: the free count stays at least
                    // `STACK_FRAMES - i > 0` throughout the loop.
                    proof {
                        assert(false);
                    }
                },
            }
            i = i + 1;
        }
        proof {
            assert((base as int / 4096) + 1 <= old(alloc).total());
            vstd::arithmetic::mul::lemma_mul_inequality(
                base as int / 4096 + 1,
                old(alloc).total(),
                4096,
            );
        }
        base
    }

    /// Create a new ready task with the given entry point: reserve its stack,
    /// take a fresh identifier, and seed the snapshot so execution starts at
    /// `entry_point` on the new stack (one slot below the top is reserved for
    /// a return address).
    pub fn new(
        entry_point: u64,
        name: String,
        ids: &mut TaskIdCounter,
        alloc: &mut BitmapAllocator,
    ) -> (t: Task)
        requires
            old(ids).spec_next() < u64::MAX,
            old(alloc).wf(),
            old(alloc).free_count() >= STACK_FRAMES,
            old(alloc).total() * 4096 + STACK_SIZE <= u64::MAX,
        ensures
            final(ids).spec_next() == old(ids).spec_next() + 1,
            final(alloc).wf(),
            final(alloc).total() == old(alloc).total(),
            final(alloc).free_count() == old(alloc).free_count() - STACK_FRAMES,
            t.id.0 == old(ids).spec_next(),
            t.name == name,
            t.state == TaskState::Ready,
            t.stack_size == STACK_SIZE,
            t.stack_base == (t.stack_base as int / 4096) * 4096,
            old(alloc).is_free(t.stack_base as int / 4096),
            t.registers == (RegisterState {
                rip: entry_point,
                rsp: (t.stack_base + STACK_SIZE - 8) as u64,
                rbp: (t.stack_base + STACK_SIZE) as u64,
                ..RegisterState::spec_default()
            }),
    {
        let id = ids.fresh();
        let stack_base = Self::allocate_stack(alloc);
        let stack_top = stack_base + STACK_SIZE as u64;
        let mut registers = RegisterState::default();
        registers.rip = entry_point;
        registers.rsp = stack_top - 8;
        registers.rbp = stack_top;
        Task {
            id,
            name,
            state: TaskState::Ready,
            registers,
            stack_base,
            stack_size: STACK_SIZE,
        }
    }

    /// Create the initial kernel task, standing for the execution context the
    /// processor is already in: it runs on the boot stack, so no stack is
    /// reserved, and its snapshot is filled at the first context switch.
    pub fn new_kernel_task(ids: &mut TaskIdCounter) -> (t: Task)
        requires
            old(ids).spec_next() < u64::MAX,
        ensures
            final(ids).spec_next() == old(ids).spec_next() + 1,
            t.id.0 == old(ids).spec_next(),
            t.name@ == "Kernel"@,
            t.state == TaskState::Running,
            t.registers == RegisterState::spec_default(),
            t.stack_base == 0,
            t.stack_size == 0,
    {
        let id = ids.fresh();
        Task {
            id,
            name: String::from_str("Kernel"),
            state: TaskState::Running,
            registers: RegisterState::default(),
            stack_base: 0,
            stack_size: 0,
        }
    }
}

/// The marker a cooperative yield writes to the diagnostic sink; the switch
/// to the next ready task follows from the scheduler's decision on the next
/// timer tick.
pub fn yield_now() -> (r: String)
    ensures
        r@ == "[yield] "@,
{
    String::from_str("[yield] ")
}

/// Model of the context switch: the outgoing task's snapshot takes the
/// processor state as it stands, and the processor state is replaced by the
/// incoming task's snapshot. The architecture-level register save and
/// restore-and-jump performs exactly this exchange.
pub fn context_switch(old_task: &mut Task, new_task: &Task, cpu: &mut RegisterState)
    ensures
        final(old_task).registers == *old(cpu),
        final(old_task).id == old(old_task).id,
        final(old_task).name == old(old_task).name,
        final(old_task).state == old(old_task).state,
        final(old_task).stack_base == old(old_task).stack_base,
        final(old_task).stack_size == old(old_task).stack_size,
        *final(cpu) == new_task.registers,
{
    old_task.registers = *cpu;
    *cpu = new_task.registers;
}

} // verus!
