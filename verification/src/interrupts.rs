//! Interrupt subsystem decisions: controller remapping, line masks, vector
//! assignment, the initialization state machine, and the diagnostic text of
//! fatal exceptions. The port writes themselves, the descriptor tables and
//! the handlers' register frames live outside the library; everything they
//! write or report is computed and pinned down here.

use vstd::prelude::*;
use crate::numfmt::{hex_seq, print_hex};
use crate::text::append_str;

verus! {

/// Command port of the primary interrupt controller.
pub const PIC1_COMMAND: u16 = 0x20;

/// Data port of the primary interrupt controller.
pub const PIC1_DATA: u16 = 0x21;

/// Command port of the secondary interrupt controller.
pub const PIC2_COMMAND: u16 = 0xA0;

/// Data port of the secondary interrupt controller.
pub const PIC2_DATA: u16 = 0xA1;

/// One byte written to one port.
#[derive(Clone, Copy, PartialEq, Eq, Structural, Debug)]
pub struct PortWrite {
    pub port: u16,
    pub value: u8,
}

/// The spec-level port write.
pub open spec fn pw(port: u16, value: u8) -> PortWrite {
    (PortWrite { port, value })
}

/// The controller remap handshake: the four initialization control words to
/// each chip — start word, vector offset, cascade wiring, mode — each
/// followed by a settle write to the spare port, then both masks closed.
/// Hardware lines 0-15 land at vectors 32-47 afterwards.
pub open spec fn spec_remap_sequence() -> Seq<PortWrite> {
    seq![
        pw(0x20, 0x11),
        pw(0x80, 0),
        pw(0xA0, 0x11),
        pw(0x80, 0),
        pw(0x21, 0x20),
        pw(0x80, 0),
        pw(0xA1, 0x28),
        pw(0x80, 0),
        pw(0x21, 4),
        pw(0x80, 0),
        pw(0xA1, 2),
        pw(0x80, 0),
        pw(0x21, 1),
        pw(0x80, 0),
        pw(0xA1, 1),
        pw(0x80, 0),
        pw(0x21, 0xFF),
        pw(0xA1, 0xFF),
    ]
}

/// Exec mirror of [`spec_remap_sequence`]: the writes, in order, that remap
/// the controllers and mask every line.
pub fn pic_remap_sequence() -> (r: Vec<PortWrite>)
    ensures
        r@ == spec_remap_sequence(),
{
    let mut v: Vec<PortWrite> = Vec::new();
    v.push(PortWrite { port: 0x20, value: 0x11 });
    v.push(PortWrite { port: 0x80, value: 0 });
    v.push(PortWrite { port: 0xA0, value: 0x11 });
    v.push(PortWrite { port: 0x80, value: 0 });
    v.push(PortWrite { port: 0x21, value: 0x20 });
    v.push(PortWrite { port: 0x80, value: 0 });
    v.push(PortWrite { port: 0xA1, value: 0x28 });
    v.push(PortWrite { port: 0x80, value: 0 });
    v.push(PortWrite { port: 0x21, value: 4 });
    v.push(PortWrite { port: 0x80, value: 0 });
    v.push(PortWrite { port: 0xA1, value: 2 });
    v.push(PortWrite { port: 0x80, value: 0 });
    v.push(PortWrite { port: 0x21, value: 1 });
    v.push(PortWrite { port: 0x80, value: 0 });
    v.push(PortWrite { port: 0xA1, value: 1 });
    v.push(PortWrite { port: 0x80, value: 0 });
    v.push(PortWrite { port: 0x21, value: 0xFF });
    v.push(PortWrite { port: 0xA1, value: 0xFF });
    proof {
        assert(v@ =~= spec_remap_sequence());
    }
    v
}

/// The end-of-interrupt acknowledgment for a serviced hardware line: the
/// secondary controller is acknowledged too when the line belongs to it.
pub fn send_eoi(irq: u8) -> (r: Vec<PortWrite>)
    ensures
        irq >= 8 ==> r@ == seq![pw(0xA0, 0x20), pw(0x20, 0x20)],
        irq < 8 ==> r@ == seq![pw(0x20, 0x20)],
{
    let mut v: Vec<PortWrite> = Vec::new();
    if irq >= 8 {
        v.push(PortWrite { port: PIC2_COMMAND, value: 0x20 });
    }
    v.push(PortWrite { port: PIC1_COMMAND, value: 0x20 });
    proof {
        if irq >= 8 {
            assert(v@ =~= seq![pw(0xA0, 0x20), pw(0x20, 0x20)]);
        } else {
            assert(v@ =~= seq![pw(0x20, 0x20)]);
        }
    }
    v
}

/// The dispatch vector a remapped hardware line lands on: lines 0-15 move to
/// vectors 32-47, clear of the reserved CPU exception vectors 0-31.
pub fn irq_vector(irq: u8) -> (r: u8)
    requires
        irq < 16,
    ensures
        r == 32 + irq,
        r >= 32,
{
    32 + irq
}

/// The primary controller's mask with one line opened: the line's bit is
/// cleared and every other line keeps its state.
pub fn enable_irq_line(mask: u8, irq: u8) -> (r: u8)
    requires
        irq < 8,
    ensures
        forall|b: u8|
            b < 8 ==> ((r & (1u8 << b) != 0) == if b == irq {
                false
            } else {
                mask & (1u8 << b) != 0
            }),
{
    proof {
        let m = mask;
        let i = irq;
        assert(forall|b: u8|
            b < 8 && i < 8 ==> #[trigger] ((m & !(1u8 << i)) & (1u8 << b)) == (if b == i {
                0u8
            } else {
                m & (1u8 << b)
            })) by (bit_vector);
    }
    mask & !(1u8 << irq)
}

/// Where the interrupt subsystem stands during bring-up.
#[derive(Clone, Copy, PartialEq, Eq, Structural, Debug)]
pub enum InterruptInitState {
    Uninitialized,
    TablesLoaded,
    ControllerRemapped,
    LinesEnabled,
}

/// The next bring-up stage; the final stage is absorbing.
pub open spec fn spec_next_init_state(s: InterruptInitState) -> InterruptInitState {
    match s {
        InterruptInitState::Uninitialized => InterruptInitState::TablesLoaded,
        InterruptInitState::TablesLoaded => InterruptInitState::ControllerRemapped,
        InterruptInitState::ControllerRemapped => InterruptInitState::LinesEnabled,
        InterruptInitState::LinesEnabled => InterruptInitState::LinesEnabled,
    }
}

/// Exec mirror of [`spec_next_init_state`].
pub fn next_init_state(s: InterruptInitState) -> (r: InterruptInitState)
    ensures
        r == spec_next_init_state(s),
{
    match s {
        InterruptInitState::Uninitialized => InterruptInitState::TablesLoaded,
        InterruptInitState::TablesLoaded => InterruptInitState::ControllerRemapped,
        InterruptInitState::ControllerRemapped => InterruptInitState::LinesEnabled,
        InterruptInitState::LinesEnabled => InterruptInitState::LinesEnabled,
    }
}

/// The page-fault diagnostic text: the banner, then the exact faulting
/// address and the exact access-violation error bits, both in hexadecimal.
/// The handler emits this text and halts; there is no resumption.
pub fn page_fault_report(faulting_address: u64, error_code: u64) -> (r: String)
    ensures
        r@ == "EXCEPTION: PAGE FAULT\nAccessed Address: "@ + seq!['0', 'x'] + hex_seq(
            faulting_address as int,
        ) + "\nError Code: "@ + seq!['0', 'x'] + hex_seq(error_code as int) + "\n"@,
{
    let mut s = String::from_str("EXCEPTION: PAGE FAULT\nAccessed Address: ");
    let addr = print_hex(faulting_address);
    append_str(&mut s, &addr);
    let mid = String::from_str("\nError Code: ");
    append_str(&mut s, &mid);
    let code = print_hex(error_code);
    append_str(&mut s, &code);
    let tail = String::from_str("\n");
    append_str(&mut s, &tail);
    proof {
        assert(s@ =~= "EXCEPTION: PAGE FAULT\nAccessed Address: "@ + seq!['0', 'x'] + hex_seq(
            faulting_address as int,
        ) + "\nError Code: "@ + seq!['0', 'x'] + hex_seq(error_code as int) + "\n"@);
    }
    s
}

/// The diagnostic line every fatal exception logs about the interrupted
/// context: instruction pointer, stack pointer and code segment.
pub fn stack_frame_report(rip: u64, rsp: u64, cs: u64) -> (r: String)
    ensures
        r@ == "  RIP: "@ + seq!['0', 'x'] + hex_seq(rip as int) + "  RSP: "@ + seq!['0', 'x']
            + hex_seq(rsp as int) + "  CS: "@ + seq!['0', 'x'] + hex_seq(cs as int) + "\n"@,
{
    let mut s = String::from_str("  RIP: ");
    let a = print_hex(rip);
    append_str(&mut s, &a);
    let m1 = String::from_str("  RSP: ");
    append_str(&mut s, &m1);
    let b = print_hex(rsp);
    append_str(&mut s, &b);
    let m2 = String::from_str("  CS: ");
    append_str(&mut s, &m2);
    let c = print_hex(cs);
    append_str(&mut s, &c);
    let tail = String::from_str("\n");
    append_str(&mut s, &tail);
    proof {
        assert(s@ =~= "  RIP: "@ + seq!['0', 'x'] + hex_seq(rip as int) + "  RSP: "@ + seq![
            '0',
            'x',
        ] + hex_seq(rsp as int) + "  CS: "@ + seq!['0', 'x'] + hex_seq(cs as int) + "\n"@);
    }
    s
}

} // verus!
