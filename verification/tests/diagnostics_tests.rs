//! Formatting, interrupt-subsystem and keyboard tests.

use kernel_core::interrupts::{
    enable_irq_line, irq_vector, next_init_state, page_fault_report, pic_remap_sequence, send_eoi,
    stack_frame_report, InterruptInitState, PortWrite,
};
use kernel_core::keyboard::{print_char_serial, scancode_ascii, KeyEvent, KeyboardState};
use kernel_core::numfmt::{print_decimal, print_hex, print_size};

#[test]
fn decimal_formatting() {
    assert_eq!(print_decimal(0), "0");
    assert_eq!(print_decimal(7), "7");
    assert_eq!(print_decimal(1234567890), "1234567890");
    assert_eq!(print_decimal(u64::MAX), "18446744073709551615");
}

#[test]
fn hex_formatting() {
    assert_eq!(print_hex(0), "0x0");
    assert_eq!(print_hex(0x200000), "0x200000");
    assert_eq!(print_hex(0xDEADBEEF), "0xDEADBEEF");
    assert_eq!(print_hex(u64::MAX), "0xFFFFFFFFFFFFFFFF");
}

#[test]
fn size_formatting() {
    assert_eq!(print_size(0), "0 B");
    assert_eq!(print_size(1023), "1023 B");
    assert_eq!(print_size(1024), "1 KB");
    assert_eq!(print_size(64 * 1024 * 1024), "64 MB");
    assert_eq!(print_size(1024 * 1024 * 1024), "1 GB");
    assert_eq!(print_size(3 * 1024 * 1024 * 1024 + 5), "3 GB");
}

#[test]
fn console_line() {
    assert_eq!(kernel_core::text::println("ready"), "ready\n");
}

#[test]
fn page_fault_reports_exact_address_and_flags() {
    // The report carries the exact faulting address and error bits before
    // the processor halts.
    let r = page_fault_report(0xDEAD1000, 0x2);
    assert_eq!(
        r,
        "EXCEPTION: PAGE FAULT\nAccessed Address: 0xDEAD1000\nError Code: 0x2\n"
    );
    let frame = stack_frame_report(0x1111, 0x2222, 0x8);
    assert_eq!(frame, "  RIP: 0x1111  RSP: 0x2222  CS: 0x8\n");
}

#[test]
fn controller_remap_handshake() {
    let seq = pic_remap_sequence();
    assert_eq!(seq.len(), 18);
    // Start words to both chips.
    assert_eq!(seq[0], PortWrite { port: 0x20, value: 0x11 });
    assert_eq!(seq[2], PortWrite { port: 0xA0, value: 0x11 });
    // Vector offsets: lines land at 32 and 40.
    assert_eq!(seq[4], PortWrite { port: 0x21, value: 0x20 });
    assert_eq!(seq[6], PortWrite { port: 0xA1, value: 0x28 });
    // Cascade wiring and mode.
    assert_eq!(seq[8], PortWrite { port: 0x21, value: 4 });
    assert_eq!(seq[10], PortWrite { port: 0xA1, value: 2 });
    assert_eq!(seq[12], PortWrite { port: 0x21, value: 1 });
    assert_eq!(seq[14], PortWrite { port: 0xA1, value: 1 });
    // All lines masked until drivers open theirs.
    assert_eq!(seq[16], PortWrite { port: 0x21, value: 0xFF });
    assert_eq!(seq[17], PortWrite { port: 0xA1, value: 0xFF });
}

#[test]
fn end_of_interrupt_acknowledgment() {
    assert_eq!(send_eoi(0), vec![PortWrite { port: 0x20, value: 0x20 }]);
    assert_eq!(
        send_eoi(8),
        vec![
            PortWrite { port: 0xA0, value: 0x20 },
            PortWrite { port: 0x20, value: 0x20 },
        ]
    );
}

#[test]
fn vectors_and_masks() {
    assert_eq!(irq_vector(0), 32);
    assert_eq!(irq_vector(1), 33);
    assert_eq!(irq_vector(15), 47);
    // Opening the timer line clears bit zero; opening the keyboard line
    // clears bit one; other lines keep their state.
    assert_eq!(enable_irq_line(0xFF, 0), 0xFE);
    assert_eq!(enable_irq_line(0xFF, 1), 0xFD);
    assert_eq!(enable_irq_line(0xFE, 1), 0xFC);
}

#[test]
fn bring_up_state_machine() {
    let s0 = InterruptInitState::Uninitialized;
    let s1 = next_init_state(s0);
    let s2 = next_init_state(s1);
    let s3 = next_init_state(s2);
    assert_eq!(s1, InterruptInitState::TablesLoaded);
    assert_eq!(s2, InterruptInitState::ControllerRemapped);
    assert_eq!(s3, InterruptInitState::LinesEnabled);
    assert_eq!(next_init_state(s3), InterruptInitState::LinesEnabled);
}

#[test]
fn scancode_translation() {
    assert_eq!(scancode_ascii(30, false), b'a');
    assert_eq!(scancode_ascii(30, true), b'A');
    assert_eq!(scancode_ascii(2, false), b'1');
    assert_eq!(scancode_ascii(2, true), b'!');
    assert_eq!(scancode_ascii(57, false), b' ');
    assert_eq!(scancode_ascii(28, false), b'\n');
    assert_eq!(scancode_ascii(0, false), 0);
    assert_eq!(scancode_ascii(58, false), 0);
}

#[test]
fn modifier_state_machine() {
    let mut kb = KeyboardState::new();
    assert_eq!(kb.handle_scancode(30), KeyEvent::Char(b'a'));
    // Shift press, letter, shift release.
    assert_eq!(kb.handle_scancode(0x2A), KeyEvent::Nothing);
    assert!(kb.shift);
    assert_eq!(kb.handle_scancode(30), KeyEvent::Char(b'A'));
    assert_eq!(kb.handle_scancode(0xAA), KeyEvent::Nothing);
    assert!(!kb.shift);
    // Control press makes `c` the interrupt combination.
    assert_eq!(kb.handle_scancode(0x1D), KeyEvent::Nothing);
    assert!(kb.ctrl);
    assert_eq!(kb.handle_scancode(46), KeyEvent::ControlC);
    assert_eq!(kb.handle_scancode(0x9D), KeyEvent::Nothing);
    assert_eq!(kb.handle_scancode(46), KeyEvent::Char(b'c'));
    // Release codes and dead keys deliver nothing.
    assert_eq!(kb.handle_scancode(0x80 | 30), KeyEvent::Nothing);
    assert_eq!(kb.handle_scancode(58), KeyEvent::Nothing);
}

#[test]
fn serial_echo_of_decoded_bytes() {
    assert_eq!(print_char_serial(b'\n'), "\n");
    assert_eq!(print_char_serial(8), "\u{8} \u{8}");
    assert_eq!(print_char_serial(b'x'), "x");
    assert_eq!(print_char_serial(1), "");
}
