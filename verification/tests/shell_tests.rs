//! Shell and built-in command tests.

use kernel_core::builtins::{
    cmd_echo, cmd_help, cmd_history, cmd_mem, cmd_panic, cmd_tasks, cmd_uptime, CommandEffect,
};
use kernel_core::shell::{Shell, SystemInfo};
use kernel_core::text::trimmed;

fn info() -> SystemInfo {
    SystemInfo {
        free_memory: 64 * 1024 * 1024,
        free_frames: 16384,
        ready_tasks: 3,
        switch_count: 42,
        ticks: 123456,
    }
}

fn type_line(shell: &mut Shell, line: &str, info: &SystemInfo) -> (String, CommandEffect) {
    let mut out = String::new();
    let mut effect = CommandEffect::NoEffect;
    for b in line.bytes() {
        let (text, eff) = shell.handle_char(b, info);
        out.push_str(&text);
        if eff != CommandEffect::NoEffect {
            effect = eff;
        }
    }
    (out, effect)
}

#[test]
fn echo_joins_arguments() {
    let args = vec!["hello".to_string(), "shell".to_string()];
    assert_eq!(cmd_echo(&args), "hello shell\n");
    assert_eq!(cmd_echo(&Vec::new()), "\n");
}

#[test]
fn mem_report_text() {
    let args: Vec<String> = Vec::new();
    assert_eq!(
        cmd_mem(&args, 64 * 1024 * 1024, 16384),
        "Memory Information:\n  Free memory: 64 MB\n  Free frames: 16384\n  Frame size: 4096 bytes\n\n"
    );
}

#[test]
fn tasks_report_text() {
    let args: Vec<String> = Vec::new();
    assert_eq!(
        cmd_tasks(&args, 3, 42),
        "Task Information:\n  Ready tasks: 3\n  Context switches: 42\n\n"
    );
}

#[test]
fn uptime_report_text() {
    // 123456 ticks at 100 Hz: 1234 seconds = 0h 20m 34s.
    let args: Vec<String> = Vec::new();
    assert_eq!(
        cmd_uptime(&args, 123456),
        "System Uptime:\n  0h 20m 34s (123456 ticks)\n\n"
    );
}

#[test]
fn history_report_text() {
    let args: Vec<String> = Vec::new();
    let history = vec!["mem".to_string(), "echo hi".to_string()];
    assert_eq!(
        cmd_history(&args, &history),
        "Command History:\n  1: mem\n  2: echo hi\n\n"
    );
}

#[test]
fn help_lists_every_command() {
    let args: Vec<String> = Vec::new();
    let text = cmd_help(&args);
    for word in ["help", "clear", "echo", "mem", "tasks", "uptime", "history", "reboot", "panic"] {
        assert!(text.contains(word));
    }
}

#[test]
fn typing_echo_line() {
    let mut shell = Shell::new();
    let i = info();
    let (out, effect) = type_line(&mut shell, "echo hi there\n", &i);
    assert_eq!(out, "echo hi there\nhi there\npolyglot> ");
    assert_eq!(effect, CommandEffect::NoEffect);
}

#[test]
fn unknown_command_reply() {
    let mut shell = Shell::new();
    let i = info();
    let (out, _) = type_line(&mut shell, "frobnicate\n", &i);
    assert_eq!(
        out,
        "frobnicate\nUnknown command: frobnicate\nType 'help' for available commands.\npolyglot> "
    );
}

#[test]
fn backspace_edits_line() {
    let mut shell = Shell::new();
    let i = info();
    type_line(&mut shell, "ecxx", &i);
    let (bs, _) = shell.handle_char(8, &i);
    assert_eq!(bs, "\u{8} \u{8}");
    shell.handle_char(8, &i);
    let (out, _) = type_line(&mut shell, "ho one\n", &i);
    assert!(out.ends_with("one\npolyglot> "));
}

#[test]
fn backspace_on_empty_line_does_nothing() {
    let mut shell = Shell::new();
    let i = info();
    let (out, effect) = shell.handle_char(8, &i);
    assert_eq!(out, "");
    assert_eq!(effect, CommandEffect::NoEffect);
}

#[test]
fn blank_line_executes_nothing() {
    let mut shell = Shell::new();
    let i = info();
    let (out, effect) = type_line(&mut shell, "   \n", &i);
    assert_eq!(out, "   \npolyglot> ");
    assert_eq!(effect, CommandEffect::NoEffect);
    // The blank line never reaches the history.
    let (out, _) = type_line(&mut shell, "history\n", &i);
    assert_eq!(out, "history\nCommand History:\n  1: history\n\npolyglot> ");
}

#[test]
fn history_remembers_commands_in_order() {
    let mut shell = Shell::new();
    let i = info();
    type_line(&mut shell, "mem\n", &i);
    type_line(&mut shell, "echo a\n", &i);
    let (out, _) = type_line(&mut shell, "history\n", &i);
    assert!(out.contains("  1: mem\n  2: echo a\n  3: history\n"));
}

#[test]
fn effect_commands() {
    let mut shell = Shell::new();
    let i = info();
    let (_, effect) = type_line(&mut shell, "clear\n", &i);
    assert_eq!(effect, CommandEffect::ClearScreen);
    let (_, effect) = type_line(&mut shell, "reboot\n", &i);
    assert_eq!(effect, CommandEffect::Reboot);
    let (out, effect) = type_line(&mut shell, "panic\n", &i);
    assert_eq!(effect, CommandEffect::Panic);
    assert!(out.contains("Triggering kernel panic...\n"));
    let args: Vec<String> = Vec::new();
    assert_eq!(cmd_panic(&args), "Triggering kernel panic...\n");
}

#[test]
fn control_characters_are_ignored() {
    let mut shell = Shell::new();
    let i = info();
    let (out, effect) = shell.handle_char(1, &i);
    assert_eq!(out, "");
    assert_eq!(effect, CommandEffect::NoEffect);
}

#[test]
fn trim_removes_surrounding_spaces() {
    assert_eq!(trimmed(&"  mem  ".to_string()), "mem");
    assert_eq!(trimmed(&"mem".to_string()), "mem");
    assert_eq!(trimmed(&"    ".to_string()), "");
    assert_eq!(trimmed(&"a b".to_string()), "a b");
}
