//! Built-in shell commands. Each command computes the text it shows; the
//! console prints it outside the library. Commands that act on the machine
//! rather than print (clearing the screen, rebooting, panicking) report the
//! action as an effect value.

use vstd::prelude::*;
use crate::numfmt::{dec_seq, size_seq, print_decimal, print_size};
use crate::text::{append_str, push_char};

verus! {

/// A machine action a command asks for, beyond printing text.
#[derive(Clone, Copy, PartialEq, Eq, Structural, Debug)]
pub enum CommandEffect {
    NoEffect,
    ClearScreen,
    Reboot,
    Panic,
}

/// The help text, one line per command.
pub open spec fn help_text() -> Seq<char> {
    "Available commands:\n  help      - Show this help message\n  clear     - Clear the screen\n  echo      - Print arguments to screen\n  mem       - Show memory information\n  tasks     - Show task information\n  uptime    - Show system uptime\n  history   - Show command history\n  reboot    - Restart the system\n  panic     - Trigger a kernel panic (for testing)\n\n"@
}

/// Show the available commands.
pub fn cmd_help(_args: &Vec<String>) -> (r: String)
    ensures
        r@ == help_text(),
{
    String::from_str(
        "Available commands:\n  help      - Show this help message\n  clear     - Clear the screen\n  echo      - Print arguments to screen\n  mem       - Show memory information\n  tasks     - Show task information\n  uptime    - Show system uptime\n  history   - Show command history\n  reboot    - Restart the system\n  panic     - Trigger a kernel panic (for testing)\n\n",
    )
}

/// Clear the screen.
pub fn cmd_clear(_args: &Vec<String>) -> (r: CommandEffect)
    ensures
        r == CommandEffect::ClearScreen,
{
    CommandEffect::ClearScreen
}

/// The arguments joined with single spaces.
pub open spec fn join_spaced(args: Seq<Seq<char>>) -> Seq<char>
    decreases args.len(),
{
    if args.len() == 0 {
        seq![]
    } else if args.len() == 1 {
        args[0]
    } else {
        join_spaced(args.drop_last()) + seq![' '] + args.last()
    }
}

/// The text `echo` prints: its arguments joined with spaces, then a line
/// break.
pub open spec fn echo_text(args: Seq<Seq<char>>) -> Seq<char> {
    join_spaced(args) + seq!['\n']
}

/// Print the arguments back.
pub fn cmd_echo(args: &Vec<String>) -> (r: String)
    ensures
        r@ == echo_text(args.deep_view()),
{
    let mut s = String::new();
    let mut i: usize = 0;
    while i < args.len()
        invariant
            i <= args@.len(),
            s@ == join_spaced(args.deep_view().take(i as int)),
        decreases args@.len() - i,
    {
        if i > 0 {
            push_char(&mut s, ' ');
        }
        append_str(&mut s, &args[i]);
        proof {
            let pre = args.deep_view().take(i as int);
            let post = args.deep_view().take(i + 1);
            assert(post.drop_last() =~= pre);
            assert(post.last() == args.deep_view()[i as int]);
            if i == 0 {
                assert(s@ =~= join_spaced(post));
            }
        }
        i = i + 1;
    }
    proof {
        assert(args.deep_view().take(args@.len() as int) =~= args.deep_view());
    }
    push_char(&mut s, '\n');
    proof {
        assert(s@ =~= echo_text(args.deep_view()));
    }
    s
}

/// The memory report for the given free-memory figures.
pub open spec fn mem_text(free_memory: u64, free_frames: u64) -> Seq<char> {
    "Memory Information:\n  Free memory: "@ + size_seq(free_memory as int)
        + "\n  Free frames: "@ + dec_seq(free_frames as int) + "\n  Frame size: "@ + dec_seq(
        4096,
    ) + " bytes\n\n"@
}

/// Show the memory information the allocator reports.
pub fn cmd_mem(_args: &Vec<String>, free_memory: u64, free_frames: u64) -> (r: String)
    ensures
        r@ == mem_text(free_memory, free_frames),
{
    let mut s = String::from_str("Memory Information:\n  Free memory: ");
    let fm = print_size(free_memory);
    append_str(&mut s, &fm);
    let t1 = String::from_str("\n  Free frames: ");
    append_str(&mut s, &t1);
    let ff = print_decimal(free_frames);
    append_str(&mut s, &ff);
    let t2 = String::from_str("\n  Frame size: ");
    append_str(&mut s, &t2);
    let fs = print_decimal(4096);
    append_str(&mut s, &fs);
    let t3 = String::from_str(" bytes\n\n");
    append_str(&mut s, &t3);
    proof {
        assert(s@ =~= mem_text(free_memory, free_frames));
    }
    s
}

/// The task report for the given scheduler statistics.
pub open spec fn tasks_text(ready_tasks: u64, switches: u64) -> Seq<char> {
    "Task Information:\n  Ready tasks: "@ + dec_seq(ready_tasks as int)
        + "\n  Context switches: "@ + dec_seq(switches as int) + "\n\n"@
}

/// Show the scheduler statistics.
pub fn cmd_tasks(_args: &Vec<String>, ready_tasks: u64, switches: u64) -> (r: String)
    ensures
        r@ == tasks_text(ready_tasks, switches),
{
    let mut s = String::from_str("Task Information:\n  Ready tasks: ");
    let rt = print_decimal(ready_tasks);
    append_str(&mut s, &rt);
    let t1 = String::from_str("\n  Context switches: ");
    append_str(&mut s, &t1);
    let sw = print_decimal(switches);
    append_str(&mut s, &sw);
    let t2 = String::from_str("\n\n");
    append_str(&mut s, &t2);
    proof {
        assert(s@ =~= tasks_text(ready_tasks, switches));
    }
    s
}

/// The uptime report at the given tick count: whole hours, leftover minutes
/// and seconds at the 100 Hz tick rate, and the raw count.
pub open spec fn uptime_text(ticks: u64) -> Seq<char> {
    "System Uptime:\n  "@ + dec_seq(ticks as int / 100 / 60 / 60) + "h "@ + dec_seq(
        (ticks as int / 100 / 60) % 60,
    ) + "m "@ + dec_seq((ticks as int / 100) % 60) + "s ("@ + dec_seq(ticks as int)
        + " ticks)\n\n"@
}

/// Show the system uptime for the given tick count.
pub fn cmd_uptime(_args: &Vec<String>, ticks: u64) -> (r: String)
    ensures
        r@ == uptime_text(ticks),
{
    let seconds = ticks / 100;
    let minutes = seconds / 60;
    let hours = minutes / 60;
    let mut s = String::from_str("System Uptime:\n  ");
    let h = print_decimal(hours);
    append_str(&mut s, &h);
    let t1 = String::from_str("h ");
    append_str(&mut s, &t1);
    let m = print_decimal(minutes % 60);
    append_str(&mut s, &m);
    let t2 = String::from_str("m ");
    append_str(&mut s, &t2);
    let sec = print_decimal(seconds % 60);
    append_str(&mut s, &sec);
    let t3 = String::from_str("s (");
    append_str(&mut s, &t3);
    let tk = print_decimal(ticks);
    append_str(&mut s, &tk);
    let t4 = String::from_str(" ticks)\n\n");
    append_str(&mut s, &t4);
    proof {
        assert(s@ =~= uptime_text(ticks));
    }
    s
}

/// The numbered history lines for the first `n` entries.
pub open spec fn history_lines(h: Seq<Seq<char>>, n: int) -> Seq<char>
    decreases n,
{
    if n <= 0 {
        seq![]
    } else {
        history_lines(h, n - 1) + seq![' ', ' '] + dec_seq(n) + seq![':', ' '] + h[n - 1]
            + seq!['\n']
    }
}

/// The history report: every remembered command, numbered from one.
pub open spec fn history_text(h: Seq<Seq<char>>) -> Seq<char> {
    "Command History:\n"@ + history_lines(h, h.len() as int) + "\n"@
}

/// Show the command history.
pub fn cmd_history(_args: &Vec<String>, history: &Vec<String>) -> (r: String)
    requires
        history@.len() < u64::MAX,
    ensures
        r@ == history_text(history.deep_view()),
{
    let mut s = String::from_str("Command History:\n");
    let ghost header = s@;
    let mut i: usize = 0;
    while i < history.len()
        invariant
            i <= history@.len(),
            history@.len() < u64::MAX,
            s@ == header + history_lines(history.deep_view(), i as int),
        decreases history@.len() - i,
    {
        push_char(&mut s, ' ');
        push_char(&mut s, ' ');
        let num = print_decimal((i as u64) + 1);
        append_str(&mut s, &num);
        push_char(&mut s, ':');
        push_char(&mut s, ' ');
        append_str(&mut s, &history[i]);
        push_char(&mut s, '\n');
        proof {
            assert(s@ =~= header + history_lines(history.deep_view(), i + 1));
        }
        i = i + 1;
    }
    let tail = String::from_str("\n");
    append_str(&mut s, &tail);
    proof {
        assert(s@ =~= history_text(history.deep_view()));
    }
    s
}

/// The line `panic` shows before the kernel panics.
pub open spec fn panic_text() -> Seq<char> {
    "Triggering kernel panic...\n"@
}

/// Announce the deliberate kernel panic; the caller performs it.
pub fn cmd_panic(_args: &Vec<String>) -> (r: String)
    ensures
        r@ == panic_text(),
{
    String::from_str("Triggering kernel panic...\n")
}

} // verus!
