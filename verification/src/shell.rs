//! Interactive shell: the input line, the command history, and command
//! dispatch. The shell consumes already-decoded input bytes and produces the
//! text the console shows plus the machine action the command asks for; the
//! keyboard driver and the console live outside the library.

use vstd::prelude::*;
use crate::builtins::{
    cmd_clear, cmd_echo, cmd_help, cmd_history, cmd_mem, cmd_panic, cmd_tasks, cmd_uptime,
    echo_text, help_text, history_text, mem_text, panic_text, tasks_text, uptime_text,
    CommandEffect,
};
use crate::parser::{parse_command, parse_spec};
use crate::text::{append_str, lemma_deep_view_push, push_char, spec_trimmed, trimmed};

verus! {

/// A snapshot of the system figures the informational commands report.
#[derive(Clone, Copy, PartialEq, Eq, Structural, Debug)]
pub struct SystemInfo {
    pub free_memory: u64,
    pub free_frames: u64,
    pub ready_tasks: u64,
    pub switch_count: u64,
    pub ticks: u64,
}

/// The reply to an unknown command word.
pub open spec fn unknown_text(cmd: Seq<char>) -> Seq<char> {
    "Unknown command: "@ + cmd + "\nType 'help' for available commands.\n"@
}

/// What one command line replies: the text shown and the machine action
/// asked for. `history` is the history as the command sees it, with the line
/// itself already remembered.
pub open spec fn spec_command_reply(
    line: Seq<char>,
    info: SystemInfo,
    history: Seq<Seq<char>>,
) -> (Seq<char>, CommandEffect) {
    let args = parse_spec(line);
    if args.len() == 0 {
        (seq![], CommandEffect::NoEffect)
    } else {
        let cmd = args[0];
        let rest = args.drop_first();
        if cmd == "help"@ {
            (help_text(), CommandEffect::NoEffect)
        } else if cmd == "clear"@ {
            (seq![], CommandEffect::ClearScreen)
        } else if cmd == "echo"@ {
            (echo_text(rest), CommandEffect::NoEffect)
        } else if cmd == "mem"@ {
            (mem_text(info.free_memory, info.free_frames), CommandEffect::NoEffect)
        } else if cmd == "tasks"@ {
            (tasks_text(info.ready_tasks, info.switch_count), CommandEffect::NoEffect)
        } else if cmd == "uptime"@ {
            (uptime_text(info.ticks), CommandEffect::NoEffect)
        } else if cmd == "history"@ {
            (history_text(history), CommandEffect::NoEffect)
        } else if cmd == "reboot"@ {
            (seq![], CommandEffect::Reboot)
        } else if cmd == "panic"@ {
            (panic_text(), CommandEffect::Panic)
        } else {
            (unknown_text(cmd), CommandEffect::NoEffect)
        }
    }
}

/// Shell state: the line being typed and the lines already executed.
pub struct Shell {
    input_buffer: String,
    history: Vec<String>,
    prompt: &'static str,
}

impl Shell {
    /// The line being typed.
    pub closed spec fn buffer(&self) -> Seq<char> {
        self.input_buffer@
    }

    /// The commands executed so far, oldest first.
    pub closed spec fn spec_history(&self) -> Seq<Seq<char>> {
        self.history.deep_view()
    }

    /// The prompt shown after every command.
    pub closed spec fn spec_prompt(&self) -> Seq<char> {
        self.prompt@
    }

    /// A fresh shell: empty line, empty history, the fixed prompt.
    pub fn new() -> (r: Self)
        ensures
            r.buffer() =~= Seq::<char>::empty(),
            r.spec_history() =~= Seq::<Seq<char>>::empty(),
            r.spec_prompt() == "polyglot> "@,
    {
        let r = Shell { input_buffer: String::new(), history: Vec::new(), prompt: "polyglot> " };
        proof {
            assert(r.spec_history() =~= Seq::<Seq<char>>::empty());
        }
        r
    }

    /// Start the shell. The opening banner is drawn by the console outside
    /// the library; the shell itself starts from its fresh state unchanged.
    pub fn run(&mut self)
        ensures
            *final(self) == *old(self),
    {
    }

    /// Number of commands remembered so far.
    pub fn history_len(&self) -> (r: usize)
        ensures
            r == self.spec_history().len(),
    {
        self.history.len()
    }

    /// The prompt text to show.
    pub fn show_prompt(&self) -> (r: String)
        ensures
            r@ == self.spec_prompt(),
    {
        String::from_str(self.prompt)
    }

    /// Execute one command line against the given system snapshot and this
    /// shell's history; returns the reply text and the action asked for.
    pub fn execute_command(&self, command: &String, info: &SystemInfo) -> (r: (
        String,
        CommandEffect,
    ))
        requires
            self.spec_history().len() < u64::MAX,
        ensures
            (r.0@, r.1) == spec_command_reply(command@, *info, self.spec_history()),
    {
        let args = parse_command(command.as_str());
        if args.len() == 0 {
            return (String::new(), CommandEffect::NoEffect);
        }
        let mut rest: Vec<String> = Vec::new();
        let mut i: usize = 1;
        while i < args.len()
            invariant
                1 <= i <= args@.len(),
                rest.deep_view() =~= args.deep_view().subrange(1, i as int),
            decreases args@.len() - i,
        {
            let ghost pre = rest;
            rest.push(args[i].clone());
            proof {
                lemma_deep_view_push(pre, rest, args@[i as int]);
                assert(rest.deep_view() =~= args.deep_view().subrange(1, i + 1));
            }
            i = i + 1;
        }
        proof {
            assert(args.deep_view().subrange(1, args@.len() as int) =~= args.deep_view()
                .drop_first());
        }
        let cmd = &args[0];
        proof {
            assert(args.deep_view()[0] == args@[0]@);
        }
        if cmd.eq(&String::from_str("help")) {
            (cmd_help(&rest), CommandEffect::NoEffect)
        } else if cmd.eq(&String::from_str("clear")) {
            (String::new(), cmd_clear(&rest))
        } else if cmd.eq(&String::from_str("echo")) {
            (cmd_echo(&rest), CommandEffect::NoEffect)
        } else if cmd.eq(&String::from_str("mem")) {
            (cmd_mem(&rest, info.free_memory, info.free_frames), CommandEffect::NoEffect)
        } else if cmd.eq(&String::from_str("tasks")) {
            (cmd_tasks(&rest, info.ready_tasks, info.switch_count), CommandEffect::NoEffect)
        } else if cmd.eq(&String::from_str("uptime")) {
            (cmd_uptime(&rest, info.ticks), CommandEffect::NoEffect)
        } else if cmd.eq(&String::from_str("history")) {
            (cmd_history(&rest, &self.history), CommandEffect::NoEffect)
        } else if cmd.eq(&String::from_str("reboot")) {
            (String::new(), CommandEffect::Reboot)
        } else if cmd.eq(&String::from_str("panic")) {
            (cmd_panic(&rest), CommandEffect::Panic)
        } else {
            let mut out = String::from_str("Unknown command: ");
            append_str(&mut out, cmd);
            let tail = String::from_str("\nType 'help' for available commands.\n");
            append_str(&mut out, &tail);
            proof {
                assert(out@ =~= unknown_text(args.deep_view()[0]));
            }
            (out, CommandEffect::NoEffect)
        }
    }

    /// Feed one decoded input byte to the shell.
    ///
    /// A line break executes the trimmed line (a line of only spaces executes
    /// nothing): the line joins the history, the buffer empties, and the
    /// console shows the line break, the command's reply and the prompt. A
    /// backspace rubs out the last character if there is one. A printable
    /// byte joins the line and echoes itself. Everything else is ignored.
    pub fn handle_char(&mut self, c: u8, info: &SystemInfo) -> (r: (String, CommandEffect))
        requires
            old(self).spec_history().len() < u64::MAX - 1,
        ensures
            final(self).spec_prompt() == old(self).spec_prompt(),
            (c == 10 || c == 13) ==> {
                &&& final(self).buffer() =~= Seq::<char>::empty()
                &&& (if spec_trimmed(old(self).buffer()).len() > 0 {
                    let line = spec_trimmed(old(self).buffer());
                    let reply = spec_command_reply(
                        line,
                        *info,
                        old(self).spec_history().push(line),
                    );
                    &&& final(self).spec_history() == old(self).spec_history().push(line)
                    &&& r.0@ == seq!['\n'] + reply.0 + old(self).spec_prompt()
                    &&& r.1 == reply.1
                } else {
                    &&& final(self).spec_history() == old(self).spec_history()
                    &&& r.0@ == seq!['\n'] + old(self).spec_prompt()
                    &&& r.1 == CommandEffect::NoEffect
                })
            },
            c == 8 ==> {
                &&& final(self).spec_history() == old(self).spec_history()
                &&& r.1 == CommandEffect::NoEffect
                &&& (if old(self).buffer().len() > 0 {
                    &&& final(self).buffer() == old(self).buffer().drop_last()
                    &&& r.0@ == seq!['\u{8}', ' ', '\u{8}']
                } else {
                    &&& final(self).buffer() == old(self).buffer()
                    &&& r.0@ =~= Seq::<char>::empty()
                })
            },
            (32 <= c <= 126) ==> {
                &&& final(self).spec_history() == old(self).spec_history()
                &&& final(self).buffer() == old(self).buffer().push(c as char)
                &&& r.0@ == seq![c as char]
                &&& r.1 == CommandEffect::NoEffect
            },
            !(c == 10 || c == 13 || c == 8 || (32 <= c <= 126)) ==> {
                &&& *final(self) == *old(self)
                &&& r.0@ =~= Seq::<char>::empty()
                &&& r.1 == CommandEffect::NoEffect
            },
    {
        if c == 10 || c == 13 {
            proof {
                reveal_strlit("\n");
            }
            let command = trimmed(&self.input_buffer);
            let mut out = String::from_str("\n");
            let mut effect = CommandEffect::NoEffect;
            if !command.as_str().is_empty() {
                let ghost pre = self.history;
                self.history.push(command.clone());
                proof {
                    lemma_deep_view_push(pre, self.history, command);
                }
                let reply = self.execute_command(&command, info);
                append_str(&mut out, &reply.0);
                effect = reply.1;
            }
            self.input_buffer = String::new();
            let p = self.show_prompt();
            append_str(&mut out, &p);
            proof {
                assert(self.buffer() =~= Seq::<char>::empty());
            }
            (out, effect)
        } else if c == 8 {
            if !self.input_buffer.as_str().is_empty() {
                let kept = self.input_buffer.as_str().substring_char(
                    0,
                    self.input_buffer.as_str().unicode_len() - 1,
                );
                let shorter = String::from_str(kept);
                self.input_buffer = shorter;
                let mut out = String::new();
                push_char(&mut out, '\u{8}');
                push_char(&mut out, ' ');
                push_char(&mut out, '\u{8}');
                proof {
                    assert(self.buffer() =~= old(self).buffer().drop_last());
                    assert(out@ =~= seq!['\u{8}', ' ', '\u{8}']);
                }
                (out, CommandEffect::NoEffect)
            } else {
                (String::new(), CommandEffect::NoEffect)
            }
        } else if 32 <= c && c <= 126 {
            push_char(&mut self.input_buffer, c as char);
            let mut out = String::new();
            push_char(&mut out, c as char);
            proof {
                assert(out@ =~= seq![c as char]);
            }
            (out, CommandEffect::NoEffect)
        } else {
            (String::new(), CommandEffect::NoEffect)
        }
    }
}

} // verus!
