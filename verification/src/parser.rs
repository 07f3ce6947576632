//! Shell command-line parser: splits a line into arguments, honouring
//! double quotes and backslash escapes.

use vstd::prelude::*;
use vstd::string::StrSliceExecFns;
use crate::text::{push_char, lemma_deep_view_push};

verus! {

/// What a backslash followed by `e` contributes to the current argument.
pub open spec fn escape_expansion(e: char) -> Seq<char> {
    if e == 'n' {
        seq!['\n']
    } else if e == 't' {
        seq!['\t']
    } else if e == 'r' {
        seq!['\r']
    } else if e == '\\' {
        seq!['\\']
    } else if e == '"' {
        seq!['"']
    } else {
        seq!['\\', e]
    }
}

/// The parser automaton from position `i` with quoting flag `inq`, the
/// argument built so far and the arguments already finished. A double quote
/// toggles quoting; space and tab outside quotes finish the current argument;
/// a backslash with a character after it expands as an escape; anything else
/// joins the current argument. A trailing unfinished argument is kept.
pub open spec fn parse_from(
    s: Seq<char>,
    i: int,
    inq: bool,
    cur: Seq<char>,
    acc: Seq<Seq<char>>,
) -> Seq<Seq<char>>
    decreases s.len() - i,
{
    if i < 0 || i >= s.len() {
        if cur.len() > 0 {
            acc.push(cur)
        } else {
            acc
        }
    } else {
        let c = s[i];
        if c == '"' {
            parse_from(s, i + 1, !inq, cur, acc)
        } else if (c == ' ' || c == '\t') && !inq {
            if cur.len() > 0 {
                parse_from(s, i + 1, inq, seq![], acc.push(cur))
            } else {
                parse_from(s, i + 1, inq, cur, acc)
            }
        } else if c == '\\' && i + 1 < s.len() {
            parse_from(s, i + 2, inq, cur + escape_expansion(s[i + 1]), acc)
        } else {
            parse_from(s, i + 1, inq, cur.push(c), acc)
        }
    }
}

/// The arguments a command line parses to.
pub open spec fn parse_spec(s: Seq<char>) -> Seq<Seq<char>> {
    parse_from(s, 0, false, seq![], seq![])
}

/// Parse a command line into its arguments.
pub fn parse_command(input: &str) -> (args: Vec<String>)
    ensures
        args.deep_view() == parse_spec(input@),
{
    let len = input.unicode_len();
    let mut args: Vec<String> = Vec::new();
    let mut current = String::new();
    let mut in_quotes = false;
    let mut i: usize = 0;
    proof {
        assert(args.deep_view() =~= Seq::<Seq<char>>::empty());
    }
    while i < len
        invariant
            len == input@.len(),
            i <= len,
            parse_spec(input@) == parse_from(
                input@,
                i as int,
                in_quotes,
                current@,
                args.deep_view(),
            ),
        decreases len - i,
    {
        let ghost pre_args = args;
        let ghost pre_cur = current@;
        let c = input.get_char(i);
        if c == '"' {
            in_quotes = !in_quotes;
            i = i + 1;
        } else if (c == ' ' || c == '\t') && !in_quotes {
            if !current.as_str().is_empty() {
                args.push(current);
                current = String::new();
                proof {
                    lemma_deep_view_push(pre_args, args, args@.last());
                }
            }
            i = i + 1;
        } else if c == '\\' && i + 1 < len {
            let e = input.get_char(i + 1);
            match e {
                'n' => push_char(&mut current, '\n'),
                't' => push_char(&mut current, '\t'),
                'r' => push_char(&mut current, '\r'),
                '\\' => push_char(&mut current, '\\'),
                '"' => push_char(&mut current, '"'),
                other => {
                    push_char(&mut current, '\\');
                    push_char(&mut current, other);
                },
            }
            proof {
                assert(current@ =~= pre_cur + escape_expansion(input@[i as int + 1]));
            }
            i = i + 2;
        } else {
            push_char(&mut current, c);
            i = i + 1;
        }
    }
    if !current.as_str().is_empty() {
        let ghost pre_args = args;
        args.push(current);
        proof {
            lemma_deep_view_push(pre_args, args, args@.last());
        }
    }
    args
}

} // verus!
