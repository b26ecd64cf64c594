//! Inline-shell wrapper handling: `sh -c`, `bash -c`, `zsh -c`.
//!
//! The token following `-c` is the inner command line; exactly one layer of
//! matching surrounding single or double quotes is stripped from it (the
//! tokenizer keeps quotes verbatim inside tokens).

use vstd::prelude::*;
use crate::command::Command;
use crate::strutil::{spec_trim, str_eq, substring, trim_str};
use crate::wrapper::{UnwrapModel, UnwrapResult};

verus! {

/// One layer of matching surrounding quotes stripped, after trimming. A
/// lone quote character is not a surrounding pair.
pub open spec fn spec_strip_quotes(s: Seq<char>) -> Seq<char> {
    let t = spec_trim(s);
    if t.len() >= 2 && ((t[0] == '\'' && t.last() == '\'') || (t[0] == '"' && t.last() == '"')) {
        t.subrange(1, t.len() - 1)
    } else {
        t
    }
}

/// Strip surrounding single or double quotes from a string.
pub fn strip_quotes(s: &str) -> (r: String)
    ensures
        r@ == spec_strip_quotes(s@),
{
    let t = trim_str(s);
    let tlen = t.as_str().unicode_len();
    if tlen >= 2 {
        let t0 = t.as_str().get_char(0);
        let tl = t.as_str().get_char(tlen - 1);
        proof {
            assert(t@.last() == t@[tlen - 1]);
        }
        if (t0 == '\'' && tl == '\'') || (t0 == '"' && tl == '"') {
            return substring(t.as_str(), 1, tlen - 1);
        }
    }
    t
}

/// Is this the name of an inline shell?
pub open spec fn spec_shell_name(n: Seq<char>) -> bool {
    n == "sh"@ || n == "bash"@ || n == "zsh"@
}

/// The position of the first `-c` token.
pub open spec fn c_flag_pos(args: Seq<Seq<char>>, i: int) -> Option<int>
    decreases args.len() - i,
{
    if i < 0 || i >= args.len() {
        None
    } else if args[i] == "-c"@ {
        Some(i)
    } else {
        c_flag_pos(args, i + 1)
    }
}

/// Unwrapping an inline shell: the token after the first `-c`, with one
/// layer of surrounding quotes stripped, is the inner command. No `-c`, or
/// nothing after it, means no match.
pub open spec fn spec_unwrap_shell(name: Seq<char>, args: Seq<Seq<char>>) -> Option<UnwrapModel> {
    if args.len() < 2 {
        None
    } else {
        match c_flag_pos(args, 0) {
            Some(p) => if p + 1 >= args.len() {
                None
            } else {
                Some(
                    UnwrapModel {
                        inner: Some(spec_strip_quotes(args[p + 1])),
                        host: None,
                        wrapper: name,
                    },
                )
            },
            None => None,
        }
    }
}

/// Check if this is a shell `-c` command and unwrap it.
pub fn unwrap(cmd: &Command) -> (r: Option<UnwrapResult>)
    ensures
        r.deep_view() == if spec_shell_name(cmd@.name) {
            spec_unwrap_shell(cmd@.name, cmd@.args)
        } else {
            None
        },
{
    let name = cmd.name.as_str();
    if !(str_eq(name, "sh") || str_eq(name, "bash") || str_eq(name, "zsh")) {
        return None;
    }
    if cmd.args.len() < 2 {
        return None;
    }
    let ghost av = cmd.args.deep_view();
    let mut i: usize = 0;
    let mut sep: Option<usize> = None;
    while i < cmd.args.len() && sep.is_none()
        invariant
            i <= cmd.args@.len(),
            av == cmd.args.deep_view(),
            match sep {
                None => c_flag_pos(av, 0) == c_flag_pos(av, i as int),
                Some(p) => c_flag_pos(av, 0) == Some(p as int) && p < cmd.args@.len(),
            },
        decreases cmd.args@.len() - i, (if sep is None { 1int } else { 0int }),
    {
        proof {
            assert(av[i as int] == cmd.args@[i as int]@);
        }
        if str_eq(cmd.args[i].as_str(), "-c") {
            sep = Some(i);
        } else {
            i += 1;
        }
    }
    match sep {
        Some(p) => {
            if p + 1 >= cmd.args.len() {
                return None;
            }
            proof {
                assert(av[p + 1] == cmd.args@[p + 1]@);
            }
            let inner = strip_quotes(cmd.args[p + 1].as_str());
            let wrapper = cmd.name.clone();
            Some(UnwrapResult { inner_command: Some(inner), host: None, wrapper })
        },
        None => None,
    }
}

} // verus!
