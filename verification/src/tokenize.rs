//! The bash-line tokenizer: splits a raw command line into simple commands.
//!
//! The grammar handled here is deliberately far narrower than bash: no
//! expansion, no substitution, no escapes — this library classifies
//! commands, it does not interpret them. Tokens are separated by blanks; a
//! single- or double-quoted region is kept verbatim inside its token
//! (quotes included); the characters `|`, `&`, `;` and newline end the
//! current simple command, and runs of them collapse; tokens of the form
//! `NAME=VALUE` standing before the command name are environment-assignment
//! prefixes and are skipped. An unterminated quote is a diagnostic failure.

use vstd::prelude::*;
use crate::command::{CmdModel, Command};
use crate::strutil::{contains_char, join_tokens, spec_join};

verus! {

/// Characters that end a simple command.
pub open spec fn is_separator(c: char) -> bool {
    c == '|' || c == '&' || c == ';' || c == '\n'
}

/// Characters that end a token.
pub open spec fn is_blank(c: char) -> bool {
    c == ' ' || c == '\t' || c == '\r'
}

/// The scanner's state: finished commands (as token lists), the tokens of
/// the command being read, the token being read, and the quote character of
/// the quoted region being read, if any.
#[verifier::ext_equal]
pub ghost struct ScanState {
    pub cmds: Seq<Seq<Seq<char>>>,
    pub toks: Seq<Seq<char>>,
    pub tok: Seq<char>,
    pub quote: Option<char>,
}

pub open spec fn scan_init() -> ScanState {
    ScanState { cmds: Seq::empty(), toks: Seq::empty(), tok: Seq::empty(), quote: None }
}

/// End the current token, if one is open.
pub open spec fn flush_tok(st: ScanState) -> ScanState {
    if st.tok.len() > 0 {
        ScanState { toks: st.toks.push(st.tok), tok: Seq::empty(), ..st }
    } else {
        st
    }
}

/// End the current simple command, if it has any token.
pub open spec fn flush_cmd(st: ScanState) -> ScanState {
    let st1 = flush_tok(st);
    if st1.toks.len() > 0 {
        ScanState { cmds: st1.cmds.push(st1.toks), toks: Seq::empty(), ..st1 }
    } else {
        st1
    }
}

/// One scanner step.
pub open spec fn scan_step(st: ScanState, c: char) -> ScanState {
    match st.quote {
        Some(q) => if c == q {
            ScanState { tok: st.tok.push(c), quote: None, ..st }
        } else {
            ScanState { tok: st.tok.push(c), ..st }
        },
        None => if c == '\'' || c == '"' {
            ScanState { tok: st.tok.push(c), quote: Some(c), ..st }
        } else if is_separator(c) {
            flush_cmd(st)
        } else if is_blank(c) {
            flush_tok(st)
        } else {
            ScanState { tok: st.tok.push(c), ..st }
        },
    }
}

/// Run the scanner from position `i` onward, starting in state `st`.
pub open spec fn scan_from(s: Seq<char>, i: int, st: ScanState) -> ScanState
    decreases s.len() - i,
{
    if i < 0 || i >= s.len() {
        st
    } else {
        scan_from(s, i + 1, scan_step(st, s[i]))
    }
}

/// The scanner's state after the whole input.
pub open spec fn spec_scan(s: Seq<char>) -> ScanState {
    scan_from(s, 0, scan_init())
}

/// An environment-assignment token: `NAME=VALUE`, recognized as containing
/// `=` anywhere but first.
pub open spec fn spec_is_assignment(t: Seq<char>) -> bool {
    t.len() > 0 && t[0] != '=' && t.contains('=')
}

/// Drop the assignment prefixes that may precede a command name.
pub open spec fn spec_skip_assignments(ts: Seq<Seq<char>>) -> Seq<Seq<char>>
    decreases ts.len(),
{
    if ts.len() == 0 {
        ts
    } else if spec_is_assignment(ts[0]) {
        spec_skip_assignments(ts.subrange(1, ts.len() as int))
    } else {
        ts
    }
}

/// The command a token list denotes: assignment prefixes dropped, the first
/// remaining token is the name, the rest are the arguments. A list with no
/// remaining token denotes no command.
pub open spec fn spec_cmd_of(ts: Seq<Seq<char>>) -> Option<CmdModel> {
    let r = spec_skip_assignments(ts);
    if r.len() == 0 {
        None
    } else {
        Some(CmdModel { name: r[0], args: r.subrange(1, r.len() as int), text: spec_join(r) })
    }
}

/// All commands of a sequence of token lists, in order.
pub open spec fn spec_cmds_of(tls: Seq<Seq<Seq<char>>>) -> Seq<CmdModel>
    decreases tls.len(),
{
    if tls.len() == 0 {
        Seq::empty()
    } else {
        let rest = spec_cmds_of(tls.subrange(1, tls.len() as int));
        match spec_cmd_of(tls[0]) {
            Some(c) => seq![c] + rest,
            None => rest,
        }
    }
}

proof fn lemma_cmds_of_push(tls: Seq<Seq<Seq<char>>>, tl: Seq<Seq<char>>)
    ensures
        spec_cmds_of(tls.push(tl)) == match spec_cmd_of(tl) {
            Some(c) => spec_cmds_of(tls).push(c),
            None => spec_cmds_of(tls),
        },
    decreases tls.len(),
{
    let p = tls.push(tl);
    let empty_tls = Seq::<Seq<Seq<char>>>::empty();
    let empty_cmds = Seq::<CmdModel>::empty();
    assert(spec_cmds_of(empty_tls) == empty_cmds);
    if tls.len() == 0 {
        assert(p[0] == tl);
        assert(p.subrange(1, p.len() as int) =~= empty_tls);
        assert(tls =~= empty_tls);
        match spec_cmd_of(tl) {
            Some(c) => {
                assert(spec_cmds_of(p) == seq![c] + empty_cmds);
                assert(seq![c] + empty_cmds =~= empty_cmds.push(c));
            },
            None => {
                assert(spec_cmds_of(p) == empty_cmds);
            },
        }
    } else {
        let tail = tls.subrange(1, tls.len() as int);
        assert(p.subrange(1, p.len() as int) =~= tail.push(tl));
        lemma_cmds_of_push(tail, tl);
        assert(p[0] == tls[0]);
        match spec_cmd_of(tl) {
            Some(c) => {
                match spec_cmd_of(tls[0]) {
                    Some(c0) => {
                        assert(spec_cmds_of(p) == seq![c0] + spec_cmds_of(tail).push(c));
                        assert(seq![c0] + spec_cmds_of(tail).push(c) =~= (seq![c0]
                            + spec_cmds_of(tail)).push(c));
                    },
                    None => {},
                }
            },
            None => {},
        }
    }
}

/// The tokenization of a raw line: its simple commands in order, or a
/// diagnostic when a quote is left unterminated.
pub open spec fn spec_tokenize(s: Seq<char>) -> Result<Seq<CmdModel>, Seq<char>> {
    let st = spec_scan(s);
    if st.quote is Some {
        Err("unterminated quote in command"@)
    } else {
        Ok(spec_cmds_of(flush_cmd(st).cmds))
    }
}

fn sep_char(c: char) -> (r: bool)
    ensures
        r == is_separator(c),
{
    c == '|' || c == '&' || c == ';' || c == '\n'
}

fn blank_char(c: char) -> (r: bool)
    ensures
        r == is_blank(c),
{
    c == ' ' || c == '\t' || c == '\r'
}

/// Is this token an environment-assignment prefix?
pub fn is_assignment(t: &str) -> (r: bool)
    ensures
        r == spec_is_assignment(t@),
{
    if t.unicode_len() == 0 {
        return false;
    }
    if t.get_char(0) == '=' {
        return false;
    }
    contains_char(t, '=')
}

/// Group the input into token lists, one per simple command.
fn scan(s: &str) -> (r: Result<Vec<Vec<String>>, String>)
    ensures
        match r {
            Ok(tls) => spec_scan(s@).quote is None && tls.deep_view() == flush_cmd(
                spec_scan(s@)).cmds,
            Err(e) => spec_scan(s@).quote is Some && e@ == "unterminated quote in command"@,
        },
{
    let len = s.unicode_len();
    let mut cmds: Vec<Vec<String>> = Vec::new();
    let mut toks: Vec<String> = Vec::new();
    let mut tok: String = String::new();
    let mut quote: Option<char> = None;
    proof {
        assert(cmds.deep_view() =~~= Seq::<Seq<Seq<char>>>::empty());
        assert(toks.deep_view() =~~= Seq::<Seq<char>>::empty());
        assert(ScanState {
            cmds: cmds.deep_view(),
            toks: toks.deep_view(),
            tok: tok@,
            quote: quote,
        } =~~= scan_init());
    }
    let mut i: usize = 0;
    while i < len
        invariant
            len == s@.len(),
            i <= len,
            scan_from(s@, 0, scan_init()) == scan_from(
                s@,
                i as int,
                ScanState {
                    cmds: cmds.deep_view(),
                    toks: toks.deep_view(),
                    tok: tok@,
                    quote: quote,
                },
            ),
        decreases len - i,
    {
        let ghost pre = ScanState {
            cmds: cmds.deep_view(),
            toks: toks.deep_view(),
            tok: tok@,
            quote: quote,
        };
        let c = s.get_char(i);
        let push_c = match quote {
            Some(q) => {
                if c == q {
                    quote = None;
                }
                true
            },
            None => {
                if c == '\'' || c == '"' {
                    quote = Some(c);
                    true
                } else if sep_char(c) {
                    if tok.unicode_len() > 0 {
                        toks.push(tok);
                        tok = String::new();
                    }
                    if toks.len() > 0 {
                        cmds.push(toks);
                        toks = Vec::new();
                    }
                    false
                } else if blank_char(c) {
                    if tok.unicode_len() > 0 {
                        toks.push(tok);
                        tok = String::new();
                    }
                    false
                } else {
                    true
                }
            },
        };
        if push_c {
            let piece = s.substring_char(i, i + 1);
            tok.append(piece);
            proof {
                assert(s@.subrange(i as int, i as int + 1) =~= seq![s@[i as int]]);
                assert(tok@ =~= pre.tok.push(s@[i as int]));
            }
        }
        proof {
            let post = ScanState {
                cmds: cmds.deep_view(),
                toks: toks.deep_view(),
                tok: tok@,
                quote: quote,
            };
            assert(post =~~= scan_step(pre, s@[i as int]));
        }
        i += 1;
    }
    let ghost fin = ScanState {
        cmds: cmds.deep_view(),
        toks: toks.deep_view(),
        tok: tok@,
        quote: quote,
    };
    proof {
        assert(spec_scan(s@) == fin);
    }
    if quote.is_some() {
        return Err("unterminated quote in command".to_owned());
    }
    if tok.unicode_len() > 0 {
        toks.push(tok);
    }
    if toks.len() > 0 {
        cmds.push(toks);
    }
    proof {
        assert(cmds.deep_view() =~~= flush_cmd(fin).cmds);
    }
    Ok(cmds)
}

/// Turn one token list into a command, dropping assignment prefixes.
fn build_command(tl: &Vec<String>) -> (r: Option<Command>)
    ensures
        r.deep_view() == spec_cmd_of(tl.deep_view()),
{
    let ghost tlv = tl.deep_view();
    let mut j: usize = 0;
    proof {
        assert(tlv.subrange(0, tlv.len() as int) =~= tlv);
    }
    while j < tl.len() && is_assignment(tl[j].as_str())
        invariant
            j <= tl.len(),
            tlv == tl.deep_view(),
            spec_skip_assignments(tlv) == spec_skip_assignments(
                tlv.subrange(j as int, tlv.len() as int),
            ),
        decreases tl.len() - j,
    {
        proof {
            let sub = tlv.subrange(j as int, tlv.len() as int);
            assert(sub[0] == tlv[j as int]);
            assert(tlv[j as int] == tl@[j as int]@);
            assert(sub.subrange(1, sub.len() as int) =~= tlv.subrange(
                j as int + 1,
                tlv.len() as int,
            ));
        }
        j += 1;
    }
    proof {
        let sub = tlv.subrange(j as int, tlv.len() as int);
        if j < tlv.len() {
            assert(sub[0] == tlv[j as int]);
            assert(tlv[j as int] == tl@[j as int]@);
            assert(!spec_is_assignment(sub[0]));
            assert(spec_skip_assignments(sub) == sub);
        } else {
            assert(sub.len() == 0);
            assert(spec_skip_assignments(sub) == sub);
        }
    }
    if j >= tl.len() {
        return None;
    }
    let mut parts: Vec<String> = Vec::new();
    let mut k: usize = j;
    while k < tl.len()
        invariant
            j <= k <= tl.len(),
            tlv == tl.deep_view(),
            parts@.len() == k - j,
            forall|t: int| 0 <= t < parts@.len() ==> #[trigger] parts@[t]@ == tlv[j + t],
        decreases tl.len() - k,
    {
        parts.push(tl[k].clone());
        proof {
            assert(tlv[k as int] == tl@[k as int]@);
        }
        k += 1;
    }
    let text = join_tokens(&parts);
    let name = parts[0].clone();
    let mut args: Vec<String> = Vec::new();
    let mut k2: usize = 1;
    while k2 < parts.len()
        invariant
            1 <= k2 <= parts@.len(),
            args@.len() == k2 - 1,
            forall|t: int| 0 <= t < args@.len() ==> #[trigger] args@[t]@ == parts@[t + 1]@,
        decreases parts.len() - k2,
    {
        args.push(parts[k2].clone());
        k2 += 1;
    }
    let cmd = Command { name, args, text };
    proof {
        let sub = tlv.subrange(j as int, tlv.len() as int);
        assert(parts.deep_view() =~= sub);
        assert(args.deep_view() =~= sub.subrange(1, sub.len() as int));
        assert(cmd@.name == sub[0]);
        assert(cmd@ =~~= spec_cmd_of(tlv).unwrap());
    }
    Some(cmd)
}

/// Tokenize a raw command line into its simple commands.
pub fn tokenize(s: &str) -> (r: Result<Vec<Command>, String>)
    ensures
        match r {
            Ok(cmds) => spec_tokenize(s@) matches Ok(m) && cmds.deep_view() == m,
            Err(e) => spec_tokenize(s@) matches Err(m) && e@ == m,
        },
{
    let tls = match scan(s) {
        Ok(tls) => tls,
        Err(e) => {
            return Err(e);
        },
    };
    let ghost tlsv = tls.deep_view();
    let mut cmds: Vec<Command> = Vec::new();
    let mut i: usize = 0;
    while i < tls.len()
        invariant
            i <= tls.len(),
            tlsv == tls.deep_view(),
            cmds.deep_view() =~= spec_cmds_of(tlsv.take(i as int)),
        decreases tls.len() - i,
    {
        let ghost pre = cmds.deep_view();
        match build_command(&tls[i]) {
            Some(c) => {
                cmds.push(c);
            },
            None => {},
        }
        proof {
            assert(tlsv.take(i as int + 1) =~= tlsv.take(i as int).push(tlsv[i as int]));
            lemma_cmds_of_push(tlsv.take(i as int), tlsv[i as int]);
        }
        i += 1;
    }
    proof {
        assert(tlsv.take(tlsv.len() as int) =~= tlsv);
    }
    Ok(cmds)
}

} // verus!
