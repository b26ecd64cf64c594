//! Wrapper-command resolution: seeing through commands that launch, elevate
//! or delegate to another command (sudo, ssh, scp, rsync, env, kubectl exec,
//! simple pass-throughs, inline shells).
//!
//! Each family's scan skips that family's value-taking options exactly; the
//! first token that is not an option (nor an option's value) starts the
//! inner command, and the remaining tokens are re-joined verbatim with
//! single spaces. Miscounting an option's value would either swallow a real
//! command token or mistake an option's value for the inner command, so
//! these option tables are kept exact and declarative.

use vstd::prelude::*;
use crate::command::{CmdModel, Command};
use crate::strutil::{find_char, first_is, join_tokens, spec_find, spec_first_is, spec_join,
    spec_starts_with, starts_with, str_eq, substring};

verus! {

/// The outcome of unwrapping a wrapper command: the inner command line (if
/// one could be extracted), the remote host (for remote-shell and
/// remote-copy wrappers), and the name of the wrapper that matched.
#[derive(Clone, Debug)]
pub struct UnwrapResult {
    /// The inner command after unwrapping.
    pub inner_command: Option<String>,
    /// For remote wrappers: the extracted host.
    pub host: Option<String>,
    /// The wrapper that was unwrapped.
    pub wrapper: String,
}

/// Mathematical model of an `UnwrapResult`.
#[verifier::ext_equal]
pub ghost struct UnwrapModel {
    pub inner: Option<Seq<char>>,
    pub host: Option<Seq<char>>,
    pub wrapper: Seq<char>,
}

impl View for UnwrapResult {
    type V = UnwrapModel;

    open spec fn view(&self) -> UnwrapModel {
        UnwrapModel {
            inner: self.inner_command.deep_view(),
            host: self.host.deep_view(),
            wrapper: self.wrapper@,
        }
    }
}

impl DeepView for UnwrapResult {
    type V = UnwrapModel;

    open spec fn deep_view(&self) -> UnwrapModel {
        self.view()
    }
}

/// Recover the defining facts of `spec_find` from its result.
proof fn lemma_find_props(s: Seq<char>, c: char)
    ensures
        spec_find(s, c) matches Some(i) ==> 0 <= i < s.len() && s[i] == c && forall|j: int|
            0 <= j < i ==> s[j] != c,
        spec_find(s, c) is None ==> forall|j: int| 0 <= j < s.len() ==> s[j] != c,
{
    if exists|i: int| 0 <= i < s.len() && s[i] == c {
        if exists|i: int|
            0 <= i < s.len() && s[i] == c && forall|j: int| 0 <= j < i ==> s[j] != c {
        } else {
            // The least witness satisfies the first-occurrence property; show
            // one exists by picking the minimum index holding `c`.
            let k = min_hit(s, c, 0);
            assert(0 <= k < s.len() && s[k] == c && forall|j: int| 0 <= j < k ==> s[j] != c) by {
                lemma_min_hit(s, c, 0);
            }
        }
    }
}

/// The first index at or after `i` where `c` occurs (meaningful only when
/// one exists).
spec fn min_hit(s: Seq<char>, c: char, i: int) -> int
    decreases s.len() - i,
{
    if i < 0 || i >= s.len() {
        i
    } else if s[i] == c {
        i
    } else {
        min_hit(s, c, i + 1)
    }
}

proof fn lemma_min_hit(s: Seq<char>, c: char, i: int)
    requires
        0 <= i <= s.len(),
        exists|k: int| i <= k < s.len() && s[k] == c,
    ensures
        i <= min_hit(s, c, i) < s.len(),
        s[min_hit(s, c, i)] == c,
        forall|j: int| i <= j < min_hit(s, c, i) ==> s[j] != c,
    decreases s.len() - i,
{
    if i < s.len() && s[i] != c {
        let k = choose|k: int| i <= k < s.len() && s[k] == c;
        assert(i + 1 <= k);
        lemma_min_hit(s, c, i + 1);
    }
}

/// Strip a leading `user@` from a host token: everything after the first
/// `@`, or the token itself when it has none.
pub open spec fn spec_after_at(t: Seq<char>) -> Seq<char> {
    match spec_find(t, '@') {
        Some(p) => t.subrange(p + 1, t.len() as int),
        None => t,
    }
}

fn after_at(t: &str) -> (r: String)
    ensures
        r@ == spec_after_at(t@),
{
    proof {
        lemma_find_props(t@, '@');
    }
    let len = t.unicode_len();
    match find_char(t, '@') {
        Some(p) => {
            assert((p as int) < t@.len());
            substring(t, p + 1, len)
        },
        None => t.to_owned(),
    }
}

/// Copy the argument tokens from position `from` on.
fn tail_parts(args: &Vec<String>, from: usize) -> (r: Vec<String>)
    requires
        from <= args@.len(),
    ensures
        r.deep_view() == args.deep_view().subrange(from as int, args.deep_view().len() as int),
{
    let ghost av = args.deep_view();
    let mut parts: Vec<String> = Vec::new();
    let mut k: usize = from;
    while k < args.len()
        invariant
            from <= k <= args@.len(),
            av == args.deep_view(),
            parts@.len() == k - from,
            forall|t: int| 0 <= t < parts@.len() ==> #[trigger] parts@[t]@ == av[from + t],
        decreases args.len() - k,
    {
        parts.push(args[k].clone());
        proof {
            assert(av[k as int] == args@[k as int]@);
        }
        k += 1;
    }
    proof {
        assert(parts.deep_view() =~= av.subrange(from as int, av.len() as int));
    }
    parts
}

/// The tokens from `from` on, joined with single spaces.
fn join_tail(args: &Vec<String>, from: usize) -> (r: String)
    requires
        from <= args@.len(),
    ensures
        r@ == spec_join(args.deep_view().subrange(from as int, args.deep_view().len() as int)),
{
    let parts = tail_parts(args, from);
    join_tokens(&parts)
}

// ---------------------------------------------------------------------------
// sudo
// ---------------------------------------------------------------------------

/// sudo's value-taking options (short and long forms).
pub open spec fn spec_sudo_optarg(a: Seq<char>) -> bool {
    ||| a == "-g"@
    ||| a == "-p"@
    ||| a == "-r"@
    ||| a == "-t"@
    ||| a == "-u"@
    ||| a == "-T"@
    ||| a == "-C"@
    ||| a == "-h"@
    ||| a == "-U"@
    ||| a == "--group"@
    ||| a == "--prompt"@
    ||| a == "--role"@
    ||| a == "--type"@
    ||| a == "--user"@
    ||| a == "--other-user"@
    ||| a == "--timeout"@
    ||| a == "--close-from"@
    ||| a == "--host"@
}

fn sudo_optarg(a: &str) -> (r: bool)
    ensures
        r == spec_sudo_optarg(a@),
{
    str_eq(a, "-g") || str_eq(a, "-p") || str_eq(a, "-r") || str_eq(a, "-t") || str_eq(a, "-u")
        || str_eq(a, "-T") || str_eq(a, "-C") || str_eq(a, "-h") || str_eq(a, "-U") || str_eq(
        a,
        "--group",
    ) || str_eq(a, "--prompt") || str_eq(a, "--role") || str_eq(a, "--type") || str_eq(a, "--user")
        || str_eq(a, "--other-user") || str_eq(a, "--timeout") || str_eq(a, "--close-from")
        || str_eq(a, "--host")
}

/// Does a combined short-flag cluster end in a value-taking option letter?
/// Only the last character is examined; a value-taking letter elsewhere in
/// the cluster is not detected (kept as the known behavior of the scan).
pub open spec fn spec_sudo_cluster_takes_value(a: Seq<char>) -> bool {
    a.len() > 2 && !spec_starts_with(a, "--"@) && (a.last() == 'g' || a.last() == 'p' || a.last()
        == 'r' || a.last() == 't' || a.last() == 'u' || a.last() == 'T' || a.last() == 'C'
        || a.last() == 'h' || a.last() == 'U')
}

fn sudo_cluster_takes_value(a: &str) -> (r: bool)
    ensures
        r == spec_sudo_cluster_takes_value(a@),
{
    let len = a.unicode_len();
    if len <= 2 {
        return false;
    }
    if starts_with(a, "--") {
        return false;
    }
    let c = a.get_char(len - 1);
    proof {
        assert(a@.last() == a@[len - 1]);
    }
    c == 'g' || c == 'p' || c == 'r' || c == 't' || c == 'u' || c == 'T' || c == 'C' || c == 'h'
        || c == 'U'
}

/// The index where sudo's inner command starts, scanning from `i` with the
/// given pending-value flag; `None` when every token is consumed by options.
pub open spec fn sudo_start(args: Seq<Seq<char>>, i: int, skip: bool) -> Option<int>
    decreases args.len() - i,
{
    if i < 0 || i >= args.len() {
        None
    } else if skip {
        sudo_start(args, i + 1, false)
    } else if spec_sudo_optarg(args[i]) {
        sudo_start(args, i + 1, true)
    } else if spec_first_is(args[i], '-') {
        if spec_sudo_cluster_takes_value(args[i]) {
            sudo_start(args, i + 1, true)
        } else {
            sudo_start(args, i + 1, false)
        }
    } else {
        Some(i)
    }
}

/// Unwrapping a sudo command: everything from the first non-option token on
/// is the inner command.
pub open spec fn spec_unwrap_sudo(args: Seq<Seq<char>>) -> Option<UnwrapModel> {
    match sudo_start(args, 0, false) {
        Some(i) => Some(
            UnwrapModel {
                inner: Some(spec_join(args.subrange(i, args.len() as int))),
                host: None,
                wrapper: "sudo"@,
            },
        ),
        None => None,
    }
}

fn unwrap_sudo(cmd: &Command) -> (r: Option<UnwrapResult>)
    ensures
        r.deep_view() == spec_unwrap_sudo(cmd@.args),
{
    let ghost av = cmd.args.deep_view();
    let mut i: usize = 0;
    let mut skip: bool = false;
    loop
        invariant
            i <= cmd.args@.len(),
            av == cmd.args.deep_view(),
            sudo_start(av, 0, false) == sudo_start(av, i as int, skip),
        decreases cmd.args@.len() - i, (if skip { 0int } else { 1int }),
    {
        if i >= cmd.args.len() {
            return None;
        }
        proof {
            assert(av[i as int] == cmd.args@[i as int]@);
        }
        if skip {
            skip = false;
            i += 1;
            continue;
        }
        let a = cmd.args[i].as_str();
        if sudo_optarg(a) {
            skip = true;
            i += 1;
            continue;
        }
        if first_is(a, '-') {
            skip = sudo_cluster_takes_value(a);
            i += 1;
            continue;
        }
        // Found the start of the inner command.
        let inner = join_tail(&cmd.args, i);
        return Some(
            UnwrapResult { inner_command: Some(inner), host: None, wrapper: "sudo".to_owned() },
        );
    }
}

// ---------------------------------------------------------------------------
// ssh
// ---------------------------------------------------------------------------

/// ssh's value-taking options, matched on the two-character option prefix.
pub open spec fn spec_ssh_optarg(a: Seq<char>) -> bool {
    ||| a == "-b"@
    ||| a == "-c"@
    ||| a == "-D"@
    ||| a == "-E"@
    ||| a == "-e"@
    ||| a == "-F"@
    ||| a == "-I"@
    ||| a == "-i"@
    ||| a == "-J"@
    ||| a == "-L"@
    ||| a == "-l"@
    ||| a == "-m"@
    ||| a == "-O"@
    ||| a == "-o"@
    ||| a == "-p"@
    ||| a == "-Q"@
    ||| a == "-R"@
    ||| a == "-S"@
    ||| a == "-W"@
    ||| a == "-w"@
}

fn ssh_optarg(a: &str) -> (r: bool)
    ensures
        r == spec_ssh_optarg(a@),
{
    str_eq(a, "-b") || str_eq(a, "-c") || str_eq(a, "-D") || str_eq(a, "-E") || str_eq(a, "-e")
        || str_eq(a, "-F") || str_eq(a, "-I") || str_eq(a, "-i") || str_eq(a, "-J") || str_eq(
        a,
        "-L",
    ) || str_eq(a, "-l") || str_eq(a, "-m") || str_eq(a, "-O") || str_eq(a, "-o") || str_eq(
        a,
        "-p",
    ) || str_eq(a, "-Q") || str_eq(a, "-R") || str_eq(a, "-S") || str_eq(a, "-W") || str_eq(
        a,
        "-w",
    )
}

/// The two-character option prefix of an option token (the whole token when
/// it is that short).
pub open spec fn spec_opt_prefix(a: Seq<char>) -> Seq<char> {
    if a.len() > 2 {
        a.subrange(0, 2)
    } else {
        a
    }
}

/// The index of the host token: the first token that is not an option and
/// not an option's value.
pub open spec fn ssh_host_idx(args: Seq<Seq<char>>, i: int, skip: bool) -> Option<int>
    decreases args.len() - i,
{
    if i < 0 || i >= args.len() {
        None
    } else if skip {
        ssh_host_idx(args, i + 1, false)
    } else if spec_first_is(args[i], '-') {
        if spec_ssh_optarg(spec_opt_prefix(args[i])) && args[i].len() == 2 {
            ssh_host_idx(args, i + 1, true)
        } else {
            ssh_host_idx(args, i + 1, false)
        }
    } else {
        Some(i)
    }
}

/// Unwrapping an ssh command: the host token (its `user@` prefix stripped),
/// then the remaining tokens as the remote command. When option scanning
/// leaves no non-option token, there is no host and the resolver does not
/// match.
pub open spec fn spec_unwrap_ssh(args: Seq<Seq<char>>) -> Option<UnwrapModel> {
    match ssh_host_idx(args, 0, false) {
        Some(h) => Some(
            UnwrapModel {
                inner: if h + 1 < args.len() {
                    Some(spec_join(args.subrange(h + 1, args.len() as int)))
                } else {
                    None
                },
                host: Some(spec_after_at(args[h])),
                wrapper: "ssh"@,
            },
        ),
        None => None,
    }
}

fn unwrap_ssh(cmd: &Command) -> (r: Option<UnwrapResult>)
    ensures
        r.deep_view() == spec_unwrap_ssh(cmd@.args),
{
    let ghost av = cmd.args.deep_view();
    let mut i: usize = 0;
    let mut skip: bool = false;
    loop
        invariant
            i <= cmd.args@.len(),
            av == cmd.args.deep_view(),
            ssh_host_idx(av, 0, false) == ssh_host_idx(av, i as int, skip),
        decreases cmd.args@.len() - i, (if skip { 0int } else { 1int }),
    {
        if i >= cmd.args.len() {
            return None;
        }
        proof {
            assert(av[i as int] == cmd.args@[i as int]@);
        }
        if skip {
            skip = false;
            i += 1;
            continue;
        }
        let a = cmd.args[i].as_str();
        if first_is(a, '-') {
            let alen = a.unicode_len();
            let opt = if alen > 2 {
                substring(a, 0, 2)
            } else {
                a.to_owned()
            };
            skip = ssh_optarg(opt.as_str()) && alen == 2;
            i += 1;
            continue;
        }
        // This token is the host; the rest is the remote command.
        let host = after_at(a);
        let inner = if i + 1 < cmd.args.len() {
            Some(join_tail(&cmd.args, i + 1))
        } else {
            None
        };
        return Some(
            UnwrapResult { inner_command: inner, host: Some(host), wrapper: "ssh".to_owned() },
        );
    }
}

// ---------------------------------------------------------------------------
// scp and rsync
// ---------------------------------------------------------------------------

/// The host a remote-copy scan extracts from one token, if any: the token
/// must contain `:`, the part before it must not look like a local path
/// (must not start with `/` or `.`), and a leading `user@` is then
/// stripped from that part.
pub open spec fn remote_copy_token_host(t: Seq<char>) -> Option<Seq<char>> {
    match spec_find(t, ':') {
        Some(p) => {
            let before = t.subrange(0, p);
            if spec_first_is(before, '/') || spec_first_is(before, '.') {
                None
            } else {
                Some(spec_after_at(before))
            }
        },
        None => None,
    }
}

/// A remote copy's host: the first non-option token yielding one.
pub open spec fn remote_copy_host(args: Seq<Seq<char>>, i: int) -> Option<Seq<char>>
    decreases args.len() - i,
{
    if i < 0 || i >= args.len() {
        None
    } else if spec_first_is(args[i], '-') {
        remote_copy_host(args, i + 1)
    } else {
        match remote_copy_token_host(args[i]) {
            Some(h) => Some(h),
            None => remote_copy_host(args, i + 1),
        }
    }
}

/// Does the argument list hold any non-option token at all? A recognized
/// wrapper whose every token is an option does not match.
pub open spec fn spec_has_non_option(args: Seq<Seq<char>>) -> bool {
    exists|i: int| 0 <= i < args.len() && !spec_first_is(args[i], '-')
}

fn has_non_option(args: &Vec<String>) -> (r: bool)
    ensures
        r == spec_has_non_option(args.deep_view()),
{
    let ghost av = args.deep_view();
    let mut i: usize = 0;
    while i < args.len()
        invariant
            i <= args@.len(),
            av == args.deep_view(),
            forall|j: int| 0 <= j < i ==> spec_first_is(#[trigger] av[j], '-'),
        decreases args@.len() - i,
    {
        proof {
            assert(av[i as int] == args@[i as int]@);
        }
        if !first_is(args[i].as_str(), '-') {
            proof {
                assert(0 <= (i as int) < av.len() && !spec_first_is(av[i as int], '-'));
            }
            return true;
        }
        i += 1;
    }
    assert(!spec_has_non_option(av)) by {
        if exists|k: int| 0 <= k < av.len() && !spec_first_is(av[k], '-') {
            let k = choose|k: int| 0 <= k < av.len() && !spec_first_is(av[k], '-');
            assert(spec_first_is(av[k], '-'));
        }
    }
    false
}

/// Unwrapping an scp command: a remote copy has a host but no inner
/// command. With no non-option token at all, the resolver does not match.
pub open spec fn spec_unwrap_scp(args: Seq<Seq<char>>) -> Option<UnwrapModel> {
    if !spec_has_non_option(args) {
        None
    } else {
        Some(UnwrapModel { inner: None, host: remote_copy_host(args, 0), wrapper: "scp"@ })
    }
}

/// Unwrapping an rsync command: like scp, a host but no inner command.
pub open spec fn spec_unwrap_rsync(args: Seq<Seq<char>>) -> Option<UnwrapModel> {
    if !spec_has_non_option(args) {
        None
    } else {
        Some(UnwrapModel { inner: None, host: remote_copy_host(args, 0), wrapper: "rsync"@ })
    }
}

/// The shared remote-copy scan.
fn find_remote_copy_host(args: &Vec<String>) -> (r: Option<String>)
    ensures
        r.deep_view() == remote_copy_host(args.deep_view(), 0),
{
    let ghost av = args.deep_view();
    let mut i: usize = 0;
    while i < args.len()
        invariant
            i <= args@.len(),
            av == args.deep_view(),
            remote_copy_host(av, 0) == remote_copy_host(av, i as int),
        decreases args@.len() - i,
    {
        proof {
            assert(av[i as int] == args@[i as int]@);
        }
        let a = args[i].as_str();
        if !first_is(a, '-') {
            proof {
                lemma_find_props(a@, ':');
            }
            match find_char(a, ':') {
                Some(p) => {
                    let before = substring(a, 0, p);
                    if !first_is(before.as_str(), '/') && !first_is(before.as_str(), '.') {
                        return Some(after_at(before.as_str()));
                    }
                },
                None => {},
            }
        }
        i += 1;
    }
    None
}

fn unwrap_scp(cmd: &Command) -> (r: Option<UnwrapResult>)
    ensures
        r.deep_view() == spec_unwrap_scp(cmd@.args),
{
    if !has_non_option(&cmd.args) {
        return None;
    }
    let host = find_remote_copy_host(&cmd.args);
    Some(UnwrapResult { inner_command: None, host, wrapper: "scp".to_owned() })
}

fn unwrap_rsync(cmd: &Command) -> (r: Option<UnwrapResult>)
    ensures
        r.deep_view() == spec_unwrap_rsync(cmd@.args),
{
    if !has_non_option(&cmd.args) {
        return None;
    }
    let host = find_remote_copy_host(&cmd.args);
    Some(UnwrapResult { inner_command: None, host, wrapper: "rsync".to_owned() })
}

// ---------------------------------------------------------------------------
// kubectl exec
// ---------------------------------------------------------------------------

/// The position of the first `--` separator token.
pub open spec fn dashdash_pos(args: Seq<Seq<char>>, i: int) -> Option<int>
    decreases args.len() - i,
{
    if i < 0 || i >= args.len() {
        None
    } else if args[i] == "--"@ {
        Some(i)
    } else {
        dashdash_pos(args, i + 1)
    }
}

/// Unwrapping `kubectl exec`: only the `exec` subcommand is a wrapper; the
/// inner command is everything after the `--` separator, absent when there
/// is no separator (or nothing follows it).
pub open spec fn spec_unwrap_kubectl(args: Seq<Seq<char>>) -> Option<UnwrapModel> {
    if args.len() == 0 || args[0] != "exec"@ {
        None
    } else {
        Some(
            UnwrapModel {
                inner: match dashdash_pos(args, 0) {
                    Some(p) => if p + 1 < args.len() {
                        Some(spec_join(args.subrange(p + 1, args.len() as int)))
                    } else {
                        None
                    },
                    None => None,
                },
                host: None,
                wrapper: "kubectl exec"@,
            },
        )
    }
}

fn unwrap_kubectl(cmd: &Command) -> (r: Option<UnwrapResult>)
    ensures
        r.deep_view() == spec_unwrap_kubectl(cmd@.args),
{
    let ghost av = cmd.args.deep_view();
    if cmd.args.len() == 0 {
        return None;
    }
    proof {
        assert(av[0] == cmd.args@[0]@);
    }
    if !str_eq(cmd.args[0].as_str(), "exec") {
        return None;
    }
    let mut i: usize = 0;
    let mut sep: Option<usize> = None;
    while i < cmd.args.len() && sep.is_none()
        invariant
            i <= cmd.args@.len(),
            av == cmd.args.deep_view(),
            match sep {
                None => dashdash_pos(av, 0) == dashdash_pos(av, i as int),
                Some(p) => dashdash_pos(av, 0) == Some(p as int) && p < cmd.args@.len(),
            },
        decreases cmd.args@.len() - i, (if sep is None { 1int } else { 0int }),
    {
        proof {
            assert(av[i as int] == cmd.args@[i as int]@);
        }
        if str_eq(cmd.args[i].as_str(), "--") {
            sep = Some(i);
        } else {
            i += 1;
        }
    }
    let inner = match sep {
        Some(p) => {
            if p + 1 < cmd.args.len() {
                Some(join_tail(&cmd.args, p + 1))
            } else {
                None
            }
        },
        None => None,
    };
    Some(UnwrapResult { inner_command: inner, host: None, wrapper: "kubectl exec".to_owned() })
}

// ---------------------------------------------------------------------------
// env
// ---------------------------------------------------------------------------

/// env's value-taking options.
pub open spec fn spec_env_optarg(a: Seq<char>) -> bool {
    ||| a == "-u"@
    ||| a == "--unset"@
    ||| a == "-C"@
    ||| a == "--chdir"@
    ||| a == "-S"@
    ||| a == "--split-string"@
}

fn env_optarg(a: &str) -> (r: bool)
    ensures
        r == spec_env_optarg(a@),
{
    str_eq(a, "-u") || str_eq(a, "--unset") || str_eq(a, "-C") || str_eq(a, "--chdir") || str_eq(
        a,
        "-S",
    ) || str_eq(a, "--split-string")
}

/// A `NAME=VALUE` assignment token (contains `=` anywhere but first).
pub open spec fn spec_env_assignment(t: Seq<char>) -> bool {
    t.contains('=') && !(t.len() > 0 && t[0] == '=')
}

fn env_assignment(t: &str) -> (r: bool)
    ensures
        r == spec_env_assignment(t@),
{
    crate::strutil::contains_char(t, '=') && !first_is(t, '=')
}

/// The index where env's inner command starts: options, their values and
/// assignment tokens are skipped.
pub open spec fn env_start(args: Seq<Seq<char>>, i: int, skip: bool) -> Option<int>
    decreases args.len() - i,
{
    if i < 0 || i >= args.len() {
        None
    } else if skip {
        env_start(args, i + 1, false)
    } else if spec_env_optarg(args[i]) {
        env_start(args, i + 1, true)
    } else if spec_first_is(args[i], '-') {
        env_start(args, i + 1, false)
    } else if spec_env_assignment(args[i]) {
        env_start(args, i + 1, false)
    } else {
        Some(i)
    }
}

/// Unwrapping an env command.
pub open spec fn spec_unwrap_env(args: Seq<Seq<char>>) -> Option<UnwrapModel> {
    match env_start(args, 0, false) {
        Some(i) => Some(
            UnwrapModel {
                inner: Some(spec_join(args.subrange(i, args.len() as int))),
                host: None,
                wrapper: "env"@,
            },
        ),
        None => None,
    }
}

fn unwrap_env(cmd: &Command) -> (r: Option<UnwrapResult>)
    ensures
        r.deep_view() == spec_unwrap_env(cmd@.args),
{
    let ghost av = cmd.args.deep_view();
    let mut i: usize = 0;
    let mut skip: bool = false;
    loop
        invariant
            i <= cmd.args@.len(),
            av == cmd.args.deep_view(),
            env_start(av, 0, false) == env_start(av, i as int, skip),
        decreases cmd.args@.len() - i, (if skip { 0int } else { 1int }),
    {
        if i >= cmd.args.len() {
            return None;
        }
        proof {
            assert(av[i as int] == cmd.args@[i as int]@);
        }
        if skip {
            skip = false;
            i += 1;
            continue;
        }
        let a = cmd.args[i].as_str();
        if env_optarg(a) {
            skip = true;
            i += 1;
            continue;
        }
        if first_is(a, '-') {
            i += 1;
            continue;
        }
        if env_assignment(a) {
            i += 1;
            continue;
        }
        let inner = join_tail(&cmd.args, i);
        return Some(
            UnwrapResult { inner_command: Some(inner), host: None, wrapper: "env".to_owned() },
        );
    }
}

// ---------------------------------------------------------------------------
// simple pass-through wrappers: nice, nohup, time, strace, ltrace
// ---------------------------------------------------------------------------

/// Is this the name of a simple pass-through wrapper?
pub open spec fn spec_simple_wrapper_name(name: Seq<char>) -> bool {
    ||| name == "nice"@
    ||| name == "nohup"@
    ||| name == "time"@
    ||| name == "strace"@
    ||| name == "ltrace"@
}

/// The value-taking options of each simple pass-through wrapper.
pub open spec fn spec_simple_optarg(name: Seq<char>, opt: Seq<char>) -> bool {
    if name == "nice"@ {
        opt == "-n"@ || opt == "--adjustment"@
    } else if name == "time"@ {
        opt == "-o"@ || opt == "-f"@ || opt == "--output"@ || opt == "--format"@
    } else if name == "strace"@ {
        opt == "-e"@ || opt == "-o"@ || opt == "-p"@ || opt == "-s"@ || opt == "-u"@ || opt
            == "-E"@
    } else if name == "ltrace"@ {
        opt == "-e"@ || opt == "-o"@ || opt == "-p"@ || opt == "-s"@ || opt == "-u"@ || opt
            == "-n"@
    } else {
        false
    }
}

fn simple_optarg(name: &str, opt: &str) -> (r: bool)
    ensures
        r == spec_simple_optarg(name@, opt@),
{
    if str_eq(name, "nice") {
        str_eq(opt, "-n") || str_eq(opt, "--adjustment")
    } else if str_eq(name, "time") {
        str_eq(opt, "-o") || str_eq(opt, "-f") || str_eq(opt, "--output") || str_eq(
            opt,
            "--format",
        )
    } else if str_eq(name, "strace") {
        str_eq(opt, "-e") || str_eq(opt, "-o") || str_eq(opt, "-p") || str_eq(opt, "-s") || str_eq(
            opt,
            "-u",
        ) || str_eq(opt, "-E")
    } else if str_eq(name, "ltrace") {
        str_eq(opt, "-e") || str_eq(opt, "-o") || str_eq(opt, "-p") || str_eq(opt, "-s") || str_eq(
            opt,
            "-u",
        ) || str_eq(opt, "-n")
    } else {
        false
    }
}

/// The part of an option token before its first `=`, or the token itself.
pub open spec fn spec_before_eq(a: Seq<char>) -> Seq<char> {
    match spec_find(a, '=') {
        Some(p) => a.subrange(0, p),
        None => a,
    }
}

fn before_eq(a: &str) -> (r: String)
    ensures
        r@ == spec_before_eq(a@),
{
    proof {
        lemma_find_props(a@, '=');
    }
    match find_char(a, '=') {
        Some(p) => substring(a, 0, p),
        None => a.to_owned(),
    }
}

/// The index where a simple wrapper's inner command starts. An option with
/// an inline `=value` consumes no extra token; a bare value-taking option
/// consumes the next one.
pub open spec fn simple_start(name: Seq<char>, args: Seq<Seq<char>>, i: int, skip: bool) -> Option<
    int,
>
    decreases args.len() - i,
{
    if i < 0 || i >= args.len() {
        None
    } else if skip {
        simple_start(name, args, i + 1, false)
    } else if spec_first_is(args[i], '-') {
        if spec_simple_optarg(name, spec_before_eq(args[i])) && !args[i].contains('=') {
            simple_start(name, args, i + 1, true)
        } else {
            simple_start(name, args, i + 1, false)
        }
    } else {
        Some(i)
    }
}

/// Unwrapping a simple pass-through wrapper.
pub open spec fn spec_unwrap_simple(name: Seq<char>, args: Seq<Seq<char>>) -> Option<UnwrapModel> {
    match simple_start(name, args, 0, false) {
        Some(i) => Some(
            UnwrapModel {
                inner: Some(spec_join(args.subrange(i, args.len() as int))),
                host: None,
                wrapper: name,
            },
        ),
        None => None,
    }
}

fn unwrap_simple_wrapper(cmd: &Command) -> (r: Option<UnwrapResult>)
    ensures
        r.deep_view() == spec_unwrap_simple(cmd@.name, cmd@.args),
{
    let ghost av = cmd.args.deep_view();
    let mut i: usize = 0;
    let mut skip: bool = false;
    loop
        invariant
            i <= cmd.args@.len(),
            av == cmd.args.deep_view(),
            simple_start(cmd@.name, av, 0, false) == simple_start(cmd@.name, av, i as int, skip),
        decreases cmd.args@.len() - i, (if skip { 0int } else { 1int }),
    {
        if i >= cmd.args.len() {
            return None;
        }
        proof {
            assert(av[i as int] == cmd.args@[i as int]@);
        }
        if skip {
            skip = false;
            i += 1;
            continue;
        }
        let a = cmd.args[i].as_str();
        if first_is(a, '-') {
            let opt = before_eq(a);
            skip = simple_optarg(cmd.name.as_str(), opt.as_str()) && !crate::strutil::contains_char(
                a,
                '=',
            );
            i += 1;
            continue;
        }
        let inner = join_tail(&cmd.args, i);
        let wrapper = cmd.name.clone();
        return Some(UnwrapResult { inner_command: Some(inner), host: None, wrapper });
    }
}

// ---------------------------------------------------------------------------
// dispatch
// ---------------------------------------------------------------------------

/// What unwrapping a command yields, over the whole family table. Shell
/// wrappers (`sh -c` and friends) are part of the table; their scan lives in
/// the `wrappers` module.
pub open spec fn spec_unwrap_command(c: CmdModel) -> Option<UnwrapModel> {
    if c.name == "sudo"@ {
        spec_unwrap_sudo(c.args)
    } else if c.name == "ssh"@ {
        spec_unwrap_ssh(c.args)
    } else if c.name == "scp"@ {
        spec_unwrap_scp(c.args)
    } else if c.name == "rsync"@ {
        spec_unwrap_rsync(c.args)
    } else if c.name == "env"@ {
        spec_unwrap_env(c.args)
    } else if c.name == "kubectl"@ {
        spec_unwrap_kubectl(c.args)
    } else if spec_simple_wrapper_name(c.name) {
        spec_unwrap_simple(c.name, c.args)
    } else if crate::wrappers::shell::spec_shell_name(c.name) {
        crate::wrappers::shell::spec_unwrap_shell(c.name, c.args)
    } else {
        None
    }
}

/// Check whether a command is a recognized wrapper and unwrap it. `None`
/// means the command is no wrapper (not an error).
pub fn unwrap_command(cmd: &Command) -> (r: Option<UnwrapResult>)
    ensures
        r.deep_view() == spec_unwrap_command(cmd@),
{
    let name = cmd.name.as_str();
    if str_eq(name, "sudo") {
        unwrap_sudo(cmd)
    } else if str_eq(name, "ssh") {
        unwrap_ssh(cmd)
    } else if str_eq(name, "scp") {
        unwrap_scp(cmd)
    } else if str_eq(name, "rsync") {
        unwrap_rsync(cmd)
    } else if str_eq(name, "env") {
        unwrap_env(cmd)
    } else if str_eq(name, "kubectl") {
        unwrap_kubectl(cmd)
    } else if str_eq(name, "nice") || str_eq(name, "nohup") || str_eq(name, "time") || str_eq(
        name,
        "strace",
    ) || str_eq(name, "ltrace") {
        unwrap_simple_wrapper(cmd)
    } else if str_eq(name, "sh") || str_eq(name, "bash") || str_eq(name, "zsh") {
        crate::wrappers::shell::unwrap(cmd)
    } else {
        None
    }
}

} // verus!
