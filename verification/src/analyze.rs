//! The decision aggregator: tokenizes a raw line, classifies each simple
//! command (safe-path classifiers first, then wrapper resolution with
//! recursion into the inner command, then the rule store), and combines the
//! verdicts by keeping the most restrictive one.
//!
//! Failure always leans toward review: a line that cannot be tokenized
//! asks, an empty line allows, and recursion deeper than the defensive
//! nesting limit asks.

use vstd::prelude::*;
use crate::command::{CmdModel, Command};
use crate::permission::{Permission, PermissionResult, ResultModel, spec_merge};
use crate::policy::{Config, spec_check_command, spec_check_with_host};
use crate::resolve::{PathEntryModel, Resolutions};
use crate::rm::{check_rm, spec_check_rm};
use crate::strutil::{opt_view, substring};
use crate::tee::{check_tee, spec_check_tee};
use crate::tokenize::{spec_tokenize, tokenize};
use crate::wrapper::{spec_unwrap_command, unwrap_command};

verus! {

/// The defensive cap on wrapper-nesting recursion. Nesting is bounded by
/// the input's own wrapper depth; the cap only guards against pathological
/// lines.
pub const RECURSION_LIMIT: u64 = 64;

/// The verdict when the nesting cap is reached: ask, never silently allow.
pub open spec fn spec_too_deep() -> ResultModel {
    ResultModel {
        permission: Permission::Ask,
        reason: "command nesting limit reached"@,
        suggestion: None,
    }
}

/// The verdict an empty command sequence gets.
pub open spec fn spec_no_commands() -> ResultModel {
    ResultModel {
        permission: Permission::Allow,
        reason: "No commands found"@,
        suggestion: None,
    }
}

/// Where the aggregation starts: an allow with nothing to say.
pub open spec fn spec_init_result() -> ResultModel {
    ResultModel { permission: Permission::Allow, reason: Seq::empty(), suggestion: None }
}

/// The whole analysis of a raw command line, at a given recursion budget.
pub open spec fn spec_analyze(
    s: Seq<char>,
    cwd: Option<Seq<char>>,
    res: Seq<PathEntryModel>,
    depth: int,
) -> ResultModel
    decreases depth, 2int, 0int,
{
    if depth <= 0 {
        spec_too_deep()
    } else {
        match spec_tokenize(s) {
            Err(e) => ResultModel { permission: Permission::Ask, reason: e, suggestion: None },
            Ok(cmds) => if cmds.len() == 0 {
                spec_no_commands()
            } else {
                spec_fold(cmds, 0, spec_init_result(), cwd, res, depth)
            },
        }
    }
}

/// Fold the per-command verdicts, keeping the most restrictive (earliest
/// among ties).
pub open spec fn spec_fold(
    cmds: Seq<CmdModel>,
    i: int,
    acc: ResultModel,
    cwd: Option<Seq<char>>,
    res: Seq<PathEntryModel>,
    depth: int,
) -> ResultModel
    decreases depth, 1int, cmds.len() - i,
{
    if i < 0 || i >= cmds.len() {
        acc
    } else {
        spec_fold(
            cmds,
            i + 1,
            spec_merge(acc, spec_check_single(cmds[i], cwd, res, depth)),
            cwd,
            res,
            depth,
        )
    }
}

/// How one simple command is decided: the safe-path classifiers get the
/// first word; a recognized wrapper redirects the analysis to its inner command
/// and, for remote wrappers, to the host-aware rules; everything else is a
/// plain rule lookup.
pub open spec fn spec_check_single(
    c: CmdModel,
    cwd: Option<Seq<char>>,
    res: Seq<PathEntryModel>,
    depth: int,
) -> ResultModel
    decreases depth, 0int, 0int,
{
    if depth <= 0 {
        spec_too_deep()
    } else {
        match spec_check_rm(c, cwd, res) {
            Some(r) => r,
            None => match spec_check_tee(c, res) {
                Some(r) => r,
                None => match spec_unwrap_command(c) {
                    Some(u) => match u.inner {
                        Some(inner) => {
                            let ir = spec_analyze(inner, cwd, res, depth - 1);
                            match u.host {
                                Some(_) => {
                                    let hr = spec_check_with_host(c.name, c.args, u.host);
                                    if hr.permission.spec_rank() > ir.permission.spec_rank() {
                                        hr
                                    } else {
                                        ir
                                    }
                                },
                                None => ir,
                            }
                        },
                        None => match u.host {
                            Some(_) => spec_check_with_host(c.name, c.args, u.host),
                            None => spec_check_command(c.name, c.args),
                        },
                    },
                    None => spec_check_command(c.name, c.args),
                },
            },
        }
    }
}

fn too_deep_result() -> (r: PermissionResult)
    ensures
        r@ == spec_too_deep(),
{
    PermissionResult {
        permission: Permission::Ask,
        reason: "command nesting limit reached".to_owned(),
        suggestion: None,
    }
}

/// Analyze a raw command line and return the most restrictive verdict over
/// its simple commands.
pub fn analyze_command(command: &str, config: &Config, res: &Resolutions) -> (r: PermissionResult)
    ensures
        r@ == spec_analyze(command@, config@, res@, RECURSION_LIMIT as int),
        spec_tokenize(command@) matches Ok(cmds) && cmds.len() == 0 ==> r@.permission
            == Permission::Allow,
{
    analyze_at(command, config, res, RECURSION_LIMIT)
}

/// Check a single command, handling wrappers recursively.
pub fn check_single_command(cmd: &Command, config: &Config, res: &Resolutions) -> (r:
    PermissionResult)
    ensures
        r@ == spec_check_single(cmd@, config@, res@, RECURSION_LIMIT as int),
{
    check_single_at(cmd, config, res, RECURSION_LIMIT)
}

fn analyze_at(command: &str, config: &Config, res: &Resolutions, depth: u64) -> (r:
    PermissionResult)
    ensures
        r@ == spec_analyze(command@, config@, res@, depth as int),
    decreases depth, 2int, 0int,
{
    if depth == 0 {
        return too_deep_result();
    }
    let cmds = match tokenize(command) {
        Err(e) => {
            return PermissionResult { permission: Permission::Ask, reason: e, suggestion: None };
        },
        Ok(cmds) => cmds,
    };
    if cmds.len() == 0 {
        return PermissionResult {
            permission: Permission::Allow,
            reason: "No commands found".to_owned(),
            suggestion: None,
        };
    }
    let ghost cv = cmds.deep_view();
    let mut acc = PermissionResult {
        permission: Permission::Allow,
        reason: String::new(),
        suggestion: None,
    };
    let mut i: usize = 0;
    while i < cmds.len()
        invariant
            i <= cmds@.len(),
            cv == cmds.deep_view(),
            depth >= 1,
            spec_fold(cv, 0, spec_init_result(), config@, res@, depth as int) == spec_fold(
                cv,
                i as int,
                acc@,
                config@,
                res@,
                depth as int,
            ),
        decreases cmds@.len() - i,
    {
        proof {
            assert(cv[i as int] == cmds@[i as int]@);
        }
        let cr = check_single_at(&cmds[i], config, res, depth);
        let ghost pre = acc@;
        if cr.permission.rank() > acc.permission.rank() {
            acc = cr;
        }
        proof {
            assert(acc@ == spec_merge(pre, spec_check_single(cv[i as int], config@, res@,
                depth as int)));
        }
        i += 1;
    }
    acc
}

fn check_single_at(cmd: &Command, config: &Config, res: &Resolutions, depth: u64) -> (r:
    PermissionResult)
    ensures
        r@ == spec_check_single(cmd@, config@, res@, depth as int),
    decreases depth, 0int, 0int,
{
    if depth == 0 {
        return too_deep_result();
    }
    let cwd: Option<&str> = match &config.initial_cwd {
        Some(c) => Some(c.as_str()),
        None => None,
    };
    proof {
        assert(opt_view(cwd) == config@);
    }
    match check_rm(cmd, cwd, res) {
        Some(r) => {
            return r;
        },
        None => {},
    }
    match check_tee(cmd, cwd, res) {
        Some(r) => {
            return r;
        },
        None => {},
    }
    match unwrap_command(cmd) {
        Some(u) => match u.inner_command {
            Some(inner) => {
                let ir = analyze_at(inner.as_str(), config, res, depth - 1);
                match u.host {
                    Some(h) => {
                        let hr = config.check_command_with_host(
                            cmd.name.as_str(),
                            &cmd.args,
                            Some(h.as_str()),
                        );
                        if hr.permission.rank() > ir.permission.rank() {
                            hr
                        } else {
                            ir
                        }
                    },
                    None => ir,
                }
            },
            None => match u.host {
                Some(h) => config.check_command_with_host(
                    cmd.name.as_str(),
                    &cmd.args,
                    Some(h.as_str()),
                ),
                None => config.check_command(cmd.name.as_str(), &cmd.args),
            },
        },
        None => config.check_command(cmd.name.as_str(), &cmd.args),
    }
}

// ---------------------------------------------------------------------------
// which paths an analysis will ask about
// ---------------------------------------------------------------------------

/// The canonicalization requests one path argument gives rise to: the path
/// itself, and its lexical parent for the fallback when the path itself
/// cannot be canonicalized.
pub open spec fn spec_one_path_requests(p: Seq<char>) -> Seq<Seq<char>> {
    seq![p] + match crate::resolve::spec_parent(p) {
        Some(par) => if par.len() > 0 {
            seq![par]
        } else {
            Seq::empty()
        },
        None => Seq::empty(),
    }
}

/// The requests of a list of path arguments, in order.
pub open spec fn spec_path_requests(files: Seq<Seq<char>>) -> Seq<Seq<char>>
    decreases files.len(),
{
    if files.len() == 0 {
        Seq::empty()
    } else {
        spec_path_requests(files.drop_last()) + spec_one_path_requests(files.last())
    }
}

/// The requests of one simple command: its own path arguments, then those
/// of its unwrapped inner command, recursively.
pub open spec fn spec_requests_single(c: CmdModel, depth: int) -> Seq<Seq<char>>
    decreases depth, 0int, 0int,
{
    if depth <= 0 {
        Seq::empty()
    } else {
        spec_path_requests(crate::command::spec_file_args(c.args)) + match spec_unwrap_command(
            c,
        ) {
            Some(u) => match u.inner {
                Some(inner) => spec_requests(inner, depth - 1),
                None => Seq::empty(),
            },
            None => Seq::empty(),
        }
    }
}

pub open spec fn spec_requests_fold(cmds: Seq<CmdModel>, i: int, depth: int) -> Seq<Seq<char>>
    decreases depth, 1int, cmds.len() - i,
{
    if i < 0 || i >= cmds.len() {
        Seq::empty()
    } else {
        spec_requests_single(cmds[i], depth) + spec_requests_fold(cmds, i + 1, depth)
    }
}

/// Every path the analysis of this line may ask the canonicalizer about.
pub open spec fn spec_requests(s: Seq<char>, depth: int) -> Seq<Seq<char>>
    decreases depth, 2int, 0int,
{
    if depth <= 0 {
        Seq::empty()
    } else {
        match spec_tokenize(s) {
            Err(_) => Seq::empty(),
            Ok(cmds) => spec_requests_fold(cmds, 0, depth),
        }
    }
}

fn one_path_requests(p: &str, out: &mut Vec<String>)
    ensures
        final(out).deep_view() == old(out).deep_view() + spec_one_path_requests(p@),
{
    let ghost base = out.deep_view();
    out.push(p.to_owned());
    proof {
        assert(out.deep_view() =~= base.push(p@));
    }
    let ghost mid = out.deep_view();
    match crate::resolve::lexical_parent(p) {
        Some(par) => {
            if par.as_str().unicode_len() > 0 {
                out.push(par);
                proof {
                    assert(out.deep_view() =~= mid.push(
                        crate::resolve::spec_parent(p@).unwrap(),
                    ));
                    assert(out.deep_view() =~= base + spec_one_path_requests(p@));
                }
            } else {
                proof {
                    assert(out.deep_view() =~= base + spec_one_path_requests(p@));
                }
            }
        },
        None => {
            proof {
                assert(out.deep_view() =~= base + spec_one_path_requests(p@));
            }
        },
    }
}

fn requests_single_at(cmd: &Command, depth: u64, out: &mut Vec<String>)
    ensures
        final(out).deep_view() == old(out).deep_view() + spec_requests_single(
            cmd@,
            depth as int,
        ),
    decreases depth, 0int, 0int,
{
    if depth == 0 {
        proof {
            assert(out.deep_view() =~= old(out).deep_view() + Seq::<Seq<char>>::empty());
        }
        return;
    }
    let ghost base = out.deep_view();
    let files = crate::command::file_args(&cmd.args);
    let ghost fv = files.deep_view();
    let mut k: usize = 0;
    proof {
        assert(fv.take(0) =~= Seq::<Seq<char>>::empty());
        assert(spec_path_requests(fv.take(0)) =~= Seq::<Seq<char>>::empty());
        assert(out.deep_view() =~= base + spec_path_requests(fv.take(0)));
    }
    while k < files.len()
        invariant
            k <= files@.len(),
            fv == files.deep_view(),
            out.deep_view() == base + spec_path_requests(fv.take(k as int)),
        decreases files@.len() - k,
    {
        proof {
            assert(fv[k as int] == files@[k as int]@);
        }
        one_path_requests(files[k].as_str(), out);
        proof {
            assert(fv.take(k as int + 1).drop_last() =~= fv.take(k as int));
            assert(fv.take(k as int + 1).last() == fv[k as int]);
            assert(out.deep_view() =~= base + spec_path_requests(fv.take(k as int + 1)));
        }
        k += 1;
    }
    proof {
        assert(fv.take(fv.len() as int) =~= fv);
    }
    match unwrap_command(cmd) {
        Some(u) => match u.inner_command {
            Some(inner) => {
                requests_at(inner.as_str(), depth - 1, out);
                proof {
                    assert(out.deep_view() =~= base + spec_requests_single(cmd@, depth as int));
                }
            },
            None => {
                proof {
                    assert(out.deep_view() =~= base + spec_requests_single(cmd@, depth as int));
                }
            },
        },
        None => {
            proof {
                assert(out.deep_view() =~= base + spec_requests_single(cmd@, depth as int));
            }
        },
    }
}

fn requests_at(command: &str, depth: u64, out: &mut Vec<String>)
    ensures
        final(out).deep_view() == old(out).deep_view() + spec_requests(command@, depth as int),
    decreases depth, 2int, 0int,
{
    let ghost base = out.deep_view();
    if depth == 0 {
        proof {
            assert(out.deep_view() =~= base + Seq::<Seq<char>>::empty());
        }
        return;
    }
    match tokenize(command) {
        Err(_) => {
            proof {
                assert(out.deep_view() =~= base + Seq::<Seq<char>>::empty());
            }
        },
        Ok(cmds) => {
            let ghost cv = cmds.deep_view();
            let mut i: usize = 0;
            proof {
                assert(out.deep_view() =~= base + Seq::<Seq<char>>::empty());
            }
            while i < cmds.len()
                invariant
                    i <= cmds@.len(),
                    cv == cmds.deep_view(),
                    depth >= 1,
                    out.deep_view() + spec_requests_fold(cv, i as int, depth as int) == base
                        + spec_requests_fold(cv, 0, depth as int),
                decreases cmds@.len() - i,
            {
                proof {
                    assert(cv[i as int] == cmds@[i as int]@);
                }
                let ghost pre = out.deep_view();
                requests_single_at(&cmds[i], depth, out);
                proof {
                    assert(pre + spec_requests_fold(cv, i as int, depth as int) =~= (pre
                        + spec_requests_single(cv[i as int], depth as int))
                        + spec_requests_fold(cv, i as int + 1, depth as int));
                }
                i += 1;
            }
            proof {
                assert(spec_requests_fold(cv, cv.len() as int, depth as int)
                    =~= Seq::<Seq<char>>::empty());
                assert(out.deep_view() =~= out.deep_view() + spec_requests_fold(
                    cv,
                    cv.len() as int,
                    depth as int,
                ));
                assert(out.deep_view() =~= base + spec_requests(command@, depth as int));
            }
        },
    }
}

/// Every path the analysis of this line may ask the canonicalizer about:
/// the non-flag arguments of each simple command at every unwrapping
/// level, each followed by its lexical parent. The caller canonicalizes
/// these and hands the outcomes back as a `Resolutions` table.
pub fn resolution_requests(command: &str) -> (r: Vec<String>)
    ensures
        r.deep_view() == spec_requests(command@, RECURSION_LIMIT as int),
{
    let mut out: Vec<String> = Vec::new();
    proof {
        assert(out.deep_view() =~= Seq::<Seq<char>>::empty());
    }
    requests_at(command, RECURSION_LIMIT, &mut out);
    proof {
        assert(Seq::<Seq<char>>::empty() + spec_requests(command@, RECURSION_LIMIT as int)
            =~= spec_requests(command@, RECURSION_LIMIT as int));
    }
    out
}

// ---------------------------------------------------------------------------
// laws of the aggregation
// ---------------------------------------------------------------------------

/// An empty command sequence is allowed.
pub proof fn lemma_empty_allows(
    s: Seq<char>,
    cwd: Option<Seq<char>>,
    res: Seq<PathEntryModel>,
    depth: int,
)
    requires
        depth >= 1,
        spec_tokenize(s) == Ok::<Seq<CmdModel>, Seq<char>>(Seq::<CmdModel>::empty()),
    ensures
        spec_analyze(s, cwd, res, depth) == spec_no_commands(),
        spec_analyze(s, cwd, res, depth).permission == Permission::Allow,
{
}

/// What the fold guarantees: its result is at least as restrictive as the
/// accumulator and as every remaining command's verdict, and it is the
/// accumulator or one of those verdicts.
proof fn lemma_fold_props(
    cmds: Seq<CmdModel>,
    i: int,
    acc: ResultModel,
    cwd: Option<Seq<char>>,
    res: Seq<PathEntryModel>,
    depth: int,
)
    requires
        0 <= i <= cmds.len(),
    ensures
        spec_fold(cmds, i, acc, cwd, res, depth).permission.spec_rank()
            >= acc.permission.spec_rank(),
        forall|k: int| i <= k < cmds.len() ==> spec_fold(
            cmds,
            i,
            acc,
            cwd,
            res,
            depth,
        ).permission.spec_rank() >= spec_check_single(
            #[trigger] cmds[k],
            cwd,
            res,
            depth,
        ).permission.spec_rank(),
        spec_fold(cmds, i, acc, cwd, res, depth) == acc || exists|k: int|
            i <= k < cmds.len() && spec_fold(cmds, i, acc, cwd, res, depth)
                == spec_check_single(#[trigger] cmds[k], cwd, res, depth),
    decreases cmds.len() - i,
{
    if i < cmds.len() {
        let cs = spec_check_single(cmds[i], cwd, res, depth);
        let merged = spec_merge(acc, cs);
        lemma_fold_props(cmds, i + 1, merged, cwd, res, depth);
        let f = spec_fold(cmds, i, acc, cwd, res, depth);
        assert(f == spec_fold(cmds, i + 1, merged, cwd, res, depth));
        if f == merged && merged != acc {
            assert(f == cs);
        }
    }
}

/// The most-restrictive law: for a line of one or more simple commands,
/// the final permission's rank is the maximum over each simple command's
/// individually computed permission.
pub proof fn lemma_most_restrictive(
    s: Seq<char>,
    cwd: Option<Seq<char>>,
    res: Seq<PathEntryModel>,
    depth: int,
    cmds: Seq<CmdModel>,
)
    requires
        depth >= 1,
        spec_tokenize(s) == Ok::<Seq<CmdModel>, Seq<char>>(cmds),
        cmds.len() > 0,
    ensures
        forall|k: int| 0 <= k < cmds.len() ==> spec_analyze(
            s,
            cwd,
            res,
            depth,
        ).permission.spec_rank() >= spec_check_single(
            #[trigger] cmds[k],
            cwd,
            res,
            depth,
        ).permission.spec_rank(),
        exists|k: int| 0 <= k < cmds.len() && spec_analyze(s, cwd, res, depth).permission
            == spec_check_single(#[trigger] cmds[k], cwd, res, depth).permission,
{
    let f = spec_analyze(s, cwd, res, depth);
    assert(f == spec_fold(cmds, 0, spec_init_result(), cwd, res, depth));
    lemma_fold_props(cmds, 0, spec_init_result(), cwd, res, depth);
    if f == spec_init_result() {
        // Every command's rank is at most the initial Allow, so every
        // command allows, and the first one witnesses the equality.
        let c0 = spec_check_single(cmds[0], cwd, res, depth);
        assert(c0.permission.spec_rank() <= 0);
        assert(c0.permission == Permission::Allow) by {
            match c0.permission {
                Permission::Allow => {},
                Permission::Ask => {
                    assert(false);
                },
                Permission::Deny => {
                    assert(false);
                },
            }
        }
        assert(f.permission == c0.permission);
    }
}

/// Does the analysis of this line reach the nesting cap anywhere, at the
/// given budget?
pub open spec fn spec_hits_cap(
    s: Seq<char>,
    cwd: Option<Seq<char>>,
    res: Seq<PathEntryModel>,
    depth: int,
) -> bool
    decreases depth, 2int, 0int,
{
    if depth <= 0 {
        true
    } else {
        match spec_tokenize(s) {
            Err(_) => false,
            Ok(cmds) => if cmds.len() == 0 {
                false
            } else {
                spec_hits_cap_fold(cmds, 0, cwd, res, depth)
            },
        }
    }
}

pub open spec fn spec_hits_cap_fold(
    cmds: Seq<CmdModel>,
    i: int,
    cwd: Option<Seq<char>>,
    res: Seq<PathEntryModel>,
    depth: int,
) -> bool
    decreases depth, 1int, cmds.len() - i,
{
    if i < 0 || i >= cmds.len() {
        false
    } else {
        spec_hits_cap_single(cmds[i], cwd, res, depth) || spec_hits_cap_fold(
            cmds,
            i + 1,
            cwd,
            res,
            depth,
        )
    }
}

pub open spec fn spec_hits_cap_single(
    c: CmdModel,
    cwd: Option<Seq<char>>,
    res: Seq<PathEntryModel>,
    depth: int,
) -> bool
    decreases depth, 0int, 0int,
{
    if depth <= 0 {
        true
    } else {
        match spec_check_rm(c, cwd, res) {
            Some(_) => false,
            None => match spec_check_tee(c, res) {
                Some(_) => false,
                None => match spec_unwrap_command(c) {
                    Some(u) => match u.inner {
                        Some(inner) => spec_hits_cap(inner, cwd, res, depth - 1),
                        None => false,
                    },
                    None => false,
                },
            },
        }
    }
}

/// Below the cap, the analysis does not depend on the budget.
pub proof fn lemma_stable_analyze(
    s: Seq<char>,
    cwd: Option<Seq<char>>,
    res: Seq<PathEntryModel>,
    d1: int,
    d2: int,
)
    requires
        0 <= d1 <= d2,
        !spec_hits_cap(s, cwd, res, d1),
    ensures
        !spec_hits_cap(s, cwd, res, d2),
        spec_analyze(s, cwd, res, d1) == spec_analyze(s, cwd, res, d2),
    decreases d1, 2int, 0int,
{
    assert(d1 >= 1);
    match spec_tokenize(s) {
        Err(_) => {},
        Ok(cmds) => {
            if cmds.len() > 0 {
                lemma_stable_fold(cmds, 0, spec_init_result(), cwd, res, d1, d2);
            }
        },
    }
}

proof fn lemma_stable_fold(
    cmds: Seq<CmdModel>,
    i: int,
    acc: ResultModel,
    cwd: Option<Seq<char>>,
    res: Seq<PathEntryModel>,
    d1: int,
    d2: int,
)
    requires
        0 <= i,
        1 <= d1 <= d2,
        !spec_hits_cap_fold(cmds, i, cwd, res, d1),
    ensures
        !spec_hits_cap_fold(cmds, i, cwd, res, d2),
        spec_fold(cmds, i, acc, cwd, res, d1) == spec_fold(cmds, i, acc, cwd, res, d2),
    decreases d1, 1int, cmds.len() - i,
{
    if i < cmds.len() {
        lemma_stable_single(cmds[i], cwd, res, d1, d2);
        let merged = spec_merge(acc, spec_check_single(cmds[i], cwd, res, d1));
        lemma_stable_fold(cmds, i + 1, merged, cwd, res, d1, d2);
    }
}

proof fn lemma_stable_single(
    c: CmdModel,
    cwd: Option<Seq<char>>,
    res: Seq<PathEntryModel>,
    d1: int,
    d2: int,
)
    requires
        0 <= d1 <= d2,
        !spec_hits_cap_single(c, cwd, res, d1),
    ensures
        !spec_hits_cap_single(c, cwd, res, d2),
        spec_check_single(c, cwd, res, d1) == spec_check_single(c, cwd, res, d2),
    decreases d1, 0int, 0int,
{
    assert(d1 >= 1);
    match spec_check_rm(c, cwd, res) {
        Some(_) => {},
        None => match spec_check_tee(c, res) {
            Some(_) => {},
            None => match spec_unwrap_command(c) {
                Some(u) => match u.inner {
                    Some(inner) => {
                        lemma_stable_analyze(inner, cwd, res, d1 - 1, d2 - 1);
                    },
                    None => {},
                },
                None => {},
            },
        },
    }
}

/// The idempotence law: a command that the classifiers pass over and that
/// unwraps to an inner command with no host gets exactly the verdict of
/// analyzing that inner command directly at the same budget, as long as
/// the inner analysis stays below the nesting cap.
pub proof fn lemma_unwrap_idempotent(
    c: CmdModel,
    inner: Seq<char>,
    cwd: Option<Seq<char>>,
    res: Seq<PathEntryModel>,
    depth: int,
)
    requires
        depth >= 1,
        spec_check_rm(c, cwd, res) is None,
        spec_check_tee(c, res) is None,
        spec_unwrap_command(c) matches Some(u) && u.inner == Some(inner) && u.host is None,
        !spec_hits_cap(inner, cwd, res, depth - 1),
    ensures
        spec_check_single(c, cwd, res, depth) == spec_analyze(inner, cwd, res, depth),
{
    assert(spec_check_single(c, cwd, res, depth) == spec_analyze(inner, cwd, res, depth - 1));
    lemma_stable_analyze(inner, cwd, res, depth - 1, depth);
}

/// A fold that started from the initial verdict is either still that
/// verdict or strictly more restrictive than it: merging only ever
/// replaces on a strict rank increase.
proof fn lemma_fold_from_init(
    cmds: Seq<CmdModel>,
    i: int,
    acc: ResultModel,
    cwd: Option<Seq<char>>,
    res: Seq<PathEntryModel>,
    depth: int,
)
    requires
        acc == spec_init_result() || acc.permission.spec_rank() > 0,
    ensures
        spec_fold(cmds, i, acc, cwd, res, depth) == spec_init_result() || spec_fold(
            cmds,
            i,
            acc,
            cwd,
            res,
            depth,
        ).permission.spec_rank() > 0,
    decreases cmds.len() - i,
{
    if 0 <= i < cmds.len() {
        let merged = spec_merge(acc, spec_check_single(cmds[i], cwd, res, depth));
        lemma_fold_from_init(cmds, i + 1, merged, cwd, res, depth);
    }
}

/// The idempotence law at the level of whole lines: a line that is exactly
/// one wrapper command (passed over by the classifiers, unwrapping to an
/// inner command with no host) gets the same analysis as the inner command
/// line itself, at the same budget. The inner analysis must stay below the
/// defensive nesting cap, and the inner line must hold at least one simple
/// command: an empty inner line answers "No commands found" directly,
/// while through a wrapper that text is absorbed by the aggregation's
/// start-from-Allow rule.
pub proof fn lemma_analysis_idempotent(
    s: Seq<char>,
    c: CmdModel,
    inner: Seq<char>,
    cwd: Option<Seq<char>>,
    res: Seq<PathEntryModel>,
    depth: int,
)
    requires
        depth >= 1,
        spec_tokenize(s) == Ok::<Seq<CmdModel>, Seq<char>>(seq![c]),
        spec_check_rm(c, cwd, res) is None,
        spec_check_tee(c, res) is None,
        spec_unwrap_command(c) matches Some(u) && u.inner == Some(inner) && u.host is None,
        !spec_hits_cap(inner, cwd, res, depth - 1),
        spec_tokenize(inner) matches Ok(ics) && ics.len() > 0,
    ensures
        spec_analyze(s, cwd, res, depth) == spec_analyze(inner, cwd, res, depth),
{
    let cmds = seq![c];
    let init = spec_init_result();
    assert(cmds[0] == c);
    assert(cmds.len() == 1);
    lemma_unwrap_idempotent(c, inner, cwd, res, depth);
    let x = spec_analyze(inner, cwd, res, depth);
    assert(spec_analyze(s, cwd, res, depth) == spec_fold(cmds, 0, init, cwd, res, depth));
    assert(spec_fold(cmds, 0, init, cwd, res, depth) == spec_fold(
        cmds,
        1,
        spec_merge(init, x),
        cwd,
        res,
        depth,
    ));
    assert(spec_fold(cmds, 1, spec_merge(init, x), cwd, res, depth) == spec_merge(init, x));
    // The inner analysis is itself a fold from the initial verdict (the cap
    // is not hit and the inner line holds a command), so it is that verdict
    // or strictly above it; either way the merge hands it through.
    assert(depth - 1 >= 1);
    let ics = spec_tokenize(inner)->Ok_0;
    assert(x == spec_fold(ics, 0, init, cwd, res, depth));
    lemma_fold_from_init(ics, 0, init, cwd, res, depth);
    if x == init {
        assert(spec_merge(init, x) == x);
    } else {
        assert(x.permission.spec_rank() > 0);
        assert(spec_merge(init, x) == x);
    }
}

// ---------------------------------------------------------------------------
// the human-facing reason
// ---------------------------------------------------------------------------

/// A long command cut to its first sixty characters for display.
pub open spec fn spec_shorten(cmd: Seq<char>) -> Seq<char> {
    if cmd.len() > 60 {
        cmd.subrange(0, 60)
    } else {
        cmd
    }
}

/// Shorten a long command for display.
pub fn shorten_command(command: &str) -> (r: String)
    ensures
        r@ == spec_shorten(command@),
{
    if command.unicode_len() > 60 {
        substring(command, 0, 60)
    } else {
        command.to_owned()
    }
}

/// The reason shown to a human: the raw line verbatim when there is
/// nothing to say, otherwise the shortened line, the reason, and any
/// suggestion on its own line.
pub open spec fn spec_format_reason(cmd: Seq<char>, r: ResultModel) -> Seq<char> {
    let base = if r.reason.len() == 0 {
        cmd
    } else {
        spec_shorten(cmd) + ": "@ + r.reason
    };
    match r.suggestion {
        Some(s) => base + "\n"@ + s,
        None => base,
    }
}

/// Format the reason string, assembled once at the outermost call.
pub fn format_reason(command: &str, result: &PermissionResult) -> (r: String)
    ensures
        r@ == spec_format_reason(command@, result@),
{
    let mut out: String;
    if result.reason.as_str().unicode_len() == 0 {
        out = command.to_owned();
    } else {
        out = shorten_command(command);
        out.append(": ");
        out.append(result.reason.as_str());
    }
    match &result.suggestion {
        Some(s) => {
            out.append("\n");
            out.append(s.as_str());
        },
        None => {},
    }
    out
}

} // verus!
