//! Safe-path classification for the delete command.
//!
//! `rm` is auto-allowed only when every path argument is proven confined to
//! a trusted root: the system temporary directory, or the invoking
//! session's working directory when one is supplied. Anything short of
//! proof defers to the generic policy lookup (`None`); this classifier
//! never denies.

use vstd::prelude::*;
use crate::command::{Command, file_args, spec_file_args};
use crate::permission::{Permission, PermissionResult, ResultModel};
use crate::resolve::{Resolutions, PathEntryModel, lexical_parent, spec_parent,
    spec_resolution_of};
use crate::strutil::{contains_char, opt_view, spec_starts_with, starts_with, str_eq};

verus! {

/// A plausible path argument: nonempty, no null byte, no newline.
pub open spec fn spec_path_chars_ok(p: Seq<char>) -> bool {
    p.len() > 0 && !p.contains('\0') && !p.contains('\n')
}

/// Is this a plausible path argument?
pub fn path_chars_ok(p: &str) -> (r: bool)
    ensures
        r == spec_path_chars_ok(p@),
{
    p.unicode_len() > 0 && !contains_char(p, '\0') && !contains_char(p, '\n')
}

/// A canonical path confined to a root given with its trailing separator:
/// it extends the root by something that is not just more separators, so
/// the root itself (with or without trailing separators) never counts as
/// confined.
pub open spec fn spec_confined(r: Seq<char>, root: Seq<char>) -> bool {
    spec_starts_with(r, root) && (exists|i: int| root.len() <= i < r.len() && r[i] != '/')
}

/// Is this canonical path strictly below the given root?
pub fn confined(resolved: &str, root: &str) -> (r: bool)
    ensures
        r == spec_confined(resolved@, root@),
{
    if !starts_with(resolved, root) {
        return false;
    }
    let start = root.unicode_len();
    let len = resolved.unicode_len();
    let mut i: usize = start;
    while i < len
        invariant
            spec_starts_with(resolved@, root@),
            start == root@.len(),
            len == resolved@.len(),
            start <= i <= len,
            forall|j: int| start <= j < i ==> resolved@[j] == '/',
        decreases len - i,
    {
        if resolved.get_char(i) != '/' {
            proof {
                assert(root@.len() <= (i as int) && (i as int) < resolved@.len()
                    && resolved@[i as int] != '/');
            }
            return true;
        }
        i += 1;
    }
    assert(!spec_confined(resolved@, root@)) by {
        if exists|k: int| root@.len() <= k < resolved@.len() && resolved@[k] != '/' {
            let k = choose|k: int| root@.len() <= k < resolved@.len() && resolved@[k] != '/';
            assert(resolved@[k] == '/');
        }
    }
    false
}

/// A canonical path strictly inside the system temporary directory.
pub open spec fn spec_under_tmp(r: Seq<char>) -> bool {
    spec_confined(r, "/tmp/"@)
}

/// Is this canonical path strictly inside the temporary directory?
pub fn is_under_tmp(resolved: &str) -> (r: bool)
    ensures
        r == spec_under_tmp(resolved@),
{
    confined(resolved, "/tmp/")
}

/// The working directory as a prefix: with exactly one trailing separator.
pub open spec fn spec_cwd_prefix(c: Seq<char>) -> Seq<char> {
    if c.len() > 0 && c.last() == '/' {
        c
    } else {
        c + "/"@
    }
}

/// A canonical path confined to a trusted root: inside the temporary
/// directory, or strictly below the session's working directory.
pub open spec fn spec_under_allowed(r: Seq<char>, cwd: Option<Seq<char>>) -> bool {
    spec_under_tmp(r) || (match cwd {
        Some(c) => spec_confined(r, spec_cwd_prefix(c)),
        None => false,
    })
}

/// Is this canonical path confined to the temporary directory or to the
/// session's working directory?
pub fn is_under_allowed_dir(resolved: &str, initial_cwd: Option<&str>) -> (r: bool)
    ensures
        r == spec_under_allowed(resolved@, opt_view(initial_cwd)),
{
    if is_under_tmp(resolved) {
        return true;
    }
    match initial_cwd {
        Some(c) => {
            let clen = c.unicode_len();
            let mut prefix = c.to_owned();
            if !(clen > 0 && c.get_char(clen - 1) == '/') {
                prefix.append("/");
                proof {
                    assert(c@.last() == c@[clen - 1]);
                }
            } else {
                proof {
                    assert(c@.last() == c@[clen - 1]);
                }
            }
            confined(resolved, prefix.as_str())
        },
        None => false,
    }
}

/// A path argument proven safe to delete: plausible characters, and its
/// canonical form (or, when it has none recorded, its lexical parent's
/// canonical form) confined to a trusted root. An unresolvable path is
/// never proven safe.
pub open spec fn spec_rm_safe_path(
    path: Seq<char>,
    cwd: Option<Seq<char>>,
    res: Seq<PathEntryModel>,
) -> bool {
    &&& spec_path_chars_ok(path)
    &&& match spec_resolution_of(res, path) {
        Some(r) => spec_under_allowed(r, cwd),
        None => match spec_parent(path) {
            Some(par) => par.len() > 0 && match spec_resolution_of(res, par) {
                Some(rp) => spec_under_allowed(rp, cwd),
                None => false,
            },
            None => false,
        },
    }
}

/// Is this path argument proven safe to delete?
pub fn is_safe_path(path: &str, initial_cwd: Option<&str>, res: &Resolutions) -> (r: bool)
    ensures
        r == spec_rm_safe_path(path@, opt_view(initial_cwd), res@),
{
    if !path_chars_ok(path) {
        return false;
    }
    match res.resolution_of(path) {
        Some(resolved) => is_under_allowed_dir(resolved.as_str(), initial_cwd),
        None => match lexical_parent(path) {
            Some(parent) => {
                if parent.as_str().unicode_len() == 0 {
                    return false;
                }
                match res.resolution_of(parent.as_str()) {
                    Some(rp) => is_under_allowed_dir(rp.as_str(), initial_cwd),
                    None => false,
                }
            },
            None => false,
        },
    }
}

/// Check whether a delete command is auto-allowed: every path argument must
/// independently be proven confined; with no path arguments, or any
/// argument short of proof, the classifier has no opinion.
pub open spec fn spec_check_rm(
    c: crate::command::CmdModel,
    cwd: Option<Seq<char>>,
    res: Seq<PathEntryModel>,
) -> Option<ResultModel> {
    if c.name != "rm"@ {
        None
    } else {
        let files = spec_file_args(c.args);
        if files.len() == 0 {
            None
        } else if forall|k: int| 0 <= k < files.len() ==> spec_rm_safe_path(
            #[trigger] files[k],
            cwd,
            res,
        ) {
            Some(
                ResultModel {
                    permission: Permission::Allow,
                    reason: "rm in /tmp or project dir"@,
                    suggestion: None,
                },
            )
        } else {
            None
        }
    }
}

/// Check if an rm command should be auto-allowed: deletion confined to the
/// temporary directory or the session's working directory.
pub fn check_rm(cmd: &Command, initial_cwd: Option<&str>, res: &Resolutions) -> (r: Option<
    PermissionResult,
>)
    ensures
        r.deep_view() == spec_check_rm(cmd@, opt_view(initial_cwd), res@),
{
    if !str_eq(cmd.name.as_str(), "rm") {
        return None;
    }
    let files = file_args(&cmd.args);
    if files.len() == 0 {
        return None;
    }
    let ghost fv = files.deep_view();
    let mut k: usize = 0;
    while k < files.len()
        invariant
            k <= files@.len(),
            fv == files.deep_view(),
            fv == spec_file_args(cmd@.args),
            forall|t: int| 0 <= t < k ==> spec_rm_safe_path(
                #[trigger] fv[t],
                opt_view(initial_cwd),
                res@,
            ),
        decreases files@.len() - k,
    {
        proof {
            assert(fv[k as int] == files@[k as int]@);
        }
        if !is_safe_path(files[k].as_str(), initial_cwd, res) {
            return None;
        }
        k += 1;
    }
    Some(
        PermissionResult {
            permission: Permission::Allow,
            reason: "rm in /tmp or project dir".to_owned(),
            suggestion: None,
        },
    )
}

} // verus!
