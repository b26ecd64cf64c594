//! Safe-path classification for the write-redirect command.
//!
//! `tee` with no file arguments only copies its input through and is
//! auto-allowed unconditionally; with file arguments it is auto-allowed
//! only when every one is proven confined to the system temporary
//! directory. Anything short of proof defers to the generic policy lookup
//! (`None`); this classifier never denies.

use vstd::prelude::*;
use crate::command::{Command, file_args, spec_file_args};
use crate::permission::{Permission, PermissionResult, ResultModel};
use crate::resolve::{Resolutions, PathEntryModel, lexical_parent, spec_parent,
    spec_resolution_of};
use crate::rm::{path_chars_ok, spec_path_chars_ok, spec_under_tmp, is_under_tmp};
use crate::strutil::str_eq;

verus! {

/// A path argument proven safe to write: plausible characters, and its
/// canonical form (or its lexical parent's, when it has none recorded)
/// strictly inside the temporary directory.
pub open spec fn spec_tee_safe_path(path: Seq<char>, res: Seq<PathEntryModel>) -> bool {
    &&& spec_path_chars_ok(path)
    &&& match spec_resolution_of(res, path) {
        Some(r) => spec_under_tmp(r),
        None => match spec_parent(path) {
            Some(par) => par.len() > 0 && match spec_resolution_of(res, par) {
                Some(rp) => spec_under_tmp(rp),
                None => false,
            },
            None => false,
        },
    }
}

/// Is this path argument proven safe to write?
pub fn is_safe_tmp_path(path: &str, res: &Resolutions) -> (r: bool)
    ensures
        r == spec_tee_safe_path(path@, res@),
{
    if !path_chars_ok(path) {
        return false;
    }
    match res.resolution_of(path) {
        Some(resolved) => is_under_tmp(resolved.as_str()),
        None => match lexical_parent(path) {
            Some(parent) => {
                if parent.as_str().unicode_len() == 0 {
                    return false;
                }
                match res.resolution_of(parent.as_str()) {
                    Some(rp) => is_under_tmp(rp.as_str()),
                    None => false,
                }
            },
            None => false,
        },
    }
}

/// Check whether a write-redirect command is auto-allowed: with no file
/// arguments it only copies input to output and is allowed; otherwise
/// every file argument must independently be proven confined to the
/// temporary directory.
pub open spec fn spec_check_tee(c: crate::command::CmdModel, res: Seq<PathEntryModel>) -> Option<
    ResultModel,
> {
    if c.name != "tee"@ {
        None
    } else {
        let files = spec_file_args(c.args);
        if files.len() == 0 {
            Some(
                ResultModel {
                    permission: Permission::Allow,
                    reason: "tee with no output file"@,
                    suggestion: None,
                },
            )
        } else if forall|k: int| 0 <= k < files.len() ==> spec_tee_safe_path(
            #[trigger] files[k],
            res,
        ) {
            Some(
                ResultModel {
                    permission: Permission::Allow,
                    reason: "tee to /tmp"@,
                    suggestion: None,
                },
            )
        } else {
            None
        }
    }
}

/// Check if a tee command should be auto-allowed: writing confined to the
/// temporary directory. The working directory plays no part here.
pub fn check_tee(cmd: &Command, _initial_cwd: Option<&str>, res: &Resolutions) -> (r: Option<
    PermissionResult,
>)
    ensures
        r.deep_view() == spec_check_tee(cmd@, res@),
{
    if !str_eq(cmd.name.as_str(), "tee") {
        return None;
    }
    let files = file_args(&cmd.args);
    if files.len() == 0 {
        return Some(
            PermissionResult {
                permission: Permission::Allow,
                reason: "tee with no output file".to_owned(),
                suggestion: None,
            },
        );
    }
    let ghost fv = files.deep_view();
    let mut k: usize = 0;
    while k < files.len()
        invariant
            k <= files@.len(),
            fv == files.deep_view(),
            fv == spec_file_args(cmd@.args),
            fv.len() > 0,
            forall|t: int| 0 <= t < k ==> spec_tee_safe_path(#[trigger] fv[t], res@),
        decreases files@.len() - k,
    {
        proof {
            assert(fv[k as int] == files@[k as int]@);
        }
        if !is_safe_tmp_path(files[k].as_str(), res) {
            return None;
        }
        k += 1;
    }
    Some(
        PermissionResult {
            permission: Permission::Allow,
            reason: "tee to /tmp".to_owned(),
            suggestion: None,
        },
    )
}

} // verus!
