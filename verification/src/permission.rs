//! The ranked permission value and the result record that every check
//! produces.
//!
//! `Permission` is totally ordered `Allow < Ask < Deny`; combining several
//! verdicts means keeping the one of highest rank.

use vstd::prelude::*;

verus! {

/// A verdict on a command: the three values are ranked, `Allow` least
/// restrictive, `Deny` most restrictive.
#[derive(Clone, Copy, Debug, PartialEq, Eq, Structural)]
pub enum Permission {
    Allow,
    Ask,
    Deny,
}

impl Permission {
    /// The rank used when merging verdicts: `Allow` is 0, `Ask` is 1,
    /// `Deny` is 2.
    pub open spec fn spec_rank(self) -> int {
        match self {
            Permission::Allow => 0,
            Permission::Ask => 1,
            Permission::Deny => 2,
        }
    }

    /// Executable rank, equal to the specification rank.
    pub fn rank(self) -> (r: u8)
        ensures
            r as int == self.spec_rank(),
    {
        match self {
            Permission::Allow => 0,
            Permission::Ask => 1,
            Permission::Deny => 2,
        }
    }
}

/// The outcome of checking a command: a permission, a human-facing reason
/// (may be empty), and an optional suggestion shown on its own line.
#[derive(Clone, Debug)]
pub struct PermissionResult {
    pub permission: Permission,
    pub reason: String,
    pub suggestion: Option<String>,
}

/// Mathematical model of a `PermissionResult`.
#[verifier::ext_equal]
pub ghost struct ResultModel {
    pub permission: Permission,
    pub reason: Seq<char>,
    pub suggestion: Option<Seq<char>>,
}

impl View for PermissionResult {
    type V = ResultModel;

    open spec fn view(&self) -> ResultModel {
        ResultModel {
            permission: self.permission,
            reason: self.reason@,
            suggestion: self.suggestion.deep_view(),
        }
    }
}

impl DeepView for PermissionResult {
    type V = ResultModel;

    open spec fn deep_view(&self) -> ResultModel {
        self.view()
    }
}

/// The merge of two verdicts: the newcomer replaces the current one only
/// when it is strictly more restrictive, so among equally ranked verdicts
/// the earliest wins.
pub open spec fn spec_merge(acc: ResultModel, next: ResultModel) -> ResultModel {
    if next.permission.spec_rank() > acc.permission.spec_rank() {
        next
    } else {
        acc
    }
}

} // verus!
