//! The default rule store: maps a bare command name and arguments to a
//! verdict, with a host-aware variant for remote wrappers.
//!
//! The store is total: a command no rule matches resolves to the
//! configured default, Allow. Destructive deletes that the safe-path
//! classifier could not prove confined are denied; a checkout that can
//! discard local work asks, with a suggestion; a command bound for a
//! remote host asks.

use vstd::prelude::*;
use crate::permission::{Permission, PermissionResult, ResultModel};
use crate::strutil::{opt_view, str_eq};

verus! {

/// The analysis configuration: the session's working directory, trusted as
/// a deletion root when present.
#[derive(Clone, Debug)]
pub struct Config {
    pub initial_cwd: Option<String>,
}

impl View for Config {
    type V = Option<Seq<char>>;

    open spec fn view(&self) -> Option<Seq<char>> {
        self.initial_cwd.deep_view()
    }
}

impl Default for Config {
    /// The default configuration trusts no working directory.
    fn default() -> (r: Config)
        ensures
            r@ is None,
    {
        Config { initial_cwd: None }
    }
}

/// The default rule lookup by command name and arguments.
pub open spec fn spec_check_command(name: Seq<char>, args: Seq<Seq<char>>) -> ResultModel {
    if name == "rm"@ {
        ResultModel {
            permission: Permission::Deny,
            reason: "rm outside trusted directories"@,
            suggestion: None,
        }
    } else if name == "git"@ && args.len() > 0 && args[0] == "checkout"@ {
        ResultModel {
            permission: Permission::Ask,
            reason: "git checkout can discard local changes"@,
            suggestion: Some("Consider git switch or git restore instead."@),
        }
    } else {
        ResultModel { permission: Permission::Allow, reason: Seq::empty(), suggestion: None }
    }
}

/// The host-aware rule lookup: a command bound for a remote host asks;
/// with no host it falls back to the plain lookup.
pub open spec fn spec_check_with_host(
    name: Seq<char>,
    args: Seq<Seq<char>>,
    host: Option<Seq<char>>,
) -> ResultModel {
    match host {
        Some(_) => ResultModel {
            permission: Permission::Ask,
            reason: "command runs on a remote host"@,
            suggestion: None,
        },
        None => spec_check_command(name, args),
    }
}

impl Config {
    /// Look a command up in the rule store. Total: unmatched commands
    /// resolve to the default, Allow with an empty reason.
    pub fn check_command(&self, name: &str, args: &Vec<String>) -> (r: PermissionResult)
        ensures
            r@ == spec_check_command(name@, args.deep_view()),
    {
        if str_eq(name, "rm") {
            return PermissionResult {
                permission: Permission::Deny,
                reason: "rm outside trusted directories".to_owned(),
                suggestion: None,
            };
        }
        if str_eq(name, "git") && args.len() > 0 {
            proof {
                assert(args.deep_view()[0] == args@[0]@);
            }
            if str_eq(args[0].as_str(), "checkout") {
                return PermissionResult {
                    permission: Permission::Ask,
                    reason: "git checkout can discard local changes".to_owned(),
                    suggestion: Some("Consider git switch or git restore instead.".to_owned()),
                };
            }
        }
        PermissionResult { permission: Permission::Allow, reason: String::new(), suggestion: None }
    }

    /// Look a command up with its remote host taken into account.
    pub fn check_command_with_host(
        &self,
        name: &str,
        args: &Vec<String>,
        host: Option<&str>,
    ) -> (r: PermissionResult)
        ensures
            r@ == spec_check_with_host(name@, args.deep_view(), opt_view(host)),
    {
        match host {
            Some(_) => PermissionResult {
                permission: Permission::Ask,
                reason: "command runs on a remote host".to_owned(),
                suggestion: None,
            },
            None => self.check_command(name, args),
        }
    }
}

} // verus!
