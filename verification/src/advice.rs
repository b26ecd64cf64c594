//! The computable side of the optional advisory: building the prompt sent
//! to the advisor, and shaping its reply.
//!
//! Running the advisor is outside work (a subprocess under a wall-clock
//! timeout) and lives with the caller; advice is requested only for Ask
//! and Deny verdicts, never changes the verdict, and any failure simply
//! yields no advice.

use vstd::prelude::*;
use crate::permission::Permission;
use crate::strutil::spec_trim;

verus! {

/// The advisor prompt for a tentative decision. It is `None` for Allow,
/// where no advice is wanted.
pub open spec fn spec_advice_prompt(
    command: Seq<char>,
    reason: Seq<char>,
    permission: Permission,
) -> Option<Seq<char>> {
    match permission {
        Permission::Allow => None,
        Permission::Ask => Some(spec_prompt_text(command, reason, "ask"@)),
        Permission::Deny => Some(spec_prompt_text(command, reason, "deny"@)),
    }
}

/// The prompt's text, assembled around the command, the tentative verdict
/// and its reason.
pub open spec fn spec_prompt_text(
    command: Seq<char>,
    reason: Seq<char>,
    perm: Seq<char>,
) -> Seq<char> {
    "A CLI permission hook is asking whether to allow this bash command.\nCommand: "@ + command
        + "\nCurrent decision: "@ + perm + " because: "@ + reason
        + "\n\nShould this command be allowed? Reply with ONLY:\n- \"Allow: <reason>\" if the command is safe\n- \"Deny: <reason>\" if risky\nKeep under 30 words."@
}

/// Build the prompt for the advisor, or `None` when the tentative verdict
/// is Allow and no advice is wanted.
pub fn advice_prompt(command: &str, reason: &str, permission: &Permission) -> (r: Option<String>)
    ensures
        r.deep_view() == spec_advice_prompt(command@, reason@, *permission),
{
    let perm: &str = match permission {
        Permission::Ask => "ask",
        Permission::Deny => "deny",
        Permission::Allow => {
            return None;
        },
    };
    let mut out =
        "A CLI permission hook is asking whether to allow this bash command.\nCommand: ".to_owned();
    out.append(command);
    out.append("\nCurrent decision: ");
    out.append(perm);
    out.append(" because: ");
    out.append(reason);
    out.append(
        "\n\nShould this command be allowed? Reply with ONLY:\n- \"Allow: <reason>\" if the command is safe\n- \"Deny: <reason>\" if risky\nKeep under 30 words.",
    );
    Some(out)
}

/// The note shown for the advisor's raw reply: trimmed and labelled, or
/// `None` when the reply is empty.
pub open spec fn spec_advice_note(output: Seq<char>) -> Option<Seq<char>> {
    let t = spec_trim(output);
    if t.len() == 0 {
        None
    } else {
        Some("AI advice: "@ + t)
    }
}

/// Shape the advisor's raw reply into the note shown to a human.
pub fn advice_note(output: &str) -> (r: Option<String>)
    ensures
        r.deep_view() == spec_advice_note(output@),
{
    let t = crate::strutil::trim_str(output);
    if t.as_str().unicode_len() == 0 {
        None
    } else {
        let mut out = "AI advice: ".to_owned();
        out.append(t.as_str());
        Some(out)
    }
}

} // verus!
