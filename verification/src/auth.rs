//! Permission levels and risk classification for chat commands.

use vstd::prelude::*;

use crate::text::{
    first_word, lower_chars, spec_first_word, spec_lower, spec_trim, str_to_chars,
    trim_chars,
};

verus! {

/// Permission levels for bot users.
#[derive(Debug, Clone, Copy, PartialEq, Eq, Structural)]
pub enum PermissionLevel {
    /// Bot owner (first user to start a private conversation).
    Owner,
    /// Public-mode user (non-owner in a group chat with public mode enabled).
    Public,
    /// Denied (non-owner in a private or non-public group).
    Denied,
}

/// Risk classification for commands and actions.
#[derive(Debug, Clone, Copy, PartialEq, Eq, Structural)]
pub enum CommandRisk {
    /// Read-only, no side effects.
    Low,
    /// May read sensitive data.
    Medium,
    /// Modifies state or executes code.
    High,
    /// Administrative.
    Critical,
}

/// The risk tier a command text falls under: keyed by the first
/// whitespace-delimited word of the trimmed, lowercased text.
pub open spec fn spec_classify(text: Seq<char>) -> CommandRisk {
    let w = spec_first_word(spec_lower(spec_trim(text)));
    if w == "/help"@ || w == "/pwd"@ || w == "/availabletools"@ {
        CommandRisk::Low
    } else if w == "/down"@ || w == "/allowedtools"@ {
        CommandRisk::Medium
    } else if w == "/stop"@ || w == "/clear"@ || w == "/start"@ || w == "/public"@ {
        CommandRisk::Critical
    } else {
        CommandRisk::High
    }
}

/// Classify the risk level of a chat command or message.
///
/// Shell escapes and plain prompts both execute code through the agent, so
/// everything that is not a recognized read-only or administrative command
/// is high risk.
pub fn classify_command(command_text: &str) -> (risk: CommandRisk)
    ensures
        risk == spec_classify(command_text@),
{
    let chars = str_to_chars(command_text);
    let trimmed = trim_chars(&chars);
    let lower = lower_chars(&trimmed);
    let cmd = first_word(&lower);

    if chars_is(&cmd, "/help") || chars_is(&cmd, "/pwd") || chars_is(&cmd, "/availabletools") {
        CommandRisk::Low
    } else if chars_is(&cmd, "/down") || chars_is(&cmd, "/allowedtools") {
        CommandRisk::Medium
    } else if chars_is(&cmd, "/stop") || chars_is(&cmd, "/clear") || chars_is(&cmd, "/start")
        || chars_is(&cmd, "/public") {
        CommandRisk::Critical
    } else {
        CommandRisk::High
    }
}

/// Compare a character vector against a string slice.
fn chars_is(v: &Vec<char>, s: &str) -> (r: bool)
    ensures
        r == (v@ == s@),
{
    let sv = str_to_chars(s);
    crate::text::chars_eq(v, &sv)
}

/// Whether a user at `permission` may run a command of risk `risk`:
/// owners may run anything, public users only low-risk commands, denied
/// users nothing.
pub open spec fn spec_can_execute(permission: PermissionLevel, risk: CommandRisk) -> bool {
    match permission {
        PermissionLevel::Owner => true,
        PermissionLevel::Public => risk is Low,
        PermissionLevel::Denied => false,
    }
}

/// Check whether a user with the given permission can execute a command of
/// the given risk.
pub fn can_execute(permission: PermissionLevel, risk: CommandRisk) -> (r: bool)
    ensures
        r == spec_can_execute(permission, risk),
{
    match permission {
        PermissionLevel::Owner => true,
        PermissionLevel::Public => matches!(risk, CommandRisk::Low),
        PermissionLevel::Denied => false,
    }
}

/// The permission a user holds in a chat: the registered owner is `Owner`;
/// with an owner registered, others are `Public` in a public chat and
/// `Denied` elsewhere; with no owner registered yet, the first user imprints
/// as owner.
pub open spec fn spec_permission_level(
    user_id: u64,
    owner_user_id: Option<u64>,
    is_public_chat: bool,
) -> PermissionLevel {
    match owner_user_id {
        Some(owner) => if user_id == owner {
            PermissionLevel::Owner
        } else if is_public_chat {
            PermissionLevel::Public
        } else {
            PermissionLevel::Denied
        },
        None => PermissionLevel::Owner,
    }
}

/// Determine the permission level for a user in a given context.
pub fn get_permission_level(
    user_id: u64,
    owner_user_id: Option<u64>,
    is_public_chat: bool,
) -> (level: PermissionLevel)
    ensures
        level == spec_permission_level(user_id, owner_user_id, is_public_chat),
{
    match owner_user_id {
        Some(owner) => {
            if user_id == owner {
                PermissionLevel::Owner
            } else if is_public_chat {
                PermissionLevel::Public
            } else {
                PermissionLevel::Denied
            }
        }
        None => PermissionLevel::Owner,
    }
}

/// Whether canonical path `target` lies within canonical path `root`:
/// either the same path, or below it at a component boundary.
pub open spec fn spec_path_within(target: Seq<char>, root: Seq<char>) -> bool {
    let prefix = if root.len() > 0 && root[root.len() - 1] == '/' {
        root
    } else {
        root + seq!['/']
    };
    target == root || prefix.is_prefix_of(target)
}

/// Check whether a target path stays within the sandbox root.
///
/// Both paths must already be canonical (absolute, `.`/`..` resolved, no
/// trailing slash except for the root directory itself); resolving them
/// against the file system is the caller's concern.
pub fn is_path_within_sandbox(target: &str, sandbox_root: &str) -> (r: bool)
    ensures
        r == spec_path_within(target@, sandbox_root@),
{
    let t = str_to_chars(target);
    let root = str_to_chars(sandbox_root);
    let mut prefix = str_to_chars(sandbox_root);
    if prefix.len() == 0 || prefix[prefix.len() - 1] != '/' {
        prefix.push('/');
        assert(prefix@ =~= root@ + seq!['/']);
    }
    let same = crate::text::chars_eq(&t, &root);
    same || crate::text::starts_with_chars(&t, &prefix)
}

/// Maximum file upload size in bytes (50 MB).
pub const DEFAULT_UPLOAD_LIMIT: u64 = 50 * 1024 * 1024;

} // verus!
