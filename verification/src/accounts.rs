//! Reporting for account operations.
//!
//! An account operation closes the application, backs the signed-in account
//! up, clears the account data, optionally restores a target account, and
//! starts the application again. The steps themselves are process and
//! database glue; here their reports are combined into the one message shown
//! to the user.

use vstd::prelude::*;

verus! {

/// What a unified account operation does after closing the application:
/// sign in fresh (back up, clear, do not restore), or switch (back up,
/// clear, restore the target account).
#[derive(Debug, Clone, Copy, PartialEq, Eq, Structural)]
pub enum AccountOperationType {
    LoginNew,
    Switch,
}

/// What each step of an account operation reported. `backup_info` holds the
/// backup's name and the action taken on it; it is absent when no user was
/// signed in.
#[derive(Debug)]
pub struct AccountOperationResult {
    pub kill_result: String,
    pub backup_info: Option<(String, String)>,
    pub restore_result: Option<String>,
    pub start_result: String,
}

/// The backup step's report, at the spec level.
pub open spec fn spec_backup_view(b: Option<(String, String)>) -> Option<(Seq<char>, Seq<char>)> {
    match b {
        Some(p) => Some((p.0@, p.1@)),
        None => None,
    }
}

/// The middle of a report when a backup was taken: the action and the
/// backup's name.
pub open spec fn spec_backup_taken_part(name: Seq<char>, action: Seq<char>) -> Seq<char> {
    " -> 已"@ + action + "备份: "@ + name
}

/// The full report of signing in fresh.
pub open spec fn spec_login_new_message(
    kill: Seq<char>,
    backup: Option<(Seq<char>, Seq<char>)>,
    start: Seq<char>,
) -> Seq<char> {
    match backup {
        Some(p) => kill + spec_backup_taken_part(p.0, p.1) + " -> 已清除账户数据 -> "@ + start,
        None => kill + " -> 未检测到登录用户（跳过备份）"@ + " -> 已清除账户数据 -> "@ + start,
    }
}

/// The full report of switching accounts.
pub open spec fn spec_switch_message(
    kill: Seq<char>,
    backup: Option<(Seq<char>, Seq<char>)>,
    restore: Option<Seq<char>>,
    start: Seq<char>,
) -> Seq<char> {
    let restore_part = match restore {
        Some(s) => s,
        None => "未恢复"@,
    };
    match backup {
        Some(p) => kill + spec_backup_taken_part(p.0, p.1) + " -> "@ + restore_part + " -> "@
            + start,
        None => kill + " -> 未检测到当前登录用户（跳过备份）"@ + " -> "@ + restore_part + " -> "@
            + start,
    }
}

/// Append the report of a backup that was taken.
fn append_backup_taken(message: &mut String, name: &str, action: &str)
    ensures
        final(message)@ == old(message)@ + spec_backup_taken_part(name@, action@),
{
    message.append(" -> 已");
    message.append(action);
    message.append("备份: ");
    message.append(name);
}

/// The report of signing in fresh: what was closed, what the backup step
/// did, that the account data was cleared, and how the restart went.
pub fn format_login_new_result(result: AccountOperationResult) -> (r: String)
    ensures
        r@ == spec_login_new_message(
            result.kill_result@,
            spec_backup_view(result.backup_info),
            result.start_result@,
        ),
{
    let AccountOperationResult { kill_result, backup_info, restore_result: _, start_result } =
        result;
    let mut message = kill_result;
    match backup_info {
        Some(p) => {
            append_backup_taken(&mut message, p.0.as_str(), p.1.as_str());
        },
        None => {
            message.append(" -> 未检测到登录用户（跳过备份）");
        },
    }
    message.append(" -> 已清除账户数据 -> ");
    message.append(start_result.as_str());
    message
}

/// The report of switching accounts: what was closed, what the backup step
/// did, what was restored, and how the restart went.
pub fn format_switch_result(result: AccountOperationResult) -> (r: String)
    ensures
        r@ == spec_switch_message(
            result.kill_result@,
            spec_backup_view(result.backup_info),
            match result.restore_result {
                Some(s) => Some(s@),
                None => None,
            },
            result.start_result@,
        ),
{
    let AccountOperationResult { kill_result, backup_info, restore_result, start_result } = result;
    let mut message = kill_result;
    match backup_info {
        Some(p) => {
            append_backup_taken(&mut message, p.0.as_str(), p.1.as_str());
        },
        None => {
            message.append(" -> 未检测到当前登录用户（跳过备份）");
        },
    }
    message.append(" -> ");
    match restore_result {
        Some(s) => message.append(s.as_str()),
        None => message.append("未恢复"),
    }
    message.append(" -> ");
    message.append(start_result.as_str());
    message
}

} // verus!
