//! Changing the account: the host application is stopped, the account
//! that is signed in is saved, the stores are cleared, and the host
//! application is started again. This module holds what is decided on the
//! way, and what is told at the end.

use vstd::prelude::*;
use crate::json::{json_document, member_text, parse_object, text_member, Json};
use crate::text::{contains_text, occurs};

verus! {

/// Why the account that is signed in could not be told.
#[derive(Debug, Clone, PartialEq, Eq)]
pub enum AccountError {
    /// The status of the authentication is no JSON document; the parser's
    /// words are given.
    Unparsable(String),
    /// The status of the authentication names no address.
    NoEmail,
}

/// The address that the status of the authentication names: the string
/// under `email`, where the status is an object that has one.
pub open spec fn email_of(status: Json) -> Option<Seq<char>> {
    match status {
        Json::Object(members) => member_text(members, "email"@),
        _ => None,
    }
}

/// The address of the account that is signed in, from the row that holds
/// the status of the authentication.
pub fn account_email(auth_status: &str) -> (r: Result<String, AccountError>)
    ensures
        match r {
            Ok(email) => json_document(auth_status@) is Some && email_of(json_document(auth_status@)->0) == Some(email@),
            Err(AccountError::NoEmail) => json_document(auth_status@) is Some && email_of(json_document(auth_status@)->0)
                is None,
            Err(AccountError::Unparsable(_)) => json_document(auth_status@) is None,
        },
{
    match parse_object(auth_status) {
        Ok(Some(object)) => match text_member(&object, "email") {
            Some(email) => Ok(email),
            None => Err(AccountError::NoEmail),
        },
        Ok(None) => Err(AccountError::NoEmail),
        Err(e) => Err(AccountError::Unparsable(e.to_string())),
    }
}

/// Whether a report on stopping the host application says that it was not
/// running.
pub open spec fn says_not_running(report: Seq<char>) -> bool {
    occurs(report, "not found"@) || occurs(report, "未找到"@)
}

/// What is told of a host application that was not running.
pub open spec fn not_running_text() -> Seq<char> {
    "Antigravity 进程未运行"@
}

/// What is made of the attempt to stop the host application, as a
/// mathematical value: the words that are told of it, or the error that
/// ends the change of account.
pub open spec fn stop_result(report: Result<Seq<char>, Seq<char>>) -> Result<Seq<char>, Seq<char>> {
    match report {
        Ok(words) => if says_not_running(words) {
            Ok(not_running_text())
        } else {
            Ok(words)
        },
        Err(words) => if says_not_running(words) {
            Ok(not_running_text())
        } else {
            Err("关闭进程时发生错误: "@ + words)
        },
    }
}

/// The characters of a report.
pub open spec fn report_view(report: Result<String, String>) -> Result<Seq<char>, Seq<char>> {
    match report {
        Ok(words) => Ok(words@),
        Err(words) => Err(words@),
    }
}

/// What is made of the attempt to stop the host application. That it was
/// not running is no error, whether the attempt reports it as a success or
/// as a failure; any other failure ends the change of account.
pub fn stop_outcome(report: Result<String, String>) -> (outcome: Result<String, String>)
    ensures
        report_view(outcome) == stop_result(report_view(report)),
{
    match report {
        Ok(words) => {
            if contains_text(words.as_str(), "not found") || contains_text(words.as_str(), "未找到") {
                Ok("Antigravity 进程未运行".to_owned())
            } else {
                Ok(words)
            }
        },
        Err(words) => {
            if contains_text(words.as_str(), "not found") || contains_text(words.as_str(), "未找到") {
                Ok("Antigravity 进程未运行".to_owned())
            } else {
                let mut message = "关闭进程时发生错误: ".to_owned();
                message.append(words.as_str());
                Err(message)
            }
        },
    }
}

/// What is told of the attempt to start the host application: its own
/// words where it succeeded, and the failure after a fixed opening where
/// it did not.
pub open spec fn start_text(started: Result<Seq<char>, Seq<char>>) -> Seq<char> {
    match started {
        Ok(words) => words,
        Err(words) => "启动失败: "@ + words,
    }
}

/// What is told of a change of account.
pub open spec fn restart_text(stopped: Seq<char>, backup_name: Seq<char>, replaced: bool, started: Result<Seq<char>, Seq<char>>) -> Seq<char> {
    stopped + " -> 已"@ + (if replaced {
        "更新"@
    } else {
        "创建"@
    }) + "备份: "@ + backup_name + " -> 已清除账户数据 -> "@ + start_text(started)
}

/// What is told of a change of account: what came of stopping the host
/// application, the snapshot that was made and whether it replaced an
/// older one, and what came of starting the host application, which does
/// not fail the change where it fails.
pub fn restart_message(stopped: &str, backup_name: &str, replaced: bool, started: Result<String, String>) -> (message: String)
    ensures
        message@ == restart_text(stopped@, backup_name@, replaced, report_view(started)),
{
    let mut message = stopped.to_owned();
    message.append(" -> 已");
    if replaced {
        message.append("更新");
    } else {
        message.append("创建");
    }
    message.append("备份: ");
    message.append(backup_name);
    message.append(" -> 已清除账户数据 -> ");
    match started {
        Ok(words) => {
            message.append(words.as_str());
        },
        Err(words) => {
            message.append("启动失败: ");
            message.append(words.as_str());
            assert(message@ =~= restart_text(stopped@, backup_name@, replaced, Err(words@)));
        },
    }
    message
}

} // verus!
