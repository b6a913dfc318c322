//! The one line that tells the user what an operation did.

use vstd::prelude::*;
use crate::clear::ClearReport;
use crate::error::StateError;
use crate::operation::Summary;
use crate::restore::RestoreReport;
use crate::text::text_view;

verus! {

/// The character of a digit.
pub open spec fn digit(d: nat) -> char {
    if d == 0 {
        '0'
    } else if d == 1 {
        '1'
    } else if d == 2 {
        '2'
    } else if d == 3 {
        '3'
    } else if d == 4 {
        '4'
    } else if d == 5 {
        '5'
    } else if d == 6 {
        '6'
    } else if d == 7 {
        '7'
    } else if d == 8 {
        '8'
    } else {
        '9'
    }
}

/// A number in decimal digits, without leading zeros.
pub open spec fn decimal_text(n: nat) -> Seq<char>
    decreases n,
{
    if n < 10 {
        seq![digit(n)]
    } else {
        decimal_text(n / 10).push(digit(n % 10))
    }
}

/// The text of a digit.
pub(crate) fn digit_text(d: u64) -> (text: &'static str)
    requires
        d < 10,
    ensures
        text@ == seq![digit(d as nat)],
{
    proof {
        reveal_strlit("0");
        reveal_strlit("1");
        reveal_strlit("2");
        reveal_strlit("3");
        reveal_strlit("4");
        reveal_strlit("5");
        reveal_strlit("6");
        reveal_strlit("7");
        reveal_strlit("8");
        reveal_strlit("9");
    }
    let text = if d == 0 {
        "0"
    } else if d == 1 {
        "1"
    } else if d == 2 {
        "2"
    } else if d == 3 {
        "3"
    } else if d == 4 {
        "4"
    } else if d == 5 {
        "5"
    } else if d == 6 {
        "6"
    } else if d == 7 {
        "7"
    } else if d == 8 {
        "8"
    } else {
        "9"
    };
    assert(text@ =~= seq![digit(d as nat)]);
    text
}

/// A number in decimal digits.
pub fn decimal(n: u64) -> (text: String)
    ensures
        text@ == decimal_text(n as nat),
    decreases n,
{
    if n < 10 {
        digit_text(n).to_owned()
    } else {
        let mut text = decimal(n / 10);
        text.append(digit_text(n % 10));
        text
    }
}

/// The part of a message that counts the rows of one store.
pub open spec fn count_text(label: Seq<char>, count: nat) -> Seq<char> {
    label + decimal_text(count) + " 项"@
}

/// The message of an operation that dealt with `primary` rows of the
/// primary store and, where the replica was worked on, with `replica` rows
/// of the replica.
pub open spec fn summary_text(
    opening: Seq<char>,
    primary_label: Seq<char>,
    replica_label: Seq<char>,
    primary: nat,
    replica: Option<nat>,
) -> Seq<char> {
    opening + count_text(primary_label, primary) + match replica {
        Some(count) => "; "@ + count_text(replica_label, count),
        None => Seq::empty(),
    }
}

/// The message of a clear.
pub open spec fn clear_text(primary: nat, replica: Option<nat>) -> Seq<char> {
    summary_text("✅ 登出成功: "@, "主库清理 "@, "备份库清理 "@, primary, replica)
}

/// The message of a restore.
pub open spec fn restore_text(primary: nat, replica: Option<nat>) -> Seq<char> {
    summary_text("✅ 恢复成功! "@, "主库恢复 "@, "备份库恢复 "@, primary, replica)
}

/// The message of an operation, from its parts.
fn summary_message(opening: &str, primary_label: &str, replica_label: &str, primary: usize, replica: Option<usize>) -> (message: String)
    ensures
        message@ == summary_text(
            opening@,
            primary_label@,
            replica_label@,
            primary as nat,
            match replica {
                Some(count) => Some(count as nat),
                None => None,
            },
        ),
{
    let mut message = opening.to_owned();
    message.append(primary_label);
    message.append(decimal(primary as u64).as_str());
    message.append(" 项");
    match replica {
        Some(count) => {
            message.append("; ");
            message.append(replica_label);
            message.append(decimal(count as u64).as_str());
            message.append(" 项");
            assert(message@ =~= summary_text(opening@, primary_label@, replica_label@, primary as nat, Some(count as nat)));
        },
        None => {
            assert(message@ =~= summary_text(opening@, primary_label@, replica_label@, primary as nat, None));
        },
    }
    message
}

/// The message of a clear: the number of rows that went away in the
/// primary store and, where the replica was cleared, in the replica.
pub fn clear_message(summary: &Summary<ClearReport>) -> (message: String)
    ensures
        message@ == clear_text(
            summary.primary.deleted as nat,
            match summary.replica {
                Some(report) => Some(report.deleted as nat),
                None => None,
            },
        ),
{
    let replica = match &summary.replica {
        Some(report) => Some(report.deleted),
        None => None,
    };
    summary_message("✅ 登出成功: ", "主库清理 ", "备份库清理 ", summary.primary.deleted, replica)
}

/// The message of a restore: the number of rows that were written in the
/// primary store and, where the replica was restored, in the replica.
pub fn restore_message(summary: &Summary<RestoreReport>) -> (message: String)
    ensures
        message@ == restore_text(
            summary.primary.restored as nat,
            match summary.replica {
                Some(report) => Some(report.restored as nat),
                None => None,
            },
        ),
{
    let replica = match &summary.replica {
        Some(report) => Some(report.restored),
        None => None,
    };
    summary_message("✅ 恢复成功! ", "主库恢复 ", "备份库恢复 ", summary.primary.restored, replica)
}

/// The message of an error: its cause, followed by the key or path that
/// it is about where there is one.
pub open spec fn error_text(cause: Seq<char>, key: Option<Seq<char>>) -> Seq<char> {
    match key {
        Some(k) => cause + ": "@ + k,
        None => cause,
    }
}

/// The message of an error that ended an operation.
pub fn error_message(error: &StateError) -> (message: String)
    ensures
        message@ == error_text(error.cause@, text_view(error.key)),
{
    let mut message = error.cause.clone();
    match &error.key {
        Some(key) => {
            message.append(": ");
            message.append(key.as_str());
        },
        None => {},
    }
    message
}

} // verus!
