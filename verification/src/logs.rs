//! What is told about the application's log file.

use vstd::prelude::*;
use crate::message::{decimal, decimal_text, digit, digit_text};
use crate::time::{format_utc, utc_text};

verus! {

/// The quotient of two numbers, rounded to the nearest whole number, and
/// to the even one of two that are equally near.
pub open spec fn rounded_quotient(n: nat, d: nat) -> nat {
    let q = n / d;
    let r = n % d;
    if 2 * r > d || (2 * r == d && q % 2 == 1) {
        q + 1
    } else {
        q
    }
}

/// The power of two of which every number is a multiple that is held with
/// 53 significant bits and is as large as `bytes`.
pub open spec fn grain(bytes: u64) -> nat {
    if bytes < 0x20_0000_0000_0000 {
        1
    } else if bytes < 0x40_0000_0000_0000 {
        2
    } else if bytes < 0x80_0000_0000_0000 {
        4
    } else if bytes < 0x100_0000_0000_0000 {
        8
    } else if bytes < 0x200_0000_0000_0000 {
        16
    } else if bytes < 0x400_0000_0000_0000 {
        32
    } else if bytes < 0x800_0000_0000_0000 {
        64
    } else if bytes < 0x1000_0000_0000_0000 {
        128
    } else if bytes < 0x2000_0000_0000_0000 {
        256
    } else if bytes < 0x4000_0000_0000_0000 {
        512
    } else if bytes < 0x8000_0000_0000_0000 {
        1024
    } else {
        2048
    }
}

/// A size as it is held with 53 significant bits: the nearest multiple of
/// its grain. Sizes below 2 to the 53rd are held as they are.
pub open spec fn held(bytes: u64) -> nat {
    rounded_quotient(bytes as nat, grain(bytes)) * grain(bytes)
}

/// The number of bytes of the unit in which a size is told: the largest of
/// byte, KB, MB and GB that is not larger than the size.
pub open spec fn unit_scale(bytes: u64) -> nat {
    if bytes < 1024 {
        1
    } else if bytes < 1024 * 1024 {
        1024
    } else if bytes < 1024 * 1024 * 1024 {
        1024 * 1024
    } else {
        1024 * 1024 * 1024
    }
}

/// The name of the unit in which a size is told.
pub open spec fn unit_name(bytes: u64) -> Seq<char> {
    if bytes < 1024 {
        "B"@
    } else if bytes < 1024 * 1024 {
        "KB"@
    } else if bytes < 1024 * 1024 * 1024 {
        "MB"@
    } else {
        "GB"@
    }
}

/// A size in hundredths of its unit, rounded to the nearest hundredth, and
/// to the even one of two that are equally near.
pub open spec fn hundredths(bytes: u64) -> nat {
    rounded_quotient(held(bytes) * 100, unit_scale(bytes))
}

/// A size in words: in bytes below 1024, and else in its unit with two
/// decimals.
pub open spec fn size_text(bytes: u64) -> Seq<char> {
    if bytes < 1024 {
        decimal_text(bytes as nat) + " B"@
    } else {
        let h = hundredths(bytes);
        decimal_text(h / 100) + "."@ + seq![digit(h / 10 % 10), digit(h % 10)] + " "@ + unit_name(bytes)
    }
}

/// The quotient of two numbers, rounded to the nearest whole number, and
/// to the even one of two that are equally near.
fn round_quotient(n: u128, d: u128) -> (q: u128)
    requires
        0 < d <= 0x1_0000_0000_0000_0000,
        n <= 0xffff_ffff_ffff_ffff_ffff_ffff,
    ensures
        q == rounded_quotient(n as nat, d as nat),
        q * d <= n + d,
        q <= n + 1,
{
    let q = n / d;
    let r = n % d;
    assert(q * d + r == n && r < d && q <= n) by (nonlinear_arith)
        requires
            q == n / d,
            r == n % d,
            d > 0,
    ;
    assert((q + 1) * d == q * d + d) by (nonlinear_arith);
    if 2 * r > d || (2 * r == d && q % 2 == 1) {
        q + 1
    } else {
        q
    }
}

/// The grain of a size.
fn grain_of(bytes: u64) -> (unit: u128)
    ensures
        unit == grain(bytes),
        0 < unit <= 2048,
{
    if bytes < 0x20_0000_0000_0000 {
        1
    } else if bytes < 0x40_0000_0000_0000 {
        2
    } else if bytes < 0x80_0000_0000_0000 {
        4
    } else if bytes < 0x100_0000_0000_0000 {
        8
    } else if bytes < 0x200_0000_0000_0000 {
        16
    } else if bytes < 0x400_0000_0000_0000 {
        32
    } else if bytes < 0x800_0000_0000_0000 {
        64
    } else if bytes < 0x1000_0000_0000_0000 {
        128
    } else if bytes < 0x2000_0000_0000_0000 {
        256
    } else if bytes < 0x4000_0000_0000_0000 {
        512
    } else if bytes < 0x8000_0000_0000_0000 {
        1024
    } else {
        2048
    }
}

/// A size in words, as it is told of a file: "512 B", "1.50 KB",
/// "2.00 GB".
pub fn format_file_size(bytes: u64) -> (text: String)
    ensures
        text@ == size_text(bytes),
{
    if bytes < 1024 {
        let mut text = decimal(bytes);
        text.append(" B");
        return text;
    }
    let (scale, unit): (u128, &str) = if bytes < 1024 * 1024 {
        (1024, "KB")
    } else if bytes < 1024 * 1024 * 1024 {
        (1024 * 1024, "MB")
    } else {
        (1024 * 1024 * 1024, "GB")
    };
    let grain = grain_of(bytes);
    let held = round_quotient(bytes as u128, grain) * grain;
    let h = round_quotient(held * 100, scale);
    assert(h <= held * 100 + 1);
    assert(h / 100 <= 0x7fff_ffff_ffff_ffff);
    let whole = (h / 100) as u64;
    let tenths = ((h / 10) % 10) as u64;
    let last = (h % 10) as u64;
    let mut text = decimal(whole);
    text.append(".");
    text.append(digit_text(tenths));
    text.append(digit_text(last));
    text.append(" ");
    text.append(unit);
    proof {
        reveal_strlit(".");
        assert(text@ =~= size_text(bytes));
    }
    text
}

/// A log file as it was found: its size, and the time of its last change
/// in seconds and nanoseconds after the start of 1970.
#[derive(Debug, Clone, Copy, PartialEq, Eq, Structural)]
pub struct LogFile {
    pub size_bytes: u64,
    pub modified_seconds: i64,
    pub modified_nanos: u32,
}

/// What is told about the log file.
#[derive(Debug, Clone, PartialEq, Eq)]
pub struct LogInfo {
    pub exists: bool,
    pub path: String,
    pub size_bytes: u64,
    pub size_human: String,
    pub last_modified: String,
}

/// What is told about the log file, as a mathematical value.
pub struct LogInfoView {
    pub exists: bool,
    pub path: Seq<char>,
    pub size_bytes: u64,
    pub size_human: Seq<char>,
    pub last_modified: Seq<char>,
}

impl View for LogInfo {
    type V = LogInfoView;

    open spec fn view(&self) -> LogInfoView {
        LogInfoView {
            exists: self.exists,
            path: self.path@,
            size_bytes: self.size_bytes,
            size_human: self.size_human@,
            last_modified: self.last_modified@,
        }
    }
}

/// What is told in place of the log file's path, which is not disclosed.
pub open spec fn path_label() -> Seq<char> {
    "日志文件路径"@
}

/// What is told about the log file: its size, in bytes and in words, and
/// the time of its last change where there is one, and else a file of
/// size 0 that does not exist. Nothing is told of a file whose time of
/// change is no instant that can be written.
pub open spec fn log_info(file: Option<LogFile>) -> Option<LogInfoView> {
    match file {
        Some(found) => match utc_text(found.modified_seconds, found.modified_nanos) {
            Some(instant) => Some(
                LogInfoView {
                    exists: true,
                    path: path_label(),
                    size_bytes: found.size_bytes,
                    size_human: size_text(found.size_bytes),
                    last_modified: instant,
                },
            ),
            None => None,
        },
        None => Some(
            LogInfoView {
                exists: false,
                path: path_label(),
                size_bytes: 0,
                size_human: "0 B"@,
                last_modified: "不存在"@,
            },
        ),
    }
}

/// What is told about the log file.
pub fn get_log_info(file: Option<LogFile>) -> (info: Option<LogInfo>)
    ensures
        match info {
            Some(told) => log_info(file) == Some(told@),
            None => log_info(file) is None,
        },
{
    match file {
        Some(found) => match format_utc(found.modified_seconds, found.modified_nanos) {
            Some(instant) => Some(
                LogInfo {
                    exists: true,
                    path: "日志文件路径".to_owned(),
                    size_bytes: found.size_bytes,
                    size_human: format_file_size(found.size_bytes),
                    last_modified: instant,
                },
            ),
            None => None,
        },
        None => Some(
            LogInfo {
                exists: false,
                path: "日志文件路径".to_owned(),
                size_bytes: 0,
                size_human: "0 B".to_owned(),
                last_modified: "不存在".to_owned(),
            },
        ),
    }
}

} // verus!
