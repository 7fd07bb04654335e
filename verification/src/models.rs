//! Figures shown by the model commands: durations, how long ago something
//! happened, and the unit a file size is shown in.
use vstd::prelude::*;
use crate::text;
use crate::text::{push_decimal, push_str, string_from_chars};

verus! {

/// A duration of `secs` seconds, leaving out a zero second or minute part:
/// `Ns`, `Nm`, `Nm Ns`, `Nh` or `Nh Nm`.
pub open spec fn compact_duration_text(secs: nat) -> Seq<char> {
    if secs < 60 {
        text::decimal(secs) + "s"@
    } else if secs < 3600 {
        if secs % 60 == 0 {
            text::decimal(secs / 60) + "m"@
        } else {
            text::decimal(secs / 60) + "m "@ + text::decimal(secs % 60) + "s"@
        }
    } else {
        if (secs % 3600) / 60 == 0 {
            text::decimal(secs / 3600) + "h"@
        } else {
            text::decimal(secs / 3600) + "h "@ + text::decimal((secs % 3600) / 60) + "m"@
        }
    }
}

/// A duration (its whole seconds) in human-readable form; below an hour
/// the seconds are kept, above it only hours and minutes.
pub fn format_duration(secs: u64) -> (r: String)
    ensures
        r@ == compact_duration_text(secs as nat),
{
    let mut out: Vec<char> = Vec::new();
    if secs < 60 {
        push_decimal(&mut out, secs);
        push_str(&mut out, "s");
    } else if secs < 3600 {
        push_decimal(&mut out, secs / 60);
        if secs % 60 == 0 {
            push_str(&mut out, "m");
        } else {
            push_str(&mut out, "m ");
            push_decimal(&mut out, secs % 60);
            push_str(&mut out, "s");
        }
    } else {
        push_decimal(&mut out, secs / 3600);
        if (secs % 3600) / 60 == 0 {
            push_str(&mut out, "h");
        } else {
            push_str(&mut out, "h ");
            push_decimal(&mut out, (secs % 3600) / 60);
            push_str(&mut out, "m");
        }
    }
    assert(out@ =~= compact_duration_text(secs as nat));
    string_from_chars(&out)
}

/// How long ago, `secs` seconds back: `Ns ago`, `Nm ago` or `Nh ago`.
pub open spec fn ago_text(secs: nat) -> Seq<char> {
    if secs < 60 {
        text::decimal(secs) + "s ago"@
    } else if secs < 3600 {
        text::decimal(secs / 60) + "m ago"@
    } else {
        text::decimal(secs / 3600) + "h ago"@
    }
}

/// A duration (its whole seconds) as a relative time such as `2m ago`.
pub fn format_relative_time(secs: u64) -> (r: String)
    ensures
        r@ == ago_text(secs as nat),
{
    let mut out: Vec<char> = Vec::new();
    if secs < 60 {
        push_decimal(&mut out, secs);
    } else if secs < 3600 {
        push_decimal(&mut out, secs / 60);
    } else {
        push_decimal(&mut out, secs / 3600);
    }
    if secs < 60 {
        push_str(&mut out, "s ago");
    } else if secs < 3600 {
        push_str(&mut out, "m ago");
    } else {
        push_str(&mut out, "h ago");
    }
    assert(out@ =~= ago_text(secs as nat));
    string_from_chars(&out)
}

/// The unit a file size is shown in.
#[derive(Debug, Clone, Copy, PartialEq, Eq)]
pub enum SizeUnit {
    /// Bytes, shown as a whole number.
    Bytes,
    /// Kibibytes (1024 bytes).
    Kilobytes,
    /// Mebibytes (1024 KB).
    Megabytes,
    /// Gibibytes (1024 MB).
    Gigabytes,
}

/// The number of bytes in one unit.
pub open spec fn unit_bytes(u: SizeUnit) -> nat {
    match u {
        SizeUnit::Bytes => 1,
        SizeUnit::Kilobytes => 1024,
        SizeUnit::Megabytes => 1024 * 1024,
        SizeUnit::Gigabytes => 1024 * 1024 * 1024,
    }
}

/// The unit a size of `bytes` is shown in: the largest of GB, MB and KB
/// that the size reaches, or bytes below one KB.
pub fn file_size_unit(bytes: u64) -> (r: SizeUnit)
    ensures
        r == (if bytes >= unit_bytes(SizeUnit::Gigabytes) {
            SizeUnit::Gigabytes
        } else if bytes >= unit_bytes(SizeUnit::Megabytes) {
            SizeUnit::Megabytes
        } else if bytes >= unit_bytes(SizeUnit::Kilobytes) {
            SizeUnit::Kilobytes
        } else {
            SizeUnit::Bytes
        }),
{
    if bytes >= 1024 * 1024 * 1024 {
        SizeUnit::Gigabytes
    } else if bytes >= 1024 * 1024 {
        SizeUnit::Megabytes
    } else if bytes >= 1024 {
        SizeUnit::Kilobytes
    } else {
        SizeUnit::Bytes
    }
}

/// A size below one KB, shown in bytes: `N B`.
pub fn format_bytes(bytes: u64) -> (r: String)
    ensures
        r@ == text::decimal(bytes as nat) + " B"@,
{
    let mut out: Vec<char> = Vec::new();
    push_decimal(&mut out, bytes);
    push_str(&mut out, " B");
    string_from_chars(&out)
}

} // verus!
