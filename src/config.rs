//! The two numeric settings, read from their command-line text.

use vstd::prelude::*;
use crate::writer::MAX_FILE_COUNT;

verus! {

/// The size threshold used when the size text cannot be read.
pub const DEFAULT_FILE_SIZE: u64 = 10 * 1024 * 1028;

/// The number of retained files used when the count text cannot be read.
pub const DEFAULT_FILE_COUNT: u32 = 10;

/// What the size parser makes of a text such as `10m`, `512k` or `4096`.
pub uninterp spec fn parsed_size(s: Seq<char>) -> Option<i64>;

/// What `i32`'s parser makes of a text.
pub uninterp spec fn parsed_count(s: Seq<char>) -> Option<i32>;

/// Relies on rust_util::util_size::parse_size, which reads a human-readable
/// size (a number with an optional k, m, g, t or p and an optional b); its
/// result depends on the text alone.
#[verifier::external_body]
fn parse_size_text(s: &str) -> (r: Option<i64>)
    ensures
        r == parsed_size(s@),
{
    rust_util::util_size::parse_size(s).ok()
}

/// Relies on std's `str::parse::<i32>`; its result depends on the text alone.
#[verifier::external_body]
fn parse_count_text(s: &str) -> (r: Option<i32>)
    ensures
        r == parsed_count(s@),
{
    s.parse::<i32>().ok()
}

/// The size threshold for a parser result: a byte count where one was read,
/// the default otherwise.
pub open spec fn size_setting(p: Option<i64>) -> u64 {
    match p {
        Some(v) => if v >= 0 { v as u64 } else { DEFAULT_FILE_SIZE },
        None => DEFAULT_FILE_SIZE,
    }
}

/// The retained-file count for a parser result: clamped to the window's
/// range where a number was read, the default otherwise.
pub open spec fn count_setting(p: Option<i32>) -> u32 {
    match p {
        Some(v) => if v < 0 {
            0
        } else if v > MAX_FILE_COUNT {
            MAX_FILE_COUNT
        } else {
            v as u32
        },
        None => DEFAULT_FILE_COUNT,
    }
}

/// The size threshold for what the size parser returned.
pub fn size_from_parsed(p: Option<i64>) -> (r: u64)
    ensures
        r == size_setting(p),
{
    match p {
        Some(v) => if v >= 0 { v as u64 } else { DEFAULT_FILE_SIZE },
        None => DEFAULT_FILE_SIZE,
    }
}

/// The retained-file count for what the count parser returned.
pub fn count_from_parsed(p: Option<i32>) -> (r: u32)
    ensures
        r == count_setting(p),
        r <= MAX_FILE_COUNT,
{
    match p {
        Some(v) => if v < 0 {
            0
        } else if v > MAX_FILE_COUNT as i32 {
            MAX_FILE_COUNT
        } else {
            v as u32
        },
        None => DEFAULT_FILE_COUNT,
    }
}

/// Reads the size threshold from its text (`10m`), falling back to the
/// default where the text is no size.
pub fn file_size_setting(text: &str) -> (r: u64)
    ensures
        r == size_setting(parsed_size(text@)),
{
    size_from_parsed(parse_size_text(text))
}

/// Reads the retained-file count from its text, clamped to 0 to 1000,
/// falling back to the default where the text is no number.
pub fn file_count_setting(text: &str) -> (r: u32)
    ensures
        r == count_setting(parsed_count(text@)),
        r <= MAX_FILE_COUNT,
{
    count_from_parsed(parse_count_text(text))
}

} // verus!
