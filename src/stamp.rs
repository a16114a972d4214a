//! File metadata and its one-line rendering: a local timestamp and a size.
use vstd::prelude::*;
use chrono::{Datelike, Timelike};
use crate::text::push_str;

verus! {

/// A local date and time, as its calendar fields.
#[derive(Clone, Copy, Debug, PartialEq, Eq)]
pub struct Timestamp {
    pub year: i32,
    pub month: u32,
    pub day: u32,
    pub hour: u32,
    pub minute: u32,
    pub second: u32,
}

impl Timestamp {
    /// Each field lies in its calendar range.
    pub open spec fn wf(&self) -> bool {
        &&& 1 <= self.month <= 12
        &&& 1 <= self.day <= 31
        &&& self.hour < 24
        &&& self.minute < 60
        &&& self.second < 60
    }
}

/// What is shown of a file beside its content: when it last changed and its size.
#[derive(Clone, Copy, Debug, PartialEq, Eq)]
pub struct FileInfo {
    pub modified: Timestamp,
    pub size: u64,
}

/// Whether `secs` seconds after the epoch lie between chrono's
/// `DateTime::<Utc>::MIN_UTC` (January 1, 262144 BCE, 00:00:00) and
/// `DateTime::<Utc>::MAX_UTC` (December 31, 262142 CE, 23:59:59).
pub open spec fn in_chrono_range(secs: int) -> bool {
    -8334601228800 <= secs <= 8210266876799
}

/// Relies on chrono's `DateTime::from_timestamp` and `with_timezone(&Local)`:
/// the local calendar fields of a moment given in seconds since the epoch.
/// `from_timestamp` gives `None` exactly outside chrono's range, and the time
/// zone conversion always succeeds; chrono keeps each field in its range.
#[verifier::external_body]
fn local_fields(secs: i64) -> (r: Option<Timestamp>)
    ensures
        r is Some <==> in_chrono_range(secs as int),
        r matches Some(t) ==> t.wf(),
{
    chrono::DateTime::from_timestamp(secs, 0).map(|utc| {
        let t = utc.with_timezone(&chrono::Local);
        Timestamp {
            year: t.year(),
            month: t.month(),
            day: t.day(),
            hour: t.hour(),
            minute: t.minute(),
            second: t.second(),
        }
    })
}

/// The metadata of a file of `size` bytes last changed `modified_secs` seconds
/// after the epoch, in the local time zone; `None` exactly where the moment
/// lies outside the range of dates that chrono represents.
pub fn file_info(modified_secs: i64, size: u64) -> (r: Option<FileInfo>)
    ensures
        r is Some <==> in_chrono_range(modified_secs as int),
        r matches Some(fi) ==> fi.size == size && fi.modified.wf(),
{
    match local_fields(modified_secs) {
        Some(t) => Some(FileInfo { modified: t, size }),
        None => None,
    }
}

/// The decimal digit for `d`.
pub open spec fn digit(d: int) -> char {
    seq!['0', '1', '2', '3', '4', '5', '6', '7', '8', '9'][d]
}

/// The decimal text of `n`, without leading zeros.
pub open spec fn decimal(n: nat) -> Seq<char>
    decreases n,
{
    if n < 10 {
        seq![digit(n as int)]
    } else {
        decimal(n / 10).push(digit((n % 10) as int))
    }
}

/// The decimal text of `n`, zero-padded on the left to `w` characters.
pub open spec fn padded(n: nat, w: nat) -> Seq<char> {
    let d = decimal(n);
    if d.len() < w {
        Seq::new((w - d.len()) as nat, |k: int| '0') + d
    } else {
        d
    }
}

/// A year as `%Y` writes it: four digits from 0 to 9999, else signed.
pub open spec fn year_text(y: int) -> Seq<char> {
    if 0 <= y <= 9999 {
        padded(y as nat, 4)
    } else if y < 0 {
        seq!['-'] + padded((-y) as nat, 4)
    } else {
        seq!['+'] + padded(y as nat, 4)
    }
}

/// The timestamp as `YYYY-MM-DD HH:MM:SS`.
pub open spec fn stamp_text(t: Timestamp) -> Seq<char> {
    year_text(t.year as int) + seq!['-'] + padded(t.month as nat, 2) + seq!['-'] + padded(
        t.day as nat,
        2,
    ) + seq![' '] + padded(t.hour as nat, 2) + seq![':'] + padded(t.minute as nat, 2) + seq![':']
        + padded(t.second as nat, 2)
}

/// The metadata line: last change and size, each in inline code.
pub open spec fn info_line(fi: FileInfo) -> Seq<char> {
    "*Last modified:* `"@ + stamp_text(fi.modified) + "` | *Size:* `"@ + decimal(fi.size as nat)
        + "` bytes\n\n"@
}

fn digit_of(d: u64) -> (c: char)
    requires
        d < 10,
    ensures
        c == digit(d as int),
{
    match d {
        0 => '0',
        1 => '1',
        2 => '2',
        3 => '3',
        4 => '4',
        5 => '5',
        6 => '6',
        7 => '7',
        8 => '8',
        _ => '9',
    }
}

/// Appends the decimal text of `n`.
pub fn push_decimal(out: &mut String, n: u64)
    ensures
        final(out)@ == old(out)@ + decimal(n as nat),
    decreases n,
{
    if n >= 10 {
        push_decimal(out, n / 10);
    }
    out.push(digit_of(n % 10));
    assert(final(out)@ =~= old(out)@ + decimal(n as nat));
}

/// Appends the decimal text of `n`, zero-padded to `width` characters.
pub fn push_padded(out: &mut String, n: u64, width: usize)
    ensures
        final(out)@ == old(out)@ + padded(n as nat, width as nat),
{
    let mut d = String::new();
    push_decimal(&mut d, n);
    assert(d@ =~= decimal(n as nat));
    let len = d.as_str().unicode_len();
    if len < width {
        let ghost start = out@;
        let mut k: usize = 0;
        while k < width - len
            invariant
                k <= width - len,
                len == d@.len(),
                len < width,
                out@ == start + Seq::new(k as nat, |j: int| '0'),
            decreases width - len - k,
        {
            out.push('0');
            k = k + 1;
            assert(out@ =~= start + Seq::new(k as nat, |j: int| '0'));
        }
        push_str(out, d.as_str());
        assert(out@ =~= start + padded(n as nat, width as nat));
    } else {
        push_str(out, d.as_str());
    }
}

/// Appends the year as `%Y` writes it.
fn push_year(out: &mut String, y: i32)
    ensures
        final(out)@ == old(out)@ + year_text(y as int),
{
    if 0 <= y && y <= 9999 {
        push_padded(out, y as u64, 4);
    } else if y < 0 {
        out.push('-');
        let magnitude: u64 = if y == i32::MIN { 2147483648u64 } else { (-y) as u64 };
        push_padded(out, magnitude, 4);
        assert(final(out)@ =~= old(out)@ + year_text(y as int));
    } else {
        out.push('+');
        push_padded(out, y as u64, 4);
        assert(final(out)@ =~= old(out)@ + year_text(y as int));
    }
}

/// The timestamp as `YYYY-MM-DD HH:MM:SS`.
pub fn format_timestamp(t: Timestamp) -> (r: String)
    ensures
        r@ == stamp_text(t),
{
    let mut r = String::new();
    push_year(&mut r, t.year);
    r.push('-');
    push_padded(&mut r, t.month as u64, 2);
    r.push('-');
    push_padded(&mut r, t.day as u64, 2);
    r.push(' ');
    push_padded(&mut r, t.hour as u64, 2);
    r.push(':');
    push_padded(&mut r, t.minute as u64, 2);
    r.push(':');
    push_padded(&mut r, t.second as u64, 2);
    assert(r@ =~= stamp_text(t));
    r
}

/// Appends the metadata line of `fi`.
pub fn push_info_line(out: &mut String, fi: FileInfo)
    ensures
        final(out)@ == old(out)@ + info_line(fi),
{
    let ghost start = out@;
    push_str(out, "*Last modified:* `");
    let stamp = format_timestamp(fi.modified);
    push_str(out, stamp.as_str());
    push_str(out, "` | *Size:* `");
    push_decimal(out, fi.size);
    push_str(out, "` bytes\n\n");
    assert(out@ =~= start + info_line(fi));
}

} // verus!
