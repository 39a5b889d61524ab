//! What a search reports: one result for each match, the totals at the end,
//! and the lines in which both are shown.

use crate::entry::EntryView;
use crate::query::QueryError;
use vstd::prelude::*;

verus! {

/// A span of time since the search began, in nanoseconds.
#[derive(Clone, Copy, Debug, PartialEq, Eq, Structural)]
pub struct Elapsed {
    pub nanos: u128,
}

/// One match: the entry's path, when it was found, and its size in bytes
/// where that could be read.
#[derive(Debug)]
pub struct MatchResult {
    pub path: String,
    pub elapsed: Elapsed,
    pub size_bytes: Option<u64>,
}

/// What a match holds.
pub struct MatchView {
    pub path: Seq<char>,
    pub elapsed: Elapsed,
    pub size_bytes: Option<u64>,
}

impl View for MatchResult {
    type V = MatchView;

    open spec fn view(&self) -> MatchView {
        MatchView { path: self.path@, elapsed: self.elapsed, size_bytes: self.size_bytes }
    }
}

/// The result that reports an entry found at a given time.
pub open spec fn report_of(entry: EntryView, elapsed: Elapsed) -> MatchView {
    MatchView { path: entry.path, elapsed, size_bytes: entry.size_bytes }
}

/// The totals of a search: how many matches, and how long it took.
#[derive(Clone, Copy, Debug, PartialEq, Eq, Structural)]
pub struct SearchStats {
    pub count: u64,
    pub elapsed: Elapsed,
}

/// Records a match: counts it, and makes the result that reports it.
pub fn object_was_found(
    path: &String,
    size_bytes: Option<u64>,
    elapsed: Elapsed,
    results_count: &mut u64,
) -> (found: MatchResult)
    requires
        *old(results_count) < u64::MAX,
    ensures
        *final(results_count) == *old(results_count) + 1,
        found@ == (MatchView { path: path@, elapsed, size_bytes }),
{
    *results_count += 1;
    MatchResult { path: path.clone(), elapsed, size_bytes }
}

/// The character that shows a digit.
pub open spec fn digit(value: int) -> char {
    if value == 0 {
        '0'
    } else if value == 1 {
        '1'
    } else if value == 2 {
        '2'
    } else if value == 3 {
        '3'
    } else if value == 4 {
        '4'
    } else if value == 5 {
        '5'
    } else if value == 6 {
        '6'
    } else if value == 7 {
        '7'
    } else if value == 8 {
        '8'
    } else {
        '9'
    }
}

/// A number in decimal, without leading zeros.
pub open spec fn digits(value: nat) -> Seq<char>
    decreases value,
{
    if value < 10 {
        seq![digit(value as int)]
    } else {
        digits(value / 10).push(digit((value % 10) as int))
    }
}

/// The last `width` decimal digits of a number, with zeros in front where it
/// has fewer.
pub open spec fn padded(value: nat, width: nat) -> Seq<char>
    decreases width,
{
    if width == 0 {
        Seq::empty()
    } else {
        padded(value / 10, (width - 1) as nat).push(digit((value % 10) as int))
    }
}

/// The decimal places of `part / 10^width`, without the zeros at the end.
pub open spec fn places(part: nat, width: nat) -> Seq<char>
    decreases width,
{
    if width == 0 || part == 0 {
        Seq::empty()
    } else if part % 10 == 0 {
        places(part / 10, (width - 1) as nat)
    } else {
        padded(part, width)
    }
}

/// The number `whole + part / 10^width` in decimal: the whole part, then a
/// point and the decimal places where there are any.
pub open spec fn decimal(whole: nat, part: nat, width: nat) -> Seq<char> {
    if places(part, width).len() == 0 {
        digits(whole)
    } else {
        digits(whole).push('.') + places(part, width)
    }
}

/// A span of time in seconds.
pub open spec fn seconds_text(elapsed: Elapsed) -> Seq<char> {
    decimal(
        (elapsed.nanos / 1_000_000_000) as nat,
        (elapsed.nanos % 1_000_000_000) as nat,
        9,
    )
}

/// A size in megabytes of a million bytes each.
pub open spec fn megabytes_text(bytes: u64) -> Seq<char> {
    decimal((bytes / 1_000_000) as nat, (bytes % 1_000_000) as nat, 6)
}

/// The line that reports a match: the path, the time at which it was found,
/// and the size where it is known.
pub open spec fn line_of(found: MatchView) -> Seq<char> {
    found.path + " - Found in "@ + seconds_text(found.elapsed) + " seconds"@ + match found.size_bytes {
        Some(bytes) => " - "@ + megabytes_text(bytes) + " MB\n"@,
        None => "\n"@,
    }
}

/// The lines that close a search: the time it took and the number of matches.
pub open spec fn summary_of(stats: SearchStats) -> Seq<char> {
    "\nTotal time: "@ + seconds_text(stats.elapsed) + " seconds\n"@ + digits(stats.count as nat)
        + " results found\n"@
}

fn digit_char(value: u128) -> (shown: char)
    requires
        value < 10,
    ensures
        shown == digit(value as int),
{
    if value == 0 {
        '0'
    } else if value == 1 {
        '1'
    } else if value == 2 {
        '2'
    } else if value == 3 {
        '3'
    } else if value == 4 {
        '4'
    } else if value == 5 {
        '5'
    } else if value == 6 {
        '6'
    } else if value == 7 {
        '7'
    } else if value == 8 {
        '8'
    } else {
        '9'
    }
}

/// Appends a number in decimal.
pub fn push_digits(out: &mut String, value: u128)
    ensures
        final(out)@ == old(out)@ + digits(value as nat),
    decreases value,
{
    if value >= 10 {
        push_digits(out, value / 10);
    }
    out.push(digit_char(value % 10));
}

/// Appends the last `width` digits of a number, zeros in front included.
fn push_padded(out: &mut String, value: u128, width: u32)
    ensures
        final(out)@ == old(out)@ + padded(value as nat, width as nat),
    decreases width,
{
    if width > 0 {
        push_padded(out, value / 10, width - 1);
        out.push(digit_char(value % 10));
    }
}

/// Appends `whole + part / 10^width` in decimal.
pub fn push_decimal(out: &mut String, whole: u128, part: u128, width: u32)
    ensures
        final(out)@ == old(out)@ + decimal(whole as nat, part as nat, width as nat),
{
    push_digits(out, whole);
    let mut rest: u128 = part;
    let mut left: u32 = width;
    while left > 0 && rest > 0 && rest % 10 == 0
        invariant
            places(rest as nat, left as nat) == places(part as nat, width as nat),
        decreases left,
    {
        rest = rest / 10;
        left = left - 1;
    }
    if left > 0 && rest > 0 {
        out.push('.');
        push_padded(out, rest, left);
    }
}

/// The size in megabytes of a million bytes each: the whole megabytes, and
/// the bytes beyond them.
pub fn megabytes(bytes: u64) -> (parts: (u64, u64))
    ensures
        parts.0 == bytes / 1_000_000,
        parts.1 == bytes % 1_000_000,
{
    (bytes / 1_000_000, bytes % 1_000_000)
}

impl Elapsed {
    /// The whole seconds of the span, and the nanoseconds beyond them.
    pub fn seconds(&self) -> (parts: (u128, u128))
        ensures
            parts.0 == self.nanos / 1_000_000_000,
            parts.1 == self.nanos % 1_000_000_000,
    {
        (self.nanos / 1_000_000_000, self.nanos % 1_000_000_000)
    }
}

/// The line that reports a match, with the newline that ends it.
pub fn path_info(found: &MatchResult) -> (line: String)
    ensures
        line@ == line_of(found@),
{
    let mut line = found.path.clone();
    line.append(" - Found in ");
    let (seconds, nanos) = found.elapsed.seconds();
    push_decimal(&mut line, seconds, nanos, 9);
    line.append(" seconds");
    match found.size_bytes {
        Some(bytes) => {
            let (whole, beyond) = megabytes(bytes);
            line.append(" - ");
            push_decimal(&mut line, whole as u128, beyond as u128, 6);
            line.append(" MB\n");
        },
        None => {
            line.append("\n");
        },
    }
    line
}

/// The lines that close a search.
pub fn summary(stats: &SearchStats) -> (lines: String)
    ensures
        lines@ == summary_of(*stats),
{
    let mut lines = String::new();
    lines.append("\nTotal time: ");
    let (seconds, nanos) = stats.elapsed.seconds();
    push_decimal(&mut lines, seconds, nanos, 9);
    lines.append(" seconds\n");
    push_digits(&mut lines, stats.count as u128);
    lines.append(" results found\n");
    lines
}

/// What the user is told when the input makes no query.
pub open spec fn message_of(fault: QueryError) -> Seq<char> {
    "You must enter the path to search and either a filename or extensions"@
}

/// What the user is told when the input makes no query: the same sentence
/// for either fault, since it names both conditions.
pub fn message(fault: QueryError) -> (text: String)
    ensures
        text@ == message_of(fault),
{
    let mut text = String::new();
    text.append("You must enter the path to search and either a filename or extensions");
    text
}

} // verus!
