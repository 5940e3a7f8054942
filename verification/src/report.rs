//! The lines that a conversion reports to its user, as bytes of text without a
//! line terminator.

use crate::delimiter::append_decimal;
use crate::delimiter::decimal;
use vstd::prelude::*;
use vstd::string::StringSliceAdditionalSpecFns;

verus! {

/// The summary of a single-message conversion.
pub open spec fn single_summary() -> Seq<u8> {
    "Successfully converted 1 email to mbox format".spec_bytes()
}

/// The summary of a batch conversion of `total` files.
pub open spec fn batch_summary(total: nat) -> Seq<u8> {
    "Successfully converted ".spec_bytes() + decimal(total) + " email(s) to mbox format".spec_bytes()
}

/// The notice that opens a large batch of `total` files.
pub open spec fn start_notice(total: nat) -> Seq<u8> {
    "Starting conversion of ".spec_bytes() + decimal(total) + " email files...".spec_bytes()
}

/// The notice that `done` files of `total` are written.
pub open spec fn progress_notice(done: nat, total: nat) -> Seq<u8> {
    "Progress: ".spec_bytes() + decimal(done) + "/".spec_bytes() + decimal(total)
        + " files processed".spec_bytes()
}

/// The summary of a single-message conversion.
pub fn single_summary_line() -> (line: Vec<u8>)
    ensures
        line@ == single_summary(),
{
    let mut line: Vec<u8> = Vec::new();
    line.extend_from_slice("Successfully converted 1 email to mbox format".as_bytes());
    assert(line@ =~= single_summary());
    line
}

/// The summary of a batch conversion of `total` files.
pub fn batch_summary_line(total: usize) -> (line: Vec<u8>)
    ensures
        line@ == batch_summary(total as nat),
{
    let mut line: Vec<u8> = Vec::new();
    line.extend_from_slice("Successfully converted ".as_bytes());
    append_decimal(&mut line, total as u64);
    line.extend_from_slice(" email(s) to mbox format".as_bytes());
    assert(line@ =~= batch_summary(total as nat));
    line
}

/// The notice that opens a large batch of `total` files.
pub fn start_notice_line(total: usize) -> (line: Vec<u8>)
    ensures
        line@ == start_notice(total as nat),
{
    let mut line: Vec<u8> = Vec::new();
    line.extend_from_slice("Starting conversion of ".as_bytes());
    append_decimal(&mut line, total as u64);
    line.extend_from_slice(" email files...".as_bytes());
    assert(line@ =~= start_notice(total as nat));
    line
}

/// The notice that `done` files of `total` are written.
pub fn progress_notice_line(done: usize, total: usize) -> (line: Vec<u8>)
    ensures
        line@ == progress_notice(done as nat, total as nat),
{
    let mut line: Vec<u8> = Vec::new();
    line.extend_from_slice("Progress: ".as_bytes());
    append_decimal(&mut line, done as u64);
    line.extend_from_slice("/".as_bytes());
    append_decimal(&mut line, total as u64);
    line.extend_from_slice(" files processed".as_bytes());
    assert(line@ =~= progress_notice(done as nat, total as nat));
    line
}

} // verus!
