//! Framing: a message enters the archive behind one delimiter line and ends
//! with a line terminator.

use crate::clock::seconds_since_epoch;
use crate::delimiter::from_line;
use crate::delimiter::is_from_line;
use crate::delimiter::is_single_line;
use crate::delimiter::lemma_from_line_is_one_line;
use crate::delimiter::sender_prefix;
use crate::delimiter::from_line_at;
use crate::delimiter::NEWLINE;
use vstd::prelude::*;

verus! {

/// The bytes of `From `, the prefix by which a message shows that it brings its own delimiter.
pub open spec fn from_marker() -> Seq<u8> {
    // F r o m _
    seq![70u8, 114u8, 111u8, 109u8, 32u8]
}

/// Whether `content` begins with `From `.
pub open spec fn starts_with_from(content: Seq<u8>) -> bool {
    content.len() >= 5 && content.subrange(0, 5) == from_marker()
}

/// Whether `bytes` ends with a line terminator.
pub open spec fn ends_with_newline(bytes: Seq<u8>) -> bool {
    bytes.len() > 0 && bytes.last() == NEWLINE
}

/// `bytes`, with a line terminator appended where it does not end with one.
pub open spec fn terminated(bytes: Seq<u8>) -> Seq<u8> {
    if ends_with_newline(bytes) {
        bytes
    } else {
        bytes.push(NEWLINE)
    }
}

/// `content` behind a delimiter: its own, or the one of the moment `secs`.
pub open spec fn delimited(content: Seq<u8>, secs: nat) -> Seq<u8> {
    if starts_with_from(content) {
        content
    } else {
        from_line(secs) + content
    }
}

/// The framed form of `content` at the moment `secs`.
pub open spec fn framed(content: Seq<u8>, secs: nat) -> Seq<u8> {
    terminated(delimited(content, secs))
}

/// Whether `out` is the framed form of `content` at some moment.
pub open spec fn is_framing_of(out: Seq<u8>, content: Seq<u8>) -> bool {
    exists|secs: u64| out == framed(content, secs as nat)
}

/// Whether `content` begins with `From `.
pub fn starts_with_from_line(content: &[u8]) -> (found: bool)
    ensures
        found == starts_with_from(content@),
{
    if content.len() < 5 {
        return false;
    }
    let found = content[0] == 70u8 && content[1] == 114u8 && content[2] == 111u8 && content[3]
        == 109u8 && content[4] == 32u8;
    proof {
        let head = content@.subrange(0, 5);
        assert(head[0] == content@[0]);
        assert(head[1] == content@[1]);
        assert(head[2] == content@[2]);
        assert(head[3] == content@[3]);
        assert(head[4] == content@[4]);
        if found {
            assert(head =~= from_marker());
        }
    }
    found
}

/// Appends a line terminator to `bytes` where it does not end with one.
pub fn terminate(bytes: &mut Vec<u8>)
    ensures
        final(bytes)@ == terminated(old(bytes)@),
{
    let n = bytes.len();
    if n == 0 || bytes[n - 1] != NEWLINE {
        bytes.push(NEWLINE);
    }
}

/// Frames `content` with the delimiter of the moment `secs`, where it needs one.
pub fn frame_at(content: &[u8], secs: u64) -> (out: Vec<u8>)
    ensures
        out@ == framed(content@, secs as nat),
{
    let mut out: Vec<u8> = if starts_with_from_line(content) {
        Vec::new()
    } else {
        from_line_at(secs)
    };
    out.extend_from_slice(content);
    assert(out@ =~= delimited(content@, secs as nat));
    terminate(&mut out);
    out
}

/// Frames `content`, reading the system clock where a delimiter has to be synthesized.
///
/// A message that brings its own delimiter is framed without looking at the clock.
pub fn frame(content: &[u8]) -> (out: Vec<u8>)
    ensures
        is_framing_of(out@, content@),
        starts_with_from(content@) ==> out@ == terminated(content@),
        !starts_with_from(content@) ==> exists|secs: u64|
            out@ == terminated(from_line(secs as nat) + content@),
{
    let secs: u64 = if starts_with_from_line(content) {
        0
    } else {
        seconds_since_epoch()
    };
    let out = frame_at(content, secs);
    assert(out@ == framed(content@, secs as nat));
    out
}

/// Whether `bytes` ends with one line terminator and no more.
pub open spec fn ends_with_single_newline(bytes: Seq<u8>) -> bool {
    ends_with_newline(bytes) && (bytes.len() >= 2 ==> bytes[bytes.len() - 2] != NEWLINE)
}

/// Whether `bytes` ends with an empty line: it is a lone line terminator, or ends with two.
pub open spec fn ends_with_blank_line(bytes: Seq<u8>) -> bool {
    bytes == seq![NEWLINE] || (bytes.len() >= 2 && bytes[bytes.len() - 1] == NEWLINE
        && bytes[bytes.len() - 2] == NEWLINE)
}

/// Every delimiter line begins with `From `.
pub proof fn lemma_from_line_starts_with_from(secs: nat)
    ensures
        starts_with_from(from_line(secs)),
{
    lemma_from_line_is_one_line(secs);
    let line = from_line(secs);
    let prefix = line.subrange(0, sender_prefix().len() as int);
    assert(line.subrange(0, 5) =~= prefix.subrange(0, 5));
    assert(sender_prefix().subrange(0, 5) =~= from_marker());
}

/// A message that does not begin with `From ` is framed behind a synthesized delimiter:
/// the framed form is that delimiter, one line of the fixed format, followed by the
/// message, followed by a line terminator where the message does not end with one.
pub proof fn lemma_frame_synthesizes_delimiter(content: Seq<u8>, secs: u64)
    requires
        !starts_with_from(content),
    ensures
        framed(content, secs as nat) == from_line(secs as nat) + (if content.len() == 0 {
            content
        } else {
            terminated(content)
        }),
        is_from_line(from_line(secs as nat)),
        is_single_line(from_line(secs as nat)),
        starts_with_from(framed(content, secs as nat)),
        ends_with_newline(framed(content, secs as nat)),
{
    let line = from_line(secs as nat);
    lemma_from_line_is_one_line(secs as nat);
    lemma_from_line_starts_with_from(secs as nat);
    let whole = framed(content, secs as nat);
    if content.len() == 0 {
        assert(line + content =~= line);
    } else {
        assert((line + content).last() == content.last());
        assert((line + content).push(NEWLINE) =~= line + content.push(NEWLINE));
    }
    assert(whole.subrange(0, 5) =~= line.subrange(0, 5));
}

/// A message that begins with `From ` keeps its own delimiter, whatever the moment: the
/// framed form is the message itself, with a line terminator appended where it lacks one.
pub proof fn lemma_frame_keeps_own_delimiter(content: Seq<u8>, secs: u64)
    requires
        starts_with_from(content),
    ensures
        framed(content, secs as nat) == terminated(content),
        ends_with_newline(content) ==> framed(content, secs as nat) == content,
        !ends_with_newline(content) ==> framed(content, secs as nat) == content.push(NEWLINE),
        starts_with_from(framed(content, secs as nat)),
{
    assert(framed(content, secs as nat).subrange(0, 5) =~= content.subrange(0, 5));
}

/// Every framed message begins with `From ` and ends with a line terminator.
pub proof fn lemma_framed_is_delimited_and_terminated(content: Seq<u8>, secs: u64)
    ensures
        starts_with_from(framed(content, secs as nat)),
        ends_with_newline(framed(content, secs as nat)),
{
    if starts_with_from(content) {
        lemma_frame_keeps_own_delimiter(content, secs);
    } else {
        lemma_frame_synthesizes_delimiter(content, secs);
    }
}

/// A framed message ends with exactly one line terminator, unless the message itself
/// ended with an empty line: framing appends a terminator where one is missing and
/// removes none.
pub proof fn lemma_framed_ends_with_single_newline(content: Seq<u8>, secs: u64)
    requires
        !ends_with_blank_line(content),
    ensures
        ends_with_single_newline(framed(content, secs as nat)),
{
    let line = from_line(secs as nat);
    lemma_from_line_is_one_line(secs as nat);
    lemma_framed_is_delimited_and_terminated(content, secs);
    let inner = delimited(content, secs as nat);
    let whole = framed(content, secs as nat);
    assert(line.len() >= 2);
    assert(line.drop_last()[line.len() - 2] != NEWLINE);
    if starts_with_from(content) {
    } else if content.len() == 0 {
        assert(inner =~= line);
    } else if content.len() == 1 {
        assert(content[0] != NEWLINE) by {
            if content[0] == NEWLINE {
                assert(content =~= seq![NEWLINE]);
            }
        }
        assert(whole =~= (line + content).push(NEWLINE));
    } else {
    }
}

/// Putting the line terminator in place is idempotent: doing it twice is doing it once.
pub proof fn lemma_terminated_is_idempotent(bytes: Seq<u8>)
    ensures
        ends_with_newline(terminated(bytes)),
        terminated(terminated(bytes)) == terminated(bytes),
{
}

/// Framing a framed message changes nothing, at whatever moments the two are done.
pub proof fn lemma_frame_is_idempotent(content: Seq<u8>, first: u64, second: u64)
    ensures
        framed(framed(content, first as nat), second as nat) == framed(content, first as nat),
{
    lemma_framed_is_delimited_and_terminated(content, first);
}

} // verus!
