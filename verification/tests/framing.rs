use mailoxide::delimiter::from_line_at;
use mailoxide::framer::frame;
use mailoxide::framer::frame_at;
use mailoxide::framer::starts_with_from_line;
use mailoxide::framer::terminate;

const AT_EPOCH: &[u8] = b"From MAILER-DAEMON Sun Jan 1 00:00:00 1970\n";

#[test]
fn from_prefix_is_recognised() {
    assert!(starts_with_from_line(b"From "));
    assert!(starts_with_from_line(b"From someone@example.com Thu Jan 1 00:00:00 1970\n"));
    assert!(!starts_with_from_line(b""));
    assert!(!starts_with_from_line(b"From"));
    assert!(!starts_with_from_line(b"from "));
    assert!(!starts_with_from_line(b"From: sender@example.com\r\n"));
    assert!(!starts_with_from_line(b" From "));
    assert!(!starts_with_from_line(b"FROM "));
}

#[test]
fn message_without_delimiter_gets_one() {
    let framed = frame_at(b"Subject: X\r\n\r\nBody", 0);
    let mut expected = AT_EPOCH.to_vec();
    expected.extend_from_slice(b"Subject: X\r\n\r\nBody");
    expected.push(b'\n');
    assert_eq!(framed, expected);
}

#[test]
fn message_with_header_named_from_gets_a_delimiter() {
    let content = b"From: sender@example.com\r\nTo: recipient@example.com\r\nSubject: Test Email\r\nDate: Wed, 3 Apr 2025 10:00:00 -0500\r\n\r\nThis is a test email.\n";
    let framed = frame_at(content, 1_700_000_000);
    let mut expected = b"From MAILER-DAEMON Fri Nov 22 22:13:20 2023\n".to_vec();
    expected.extend_from_slice(content);
    assert_eq!(framed, expected);
}

#[test]
fn message_with_delimiter_keeps_it() {
    let content = b"From someone Thu Jan 1 00:00:00 1970\nSubject: X\n\nBody\n";
    assert_eq!(frame_at(content, 12_345), content.to_vec());
    assert_eq!(frame(content), content.to_vec());
}

#[test]
fn message_with_delimiter_gets_missing_newline() {
    let content = b"From someone Thu Jan 1 00:00:00 1970\nSubject: X\n\nBody";
    let mut expected = content.to_vec();
    expected.push(b'\n');
    assert_eq!(frame_at(content, 12_345), expected);
    assert_eq!(frame(content), expected);
}

#[test]
fn bare_from_prefix_is_kept() {
    assert_eq!(frame_at(b"From ", 99), b"From \n".to_vec());
}

#[test]
fn empty_message_becomes_a_lone_delimiter() {
    assert_eq!(frame_at(b"", 0), AT_EPOCH.to_vec());
}

#[test]
fn trailing_newlines_are_kept_as_they_are() {
    let mut expected = AT_EPOCH.to_vec();
    expected.extend_from_slice(b"Body\n\n\n");
    assert_eq!(frame_at(b"Body\n\n\n", 0), expected);
    let mut lone = AT_EPOCH.to_vec();
    lone.push(b'\n');
    assert_eq!(frame_at(b"\n", 0), lone);
}

#[test]
fn framed_message_ends_with_one_newline() {
    for content in [&b"Body"[..], &b"Body\n"[..], &b""[..], &b"From x"[..], &b"From x\n"[..]] {
        let framed = frame_at(content, 86_400);
        assert_eq!(framed.last(), Some(&b'\n'));
        assert_ne!(framed[framed.len() - 2], b'\n');
        assert!(starts_with_from_line(&framed));
    }
}

#[test]
fn framing_twice_changes_nothing() {
    for content in [&b"Body"[..], &b"Body\n\n"[..], &b""[..], &b"From x"[..], &b"\n"[..]] {
        let once = frame_at(content, 1_700_000_000);
        assert_eq!(frame_at(&once, 5), once);
        assert_eq!(frame(&once), once);
    }
}

#[test]
fn frame_reads_the_clock_for_the_delimiter() {
    let content = b"Subject: X\r\n\r\nBody";
    let framed = frame(content);
    assert!(framed.starts_with(b"From MAILER-DAEMON "));
    assert!(framed.ends_with(b"Subject: X\r\n\r\nBody\n"));
    let line_len = framed.len() - content.len() - 1;
    let line = &framed[..line_len];
    assert_eq!(line.iter().filter(|b| **b == b'\n').count(), 1);
    assert_eq!(line.last(), Some(&b'\n'));
    assert_ne!(framed, content.to_vec());
}

#[test]
fn frame_at_differs_by_moment_only_in_the_delimiter() {
    let a = frame_at(b"Body\n", 0);
    let b = frame_at(b"Body\n", 86_400);
    assert_ne!(a, b);
    assert_eq!(a[from_line_at(0).len()..], b[from_line_at(86_400).len()..]);
}

#[test]
fn terminate_appends_only_a_missing_newline() {
    let mut a = b"abc".to_vec();
    terminate(&mut a);
    assert_eq!(a, b"abc\n".to_vec());
    terminate(&mut a);
    assert_eq!(a, b"abc\n".to_vec());
    let mut empty = Vec::new();
    terminate(&mut empty);
    assert_eq!(empty, b"\n".to_vec());
}
