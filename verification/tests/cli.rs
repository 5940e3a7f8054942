use mailoxide::batch::gather_chunk;
use mailoxide::batch::select_batch;
use mailoxide::batch::BatchRun;
use mailoxide::batch::BatchStep;
use mailoxide::batch::EntryInfo;
use mailoxide::error::MailoxideError;
use mailoxide::framer::frame;
use mailoxide::report::batch_summary_line;
use mailoxide::report::progress_notice_line;
use mailoxide::report::single_summary_line;
use mailoxide::report::start_notice_line;
use mailoxide::route::output_falls_back;
use mailoxide::route::select_conversion;
use mailoxide::route::Conversion;
use mailoxide::route::InputKind;
use mailoxide::writer::batch_policy;
use mailoxide::writer::open_in_memory;
use mailoxide::writer::single_message_policy;

fn eml_file() -> InputKind {
    InputKind { is_dir: false, is_file: true, extension: Some(b"eml".to_vec()) }
}

fn directory() -> InputKind {
    InputKind { is_dir: true, is_file: false, extension: None }
}

fn convert_single(archive: &mut Vec<u8>, content: &[u8]) -> Vec<u8> {
    open_in_memory(single_message_policy().mode, archive);
    archive.extend_from_slice(&frame(content));
    single_summary_line()
}

fn convert_directory(
    archive: &mut Vec<u8>,
    listing: &[(EntryInfo, Vec<u8>)],
) -> Result<Vec<u8>, MailoxideError> {
    let entries: Vec<EntryInfo> = listing
        .iter()
        .map(|(entry, _)| EntryInfo { is_dir: entry.is_dir, extension: entry.extension.clone() })
        .collect();
    let batch = select_batch(&entries);
    let mut run = BatchRun::begin(batch.len())?;
    open_in_memory(batch_policy().mode, archive);
    while let BatchStep::ReadChunk { start, end } = run.next_step() {
        let results: Vec<Result<Vec<u8>, MailoxideError>> =
            batch[start..end].iter().map(|position| Ok(frame(&listing[*position].1))).collect();
        let output = gather_chunk(&results);
        archive.extend_from_slice(&output.bytes);
        assert_eq!(output.failed_at, None);
        run.chunk_written();
    }
    Ok(batch_summary_line(run.file_count()))
}

#[test]
fn test_single_eml_file() {
    let eml = "From: sender@example.com\r
To: recipient@example.com\r
Subject: Test Email\r
Date: Wed, 3 Apr 2025 10:00:00 -0500\r
\r
This is a test email.\n";
    assert_eq!(select_conversion(&eml_file()), Ok(Conversion::Single));

    let mut archive = Vec::new();
    convert_single(&mut archive, eml.as_bytes());

    let content = String::from_utf8(archive).unwrap();
    assert!(content.contains("From MAILER-DAEMON"));
    assert!(content.contains("From: sender@example.com"));
    assert!(content.contains("To: recipient@example.com"));
    assert!(content.contains("Subject: Test Email"));
    assert!(content.contains("This is a test email."));
    assert!(content.starts_with("From MAILER-DAEMON "));
    assert!(content.ends_with(eml));
}

#[test]
fn test_directory_of_eml_files() {
    let mut listing = Vec::new();
    for i in 1..4 {
        let eml = format!(
            "From: sender{}@example.com\r
To: recipient{}@example.com\r
Subject: Test Email {}\r
Date: Wed, 3 Apr 2025 10:00:00 -0500\r
\r
This is test email number {}.\n",
            i, i, i, i
        );
        listing
            .push((EntryInfo { is_dir: false, extension: Some(b"eml".to_vec()) }, eml.into_bytes()));
    }
    assert_eq!(select_conversion(&directory()), Ok(Conversion::Batch));

    let mut archive = Vec::new();
    let summary = convert_directory(&mut archive, &listing).unwrap();
    assert_eq!(summary, b"Successfully converted 3 email(s) to mbox format".to_vec());

    let content = String::from_utf8(archive).unwrap();
    for i in 1..4 {
        assert!(content.contains(&format!("From: sender{}@example.com", i)));
        assert!(content.contains(&format!("To: recipient{}@example.com", i)));
        assert!(content.contains(&format!("Subject: Test Email {}", i)));
        assert!(content.contains(&format!("This is test email number {}.", i)));
    }
    let first = content.find("Subject: Test Email 1").unwrap();
    let second = content.find("Subject: Test Email 2").unwrap();
    let third = content.find("Subject: Test Email 3").unwrap();
    assert!(first < second && second < third);
    assert_eq!(content.matches("From MAILER-DAEMON ").count(), 3);
}

#[test]
fn test_invalid_input() {
    let missing = InputKind { is_dir: false, is_file: false, extension: None };
    assert!(select_conversion(&missing).is_err());
}

#[test]
fn test_single_argument() {
    assert!(!output_falls_back(b"test.eml", b"."));
    let mut archive = Vec::new();
    let summary = convert_single(&mut archive, b"Subject: Test Email\r\n\r\nThis is a test email.\n");
    let output_str = String::from_utf8(summary).unwrap();
    assert!(output_str.contains("Successfully converted"));
    assert_eq!(output_str, "Successfully converted 1 email to mbox format");
}

#[test]
fn test_empty_input_directory() {
    let mut archive = b"kept".to_vec();
    let outcome = convert_directory(&mut archive, &[]);
    assert_eq!(outcome, Err(MailoxideError::NoEmlFiles));
    assert!(format!("{:?}", outcome.unwrap_err()).contains("NoEmlFiles"));
    assert_eq!(archive, b"kept".to_vec());
}

#[test]
fn directory_without_eml_files_is_refused_and_leaves_the_archive() {
    let listing = vec![
        (EntryInfo { is_dir: false, extension: Some(b"txt".to_vec()) }, b"notes".to_vec()),
        (EntryInfo { is_dir: true, extension: Some(b"eml".to_vec()) }, Vec::new()),
    ];
    let mut archive = b"kept".to_vec();
    assert_eq!(convert_directory(&mut archive, &listing), Err(MailoxideError::NoEmlFiles));
    assert_eq!(archive, b"kept".to_vec());
}

#[test]
fn other_files_are_left_out_of_the_archive() {
    let listing = vec![
        (EntryInfo { is_dir: false, extension: Some(b"txt".to_vec()) }, b"notes".to_vec()),
        (EntryInfo { is_dir: false, extension: Some(b"eml".to_vec()) }, b"From a\nBody\n".to_vec()),
        (EntryInfo { is_dir: false, extension: None }, b"README".to_vec()),
        (EntryInfo { is_dir: false, extension: Some(b"eml".to_vec()) }, b"From b\nBody".to_vec()),
    ];
    let mut archive = b"older run".to_vec();
    let summary = convert_directory(&mut archive, &listing).unwrap();
    assert_eq!(archive, b"From a\nBody\nFrom b\nBody\n".to_vec());
    assert_eq!(summary, b"Successfully converted 2 email(s) to mbox format".to_vec());
}

#[test]
fn single_conversions_append_and_batch_conversions_replace() {
    let mut archive = Vec::new();
    convert_single(&mut archive, b"From a\nOne");
    convert_single(&mut archive, b"From b\nTwo\n");
    assert_eq!(archive, b"From a\nOne\nFrom b\nTwo\n".to_vec());

    let listing =
        vec![(EntryInfo { is_dir: false, extension: Some(b"eml".to_vec()) }, b"From c\nThree".to_vec())];
    convert_directory(&mut archive, &listing).unwrap();
    assert_eq!(archive, b"From c\nThree\n".to_vec());
    convert_directory(&mut archive, &listing).unwrap();
    assert_eq!(archive, b"From c\nThree\n".to_vec());
}

#[test]
fn lone_message_without_delimiter_gets_one_and_a_newline() {
    let mut archive = Vec::new();
    convert_single(&mut archive, b"Subject: X\r\n\r\nBody");
    assert!(archive.starts_with(b"From MAILER-DAEMON "));
    let line_end = archive.iter().position(|b| *b == b'\n').unwrap() + 1;
    assert_eq!(archive[line_end..], b"Subject: X\r\n\r\nBody\n"[..]);
    let fields: Vec<&[u8]> = archive[..line_end - 1].split(|b| *b == b' ').collect();
    assert_eq!(fields.len(), 7);
    assert_eq!(fields[5].len(), 8);
    assert_eq!(fields[5][2], b':');
    assert_eq!(fields[5][5], b':');
}

#[test]
fn notices_name_their_counts() {
    assert_eq!(start_notice_line(1001), b"Starting conversion of 1001 email files...".to_vec());
    assert_eq!(progress_notice_line(1000, 2500), b"Progress: 1000/2500 files processed".to_vec());
    assert_eq!(batch_summary_line(1), b"Successfully converted 1 email(s) to mbox format".to_vec());
    assert_eq!(single_summary_line(), b"Successfully converted 1 email to mbox format".to_vec());
}
