use junkdrawer::files::{
    describe_file, file_name_of, parse_operation, FileError, FileOp, FileProcessor,
};

#[test]
fn operations_parse_exactly() {
    assert_eq!(parse_operation(&b"copy".to_vec()), Ok(FileOp::Copy));
    assert_eq!(parse_operation(&b"move".to_vec()), Ok(FileOp::Move));
    assert_eq!(
        parse_operation(&b"shred".to_vec()),
        Err(FileError::FileOperationError)
    );
}

#[test]
fn file_names_come_from_the_last_path_component() {
    assert_eq!(file_name_of(&b"/tmp/docs/notes.txt".to_vec()), b"notes.txt".to_vec());
    assert_eq!(file_name_of(&b"plain.md".to_vec()), b"plain.md".to_vec());
    assert_eq!(file_name_of(&b"/ends/with/slash/".to_vec()), Vec::<u8>::new());
}

#[test]
fn unique_filename_keeps_a_free_name() {
    let processor = FileProcessor::new();
    let existing = vec![b"other.txt".to_vec()];
    let name = processor.generate_unique_filename(&existing, &b"report.pdf".to_vec());
    assert_eq!(name, b"report.pdf".to_vec());
}

#[test]
fn unique_filename_counts_past_taken_names() {
    let processor = FileProcessor::new();
    let existing = vec![
        b"report.pdf".to_vec(),
        b"report (1).pdf".to_vec(),
        b"notes".to_vec(),
    ];
    assert_eq!(
        processor.generate_unique_filename(&existing, &b"report.pdf".to_vec()),
        b"report (2).pdf".to_vec()
    );
    assert_eq!(
        processor.generate_unique_filename(&existing, &b"notes".to_vec()),
        b"notes (1)".to_vec()
    );
}

#[test]
fn hidden_files_get_the_counter_at_the_end() {
    let processor = FileProcessor::new();
    let existing = vec![b".bashrc".to_vec()];
    assert_eq!(
        processor.generate_unique_filename(&existing, &b".bashrc".to_vec()),
        b".bashrc (1)".to_vec()
    );
}

#[test]
fn described_file_carries_name_mime_size_and_time() {
    let m = describe_file(
        &b"/home/user/a.txt".to_vec(),
        &b"/data/files/a.txt".to_vec(),
        42,
        1_700_000_000,
    )
    .expect("valid input");
    assert_eq!(m.title, b"a.txt".to_vec());
    assert_eq!(m.mime_type, Some(b"text/plain".to_vec()));
    assert_eq!(m.file_size, 42);
    assert_eq!(junkdrawer::time::timestamp(m.file_modified_at), 1_700_000_000);
    assert_eq!(m.final_path, b"/data/files/a.txt".to_vec());
}

#[test]
fn unknown_extensions_get_no_mime_guess() {
    let m = describe_file(&b"/x/blob.zzzqqq".to_vec(), &b"/y/blob.zzzqqq".to_vec(), 1, 0)
        .expect("valid input");
    assert_eq!(m.mime_type, None);
}

#[test]
fn path_without_a_final_component_is_invalid() {
    let r = describe_file(&b"/only/dirs/".to_vec(), &b"/y".to_vec(), 1, 0);
    assert_eq!(r.err(), Some(FileError::InvalidPath));
}

#[test]
fn unrepresentable_modification_time_is_a_file_operation_error() {
    let r = describe_file(&b"/a/b.txt".to_vec(), &b"/y".to_vec(), 1, i64::MAX);
    assert_eq!(r.err(), Some(FileError::FileOperationError));
}
