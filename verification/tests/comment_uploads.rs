use seichi_portal::web::comment_uploads::{CommentUploadReader, UploadProblem};

#[test]
fn files_are_read_part_by_part() {
    let mut reader = CommentUploadReader::new(10, 2);
    reader
        .begin_part(Some("file"), Some("a.txt".to_string()), Some(String::new()))
        .unwrap();
    reader.accept_chunk(b"hello").unwrap();
    reader.accept_chunk(b"12345").unwrap();
    reader.end_part();
    reader
        .begin_part(Some("file"), Some("b.png".to_string()), Some("image/png".to_string()))
        .unwrap();
    reader.accept_chunk(b"png").unwrap();
    reader.end_part();
    let files = reader.finish().unwrap();
    assert_eq!(files.len(), 2);
    assert_eq!(files[0].file_name, "a.txt");
    assert_eq!(files[0].content_type, "application/octet-stream");
    assert_eq!(files[0].content, b"hello12345".to_vec());
    assert_eq!(files[1].content_type, "image/png");
    assert_eq!(files[1].content, b"png".to_vec());
}

#[test]
fn parts_have_to_be_named_files_with_a_name() {
    let mut reader = CommentUploadReader::new(10, 2);
    assert_eq!(
        reader.begin_part(Some("other"), Some("a.txt".to_string()), None),
        Err(UploadProblem::FieldNotNamedFile)
    );
    assert_eq!(
        reader.begin_part(None, Some("a.txt".to_string()), None),
        Err(UploadProblem::FieldNotNamedFile)
    );
    assert_eq!(
        reader.begin_part(Some("file"), None, None),
        Err(UploadProblem::MissingFileName)
    );
    assert_eq!(reader.finish().unwrap_err(), UploadProblem::NoFile);
}

#[test]
fn limits_on_files_and_sizes_are_kept() {
    let mut reader = CommentUploadReader::new(4, 1);
    reader.begin_part(Some("file"), Some("a".to_string()), None).unwrap();
    assert_eq!(
        reader.accept_chunk(b"12345"),
        Err(UploadProblem::AttachmentTooLarge {
            max_attachment_size: 4
        })
    );
    reader.accept_chunk(b"1234").unwrap();
    reader.end_part();
    assert_eq!(
        reader.begin_part(Some("file"), Some("b".to_string()), None),
        Err(UploadProblem::TooManyAttachments { max_attachments: 1 })
    );
}

#[test]
fn upload_problems_read_as_the_portal_words_them() {
    assert_eq!(
        UploadProblem::TooManyAttachments { max_attachments: 5 }.message(),
        "a comment must not have more than 5 attachments"
    );
    assert_eq!(
        UploadProblem::AttachmentTooLarge {
            max_attachment_size: 1024
        }
        .message(),
        "comment attachment must not exceed 1024 bytes"
    );
    assert_eq!(UploadProblem::NoFile.message(), "at least one file is required");
    assert_eq!(
        UploadProblem::FieldNotNamedFile.message(),
        "multipart field must be named file"
    );
}

#[test]
fn parses_repeated_file_fields_without_trusting_client_size() {
    let mut reader = CommentUploadReader::new(1024, 5);
    reader
        .begin_part(Some("file"), Some("first.txt".to_string()), Some("text/plain".to_string()))
        .unwrap();
    reader.accept_chunk(b"first").unwrap();
    reader.end_part();
    reader
        .begin_part(Some("file"), Some("second.txt".to_string()), None)
        .unwrap();
    reader.accept_chunk(b"second").unwrap();
    reader.end_part();
    let uploads = reader.finish().unwrap();
    assert_eq!(uploads.len(), 2);
    assert_eq!(uploads[0].file_name, "first.txt");
    assert_eq!(uploads[0].content, b"first");
    assert_eq!(uploads[1].content_type, "application/octet-stream");
}
