use blog_core::errors::AppError;
use blog_core::ingest::{extract_extension, finish_ingest, parse_multipart, RawPart, UploadDir};

fn part(name: &str, content: &[u8]) -> RawPart {
    RawPart { name: name.to_string(), content: content.to_vec() }
}

#[test]
fn extension_is_first_uppercase_run_lowercased() {
    assert_eq!(extract_extension(b"\x89PNG\r\n\x1a\n"), "png");
    assert_eq!(extract_extension(b"GIF89a"), "gif");
    assert_eq!(extract_extension(b"noise...JPEG tail JPG"), "jpeg");
    assert_eq!(extract_extension(b"A"), "a");
}

#[test]
fn extension_is_empty_without_an_uppercase_run() {
    assert_eq!(extract_extension(b""), "");
    assert_eq!(extract_extension(b"lowercase only 123"), "");
    assert_eq!(extract_extension(&[0u8, 1, 2, 3, 200, 255]), "");
}

#[test]
fn extension_run_stops_at_first_other_byte() {
    assert_eq!(extract_extension(b"AB1CD"), "ab");
    assert_eq!(extract_extension(b"..PNGJPG after"), "pngjpg");
}

#[test]
fn title_and_body_only_succeeds_with_empty_filename() {
    let parts = vec![part("title", b"My title"), part("body", b"The body.")];
    let mut dir = UploadDir::new();
    let out = parse_multipart(&parts, &mut dir).unwrap();
    assert_eq!(out.title, "My title");
    assert_eq!(out.body, "The body.");
    assert_eq!(out.filename, "");
}

#[test]
fn sniffable_attachment_is_committed_under_final_name() {
    let content = b"\x89PNG\r\n\x1a\nimage-bytes";
    let parts = vec![
        part("title", b"t"),
        part("body", b"b"),
        part("file", content),
    ];
    let mut dir = UploadDir::new();
    let out = parse_multipart(&parts, &mut dir).unwrap();
    assert_eq!(out.filename.len(), 36 + 1 + 3);
    assert!(out.filename.ends_with(".png"));
    let id = &out.filename[..36];
    assert!(id.chars().all(|c| c.is_ascii_hexdigit() || c == '-'));
    // The committed file carries the full content, and nothing sits under
    // the bare identifier.
    assert_eq!(dir.read(&out.filename), Some(content.to_vec()));
    assert_eq!(dir.read(&id.to_string()), None);
}

#[test]
fn unsniffable_attachment_is_dropped_but_text_survives() {
    let parts = vec![
        part("title", b"kept title"),
        part("file", &[0u8, 1, 2, 3]),
    ];
    let mut dir = UploadDir::new();
    let out = parse_multipart(&parts, &mut dir).unwrap();
    assert_eq!(out.title, "kept title");
    assert_eq!(out.body, "");
    assert_eq!(out.filename, "");
}

#[test]
fn empty_attachment_counts_as_absent() {
    let parts = vec![part("title", b"t"), part("file", b"")];
    let mut dir = UploadDir::new();
    let out = parse_multipart(&parts, &mut dir).unwrap();
    assert_eq!(out.filename, "");
}

#[test]
fn empty_title_and_body_fail_with_bad_request() {
    let mut dir = UploadDir::new();
    let no_parts: Vec<RawPart> = Vec::new();
    assert_eq!(parse_multipart(&no_parts, &mut dir), Err(AppError::BadRequest));

    let empty_texts = vec![part("title", b""), part("body", b"")];
    assert_eq!(parse_multipart(&empty_texts, &mut dir), Err(AppError::BadRequest));

    // An attachment does not rescue a body with no text content.
    let with_file = vec![part("file", b"\x89PNG rest")];
    assert_eq!(parse_multipart(&with_file, &mut dir), Err(AppError::BadRequest));
}

#[test]
fn text_part_that_is_not_utf8_fails_with_bad_request() {
    let parts = vec![part("title", &[0xff, 0xfe]), part("body", b"ok")];
    let mut dir = UploadDir::new();
    assert_eq!(parse_multipart(&parts, &mut dir), Err(AppError::BadRequest));
}

#[test]
fn unrecognized_part_names_are_ignored() {
    let parts = vec![
        part("title", b"t"),
        part("author", b"ignored"),
        part("body", b"b"),
    ];
    let mut dir = UploadDir::new();
    let out = parse_multipart(&parts, &mut dir).unwrap();
    assert_eq!(out.title, "t");
    assert_eq!(out.body, "b");
}

#[test]
fn later_text_part_supersedes_earlier_one() {
    let parts = vec![
        part("title", b"first"),
        part("title", b"second"),
        part("body", b"b"),
    ];
    let mut dir = UploadDir::new();
    let out = parse_multipart(&parts, &mut dir).unwrap();
    assert_eq!(out.title, "second");
}

#[test]
fn upload_dir_create_read_remove() {
    let mut dir = UploadDir::new();
    let name = "abc.png".to_string();
    assert_eq!(dir.read(&name), None);
    dir.create(&name, b"data");
    assert_eq!(dir.read(&name), Some(b"data".to_vec()));
    dir.create(&name, b"newer");
    assert_eq!(dir.read(&name), Some(b"newer".to_vec()));
    dir.remove(&name);
    assert_eq!(dir.read(&name), None);
    // Removing a file that is already gone is not a failure.
    dir.remove(&name);
    assert_eq!(dir.read(&name), None);
}

#[test]
fn finish_ingest_rejects_only_empty_text_content() {
    let out = finish_ingest("t".to_string(), String::new(), "a.png".to_string()).unwrap();
    assert_eq!(out.title, "t");
    assert_eq!(out.body, "");
    assert_eq!(out.filename, "a.png");
    assert_eq!(
        finish_ingest(String::new(), String::new(), "a.png".to_string()),
        Err(AppError::BadRequest)
    );
    assert_eq!(
        finish_ingest(String::new(), String::new(), String::new()),
        Err(AppError::BadRequest)
    );
}
