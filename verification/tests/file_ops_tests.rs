use claw_runtime::edit::{edit_file_contents, edit_file_output};
use claw_runtime::file_ops::{
    check_image, check_read_size, check_write_size, image_file_output, is_binary_chunk,
    is_image_extension, make_patch, media_type_for_extension, notebook_window_output,
    read_file_kind, text_file_output, validate_workspace_boundary, write_file_output, ErrorKind,
    ReadFileKind, MAX_IMAGE_SIZE, MAX_PDF_PAGES, MAX_PDF_SIZE, MAX_READ_SIZE, MAX_WRITE_SIZE,
};
use claw_runtime::pdf::{
    check_pdf_size, parse_page_range, pdf_output_from_extraction, pdf_output_from_text, read_plan,
    ReadStep,
};

#[test]
fn pdf_parse_page_range_single() {
    let pages = parse_page_range("3", 10).expect("should parse single page");
    assert_eq!(pages, vec![2]); // 0-indexed
}

#[test]
fn pdf_parse_page_range_range() {
    let pages = parse_page_range("1-5", 10).expect("should parse range");
    assert_eq!(pages, vec![0, 1, 2, 3, 4]);
}

#[test]
fn pdf_parse_page_range_mixed() {
    let pages = parse_page_range("1-3,7,9-10", 10).expect("should parse mixed");
    assert_eq!(pages, vec![0, 1, 2, 6, 8, 9]);
}

#[test]
fn pdf_parse_page_range_deduplicates() {
    let pages = parse_page_range("1-3,2-4", 10).expect("should deduplicate");
    assert_eq!(pages, vec![0, 1, 2, 3]); // no duplicate for page 2 and 3
}

#[test]
fn pdf_parse_page_range_exceeds_max() {
    let result = parse_page_range("1-25", 30);
    assert!(result.is_err());
    let error = result.unwrap_err();
    assert!(error.to_string().contains("maximum is 20"));
}

#[test]
fn pdf_parse_page_range_out_of_bounds() {
    let result = parse_page_range("15", 10);
    assert!(result.is_err());
    let error = result.unwrap_err();
    assert!(error.to_string().contains("out of bounds"));
}

#[test]
fn pdf_parse_page_range_zero_page() {
    let result = parse_page_range("0", 10);
    assert!(result.is_err());
    let error = result.unwrap_err();
    assert!(error.to_string().contains("1-based"));
}

#[test]
fn pdf_parse_page_range_invalid_format() {
    let result = parse_page_range("abc", 10);
    assert!(result.is_err());
}

#[test]
fn pdf_parse_page_range_reversed_range() {
    let result = parse_page_range("5-3", 10);
    assert!(result.is_err());
    let error = result.unwrap_err();
    assert!(error.to_string().contains("start (5) > end (3)"));
}

#[test]
fn pdf_too_large() {
    // Verify the constant is sensible
    assert_eq!(MAX_PDF_SIZE, 20 * 1024 * 1024);
    assert_eq!(MAX_PDF_PAGES, 20);
}

#[test]
fn test_is_image_extension() {
    assert!(is_image_extension("photo.png"));
    assert!(is_image_extension("photo.PNG"));
    assert!(is_image_extension("photo.jpg"));
    assert!(is_image_extension("photo.JPG"));
    assert!(is_image_extension("photo.jpeg"));
    assert!(is_image_extension("photo.JPEG"));
    assert!(is_image_extension("photo.gif"));
    assert!(is_image_extension("photo.GIF"));
    assert!(is_image_extension("photo.webp"));
    assert!(is_image_extension("photo.WEBP"));
    // Non-image extensions
    assert!(!is_image_extension("file.txt"));
    assert!(!is_image_extension("file.pdf"));
    assert!(!is_image_extension("file.rs"));
    assert!(!is_image_extension("file.bin"));
    assert!(!is_image_extension("file.svg"));
    assert!(!is_image_extension("noext"));
}

#[test]
fn test_media_type_for_extension() {
    assert_eq!(media_type_for_extension("png"), Some("image/png"));
    assert_eq!(media_type_for_extension("PNG"), Some("image/png"));
    assert_eq!(media_type_for_extension("jpg"), Some("image/jpeg"));
    assert_eq!(media_type_for_extension("JPG"), Some("image/jpeg"));
    assert_eq!(media_type_for_extension("jpeg"), Some("image/jpeg"));
    assert_eq!(media_type_for_extension("JPEG"), Some("image/jpeg"));
    assert_eq!(media_type_for_extension("gif"), Some("image/gif"));
    assert_eq!(media_type_for_extension("GIF"), Some("image/gif"));
    assert_eq!(media_type_for_extension("webp"), Some("image/webp"));
    assert_eq!(media_type_for_extension("WEBP"), Some("image/webp"));
    assert_eq!(media_type_for_extension("txt"), None);
    assert_eq!(media_type_for_extension("svg"), None);
    assert_eq!(media_type_for_extension("bmp"), None);
}

#[test]
fn test_read_image_too_large() {
    // Verify the size constant is 20 MB
    assert_eq!(MAX_IMAGE_SIZE, 20 * 1024 * 1024);
}

#[test]
fn page_range_error_messages() {
    assert_eq!(
        parse_page_range("1-25", 30).unwrap_err().to_string(),
        "requested 25 pages, maximum is 20"
    );
    let e = parse_page_range("15", 10).unwrap_err();
    assert_eq!(e.kind(), ErrorKind::InvalidInput);
    assert_eq!(e.to_string(), "page 15 out of bounds (document has 10 pages)");
}

#[test]
fn read_kind_dispatches_on_extension() {
    assert_eq!(read_file_kind("/a/doc.PDF"), ReadFileKind::Pdf);
    assert_eq!(read_file_kind("/a/pic.Jpeg"), ReadFileKind::Image);
    assert_eq!(read_file_kind("/a/nb.ipynb"), ReadFileKind::Notebook);
    assert_eq!(read_file_kind("/a/nb.IPYNB"), ReadFileKind::Text);
    assert_eq!(read_file_kind("/a/plain"), ReadFileKind::Text);
}

#[test]
fn text_window_selects_lines() {
    let out = text_file_output("/f.txt", "a\nb\nc\nd\n", Some(1), Some(2));
    assert_eq!(out.kind, "text");
    assert_eq!(out.file.file_path, "/f.txt");
    assert_eq!(out.file.content, "b\nc");
    assert_eq!(out.file.num_lines, 2);
    assert_eq!(out.file.start_line, 2);
    assert_eq!(out.file.total_lines, 4);
    let past = text_file_output("/f.txt", "a\nb", Some(9), None);
    assert_eq!(past.file.content, "");
    assert_eq!(past.file.num_lines, 0);
    assert_eq!(past.file.start_line, 3);
    let huge = text_file_output("/f.txt", "a\nb", None, Some(usize::MAX));
    assert_eq!(huge.file.content, "a\nb");
    let nb = notebook_window_output("/n.ipynb", "x\ny\nz", Some(1), None);
    assert_eq!(nb.kind, "notebook");
    assert_eq!(nb.file.content, "y\nz");
}

#[test]
fn size_checks_report_limits() {
    assert!(check_read_size(MAX_READ_SIZE).is_ok());
    let e = check_read_size(MAX_READ_SIZE + 1).unwrap_err();
    assert_eq!(e.to_string(), "file is too large (10485761 bytes, max 10485760 bytes)");
    assert!(check_pdf_size(MAX_PDF_SIZE).is_ok());
    assert_eq!(
        check_pdf_size(MAX_PDF_SIZE + 1).unwrap_err().to_string(),
        "PDF too large (20971521 bytes, max 20971520 bytes)"
    );
    let big = "x".repeat(MAX_WRITE_SIZE + 1);
    let e = check_write_size(&big).unwrap_err();
    assert_eq!(e.kind(), ErrorKind::InvalidData);
    assert_eq!(e.to_string(), "content is too large (10485761 bytes, max 10485760 bytes)");
    assert!(check_write_size("small").is_ok());
}

#[test]
fn binary_detection_looks_for_nul() {
    assert!(is_binary_chunk(&[1, 2, 0, 3]));
    assert!(!is_binary_chunk(b"plain text"));
    assert!(!is_binary_chunk(&[]));
}

#[test]
fn image_checks_and_block() {
    assert_eq!(check_image("/p/a.PNG", 10).unwrap(), "image/png");
    let e = check_image("/p/a.bmp", 10).unwrap_err();
    assert_eq!(e.kind(), ErrorKind::InvalidInput);
    assert_eq!(e.to_string(), "unsupported image format");
    let e = check_image("/p/a.png", MAX_IMAGE_SIZE + 1).unwrap_err();
    assert_eq!(e.kind(), ErrorKind::InvalidData);
    assert_eq!(e.to_string(), "image too large (20971521 bytes, max 20971520 bytes)");
    let out = image_file_output("/p/a.png", "image/png", b"Hello");
    assert_eq!(out.kind, "image");
    assert_eq!(
        out.file.content,
        r#"{"source":{"data":"SGVsbG8=","media_type":"image/png","type":"base64"},"type":"image"}"#
    );
    assert_eq!(out.file.num_lines, 1);
    assert_eq!(out.file.start_line, 1);
    assert_eq!(out.file.total_lines, 1);
}

#[test]
fn patch_marks_removed_and_added_lines() {
    let hunks = make_patch("a\nb\n", "a\nc\nd");
    assert_eq!(hunks.len(), 1);
    let h = &hunks[0];
    assert_eq!(h.old_start, 1);
    assert_eq!(h.old_lines, 2);
    assert_eq!(h.new_start, 1);
    assert_eq!(h.new_lines, 3);
    assert_eq!(h.lines, vec!["-a", "-b", "+a", "+c", "+d"]);
}

#[test]
fn write_output_kinds() {
    let created = write_file_output("/w.txt", "new\n", None);
    assert_eq!(created.kind, "create");
    assert_eq!(created.structured_patch[0].lines, vec!["+new"]);
    let updated = write_file_output("/w.txt", "new\n", Some("old\n".to_string()));
    assert_eq!(updated.kind, "update");
    assert_eq!(updated.original_file, Some("old\n".to_string()));
    assert_eq!(updated.structured_patch[0].lines, vec!["-old", "+new"]);
    assert!(updated.git_diff.is_none());
}

#[test]
fn edit_replaces_first_or_all() {
    assert_eq!(edit_file_contents("a-a-a", "a", "b", false).unwrap(), "b-a-a");
    assert_eq!(edit_file_contents("a-a-a", "a", "b", true).unwrap(), "b-b-b");
    let e = edit_file_contents("abc", "x", "y", false).unwrap_err();
    assert_eq!(e.kind(), ErrorKind::NotFound);
    assert_eq!(e.to_string(), "old_string not found in file");
    let e = edit_file_contents("abc", "b", "b", true).unwrap_err();
    assert_eq!(e.kind(), ErrorKind::InvalidInput);
    assert_eq!(e.to_string(), "old_string and new_string must differ");
    let out = edit_file_output("/e.txt", "a", "b", "a\n", "b\n", false);
    assert_eq!(out.original_file, "a\n");
    assert_eq!(out.structured_patch[0].lines, vec!["-a", "+b"]);
    assert!(!out.user_modified);
    assert!(!out.replace_all);
}

#[test]
fn workspace_boundary_compares_components() {
    assert!(validate_workspace_boundary("/ws/src/main.rs", "/ws").is_ok());
    assert_eq!(
        validate_workspace_boundary("/ws/src/main.rs", "/ws").unwrap(),
        "/ws/src/main.rs"
    );
    assert!(validate_workspace_boundary("/ws", "/ws").is_ok());
    let e = validate_workspace_boundary("/wsx/file", "/ws").unwrap_err();
    assert_eq!(e.kind(), ErrorKind::PermissionDenied);
    assert_eq!(e.to_string(), "path /wsx/file escapes workspace boundary /ws");
    assert!(validate_workspace_boundary("/etc/passwd", "/ws").is_err());
}

#[test]
fn pdf_text_is_split_into_pages() {
    let out = pdf_output_from_text("/d.pdf", "one\x0c two \x0cthree\x0c  \n", None).unwrap();
    assert_eq!(out.kind, "pdf");
    assert_eq!(
        out.file.content,
        "--- Page 1 ---\none\n\n--- Page 2 ---\ntwo\n\n--- Page 3 ---\nthree\n\n"
    );
    assert_eq!(out.file.num_lines, 9);
    let sel = pdf_output_from_text("/d.pdf", "one\x0ctwo\x0cthree", Some("3,1")).unwrap();
    assert_eq!(sel.file.content, "--- Page 3 ---\nthree\n\n--- Page 1 ---\none\n\n");
    let e = pdf_output_from_text("/d.pdf", "one\x0ctwo", Some("3")).unwrap_err();
    assert_eq!(e.to_string(), "page 3 out of bounds (document has 2 pages)");
    let many = "p\x0c".repeat(21);
    let e = pdf_output_from_text("/d.pdf", &many, None).unwrap_err();
    assert_eq!(
        e.to_string(),
        "PDF has 21 pages. Provide a `pages` parameter to select up to 20 pages (e.g., \"1-5\")."
    );
}

#[test]
fn invalid_pdf_bytes_are_an_extraction_error() {
    let extracted = pdf_extract::extract_text_from_mem(b"this is not a real pdf").map_err(|e| e.to_string());
    let e = pdf_output_from_extraction("/d.pdf", extracted, None).unwrap_err();
    assert_eq!(e.kind(), ErrorKind::InvalidData);
    assert!(e.to_string().starts_with("failed to extract PDF text: "));
    let e = pdf_output_from_extraction("/d.pdf", Err("bad xref".to_string()), None).unwrap_err();
    assert_eq!(e.to_string(), "failed to extract PDF text: bad xref");
    let ok = pdf_output_from_extraction("/d.pdf", Ok("a\x0cb".to_string()), Some("2")).unwrap();
    assert_eq!(ok.file.content, "--- Page 2 ---\nb\n\n");
}

#[test]
fn reads_and_writes_files() {
    let path = "/tmp/clawd-native-read-write.txt-1";
    let write_output = write_file_output(path, "one\ntwo\nthree", None);
    assert_eq!(write_output.kind, "create");

    assert_eq!(read_file_kind(path), ReadFileKind::Text);
    let read_output = text_file_output(path, "one\ntwo\nthree", Some(1), Some(1));
    assert_eq!(read_output.file.content, "two");
}

#[test]
fn edits_file_contents() {
    let original = "alpha beta alpha";
    let updated = edit_file_contents(original, "alpha", "omega", true).expect("edit should succeed");
    assert_eq!(updated, "omega beta omega");
    let output = edit_file_output("/tmp/clawd-native-edit.txt-1", "alpha", "omega", original, &updated, true);
    assert!(output.replace_all);
}

#[test]
fn pdf_pages_param_ignored_for_non_pdf() {
    let path = "/tmp/clawd-native-text-with-pages.txt-1";
    assert_eq!(read_file_kind(path), ReadFileKind::Text);
    let result = text_file_output(path, "hello\nworld", None, None);
    assert_eq!(result.file.content, "hello\nworld");
}

#[test]
fn read_plan_checks_kind_then_size() {
    assert_eq!(read_plan("/d/a.pdf", 10).unwrap(), ReadStep::Pdf);
    assert_eq!(
        read_plan("/d/a.pdf", MAX_PDF_SIZE + 1).unwrap_err().to_string(),
        "PDF too large (20971521 bytes, max 20971520 bytes)"
    );
    assert_eq!(
        read_plan("/d/a.JPG", 10).unwrap(),
        ReadStep::Image { media_type: "image/jpeg".to_string() }
    );
    assert_eq!(read_plan("/d/n.ipynb", 10).unwrap(), ReadStep::Notebook);
    assert_eq!(read_plan("/d/t.txt", MAX_READ_SIZE).unwrap(), ReadStep::Text);
    let e = read_plan("/d/t.txt", MAX_PDF_SIZE).unwrap_err();
    assert_eq!(e.kind(), ErrorKind::InvalidData);
    assert_eq!(e.to_string(), "file is too large (20971520 bytes, max 10485760 bytes)");
}
