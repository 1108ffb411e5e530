use mdx::serve::{
    dedup_candidate, find_double_newline, is_plain_file_name, multipart_filename, parse_multipart,
    percent_decode, sanitize_upload_filename, split_bytes, static_content_type,
};

#[test]
fn test_percent_decode() {
    assert_eq!(
        percent_decode("assets/a%20b.png").unwrap(),
        "assets/a b.png"
    );
    assert_eq!(percent_decode("plain.png").unwrap(), "plain.png");
    assert_eq!(percent_decode("%2e%2e%2fetc").unwrap(), "../etc");
    assert_eq!(percent_decode("%2E%2E%2Fetc").unwrap(), "../etc");
    assert_eq!(percent_decode("100%.png").unwrap(), "100%.png");
    assert_eq!(percent_decode("trailing%2").unwrap(), "trailing%2");
    assert!(percent_decode("%ff%fe.png").is_none());
}

#[test]
fn percent_decode_joins_multibyte_sequences() {
    assert_eq!(percent_decode("caf%C3%A9").unwrap(), "café");
    assert!(percent_decode("caf%C3").is_none());
}

#[test]
fn test_static_content_type_allowlist() {
    assert_eq!(static_content_type("png"), Some("image/png"));
    assert_eq!(static_content_type("jpeg"), Some("image/jpeg"));
    assert_eq!(static_content_type("svg"), Some("image/svg+xml"));
    assert_eq!(static_content_type("webp"), Some("image/webp"));
    assert_eq!(static_content_type("gif"), Some("image/gif"));
    assert_eq!(static_content_type("txt"), None);
    assert_eq!(static_content_type("env"), None);
    assert_eq!(static_content_type("md"), None);
    assert_eq!(static_content_type(""), None);
}

#[test]
fn static_content_type_other_images() {
    assert_eq!(static_content_type("apng"), Some("image/png"));
    assert_eq!(static_content_type("tif"), Some("image/tiff"));
    assert_eq!(static_content_type("ico"), Some("image/x-icon"));
    assert_eq!(static_content_type("PNG"), None, "the caller lower-cases");
}

#[test]
fn test_sanitize_upload_filename() {
    assert_eq!(sanitize_upload_filename("shot.png"), "shot.png");
    assert_eq!(sanitize_upload_filename("../../evil.png"), "evil.png");
    assert_eq!(sanitize_upload_filename("..\\..\\evil.png"), "evil.png");
    assert_eq!(sanitize_upload_filename("/etc/cron.d/evil.png"), "evil.png");
    assert_eq!(sanitize_upload_filename("a:b.png"), "ab.png");
    assert_eq!(sanitize_upload_filename(".."), "upload.png");
    assert_eq!(sanitize_upload_filename(""), "upload.png");
}

#[test]
fn sanitize_upload_filename_reserved_and_long_names() {
    assert_eq!(sanitize_upload_filename("con.png"), "upload.png");
    assert_eq!(sanitize_upload_filename("LPT9.txt"), "upload.png");
    assert_eq!(sanitize_upload_filename("console.png"), "console.png");
    assert_eq!(sanitize_upload_filename(&"a".repeat(201)), "upload.png");
    assert_eq!(sanitize_upload_filename(&"a".repeat(200)), "a".repeat(200));
    assert_eq!(sanitize_upload_filename(&"é".repeat(101)), "upload.png", "202 bytes");
}

#[test]
fn test_plain_file_names_accepted() {
    assert!(is_plain_file_name("notes.md"));
    assert!(is_plain_file_name("a b.md"));
    assert!(is_plain_file_name("café.md"));
}

#[test]
fn test_separators_and_traversal_rejected() {
    for bad in ["a/b.md", "a\\b.md", "..", "../x.md", "", "/abs.md"] {
        assert!(!is_plain_file_name(bad), "{:?} must be rejected", bad);
    }
}

#[test]
fn test_drive_relative_name_rejected() {
    assert!(!is_plain_file_name("C:evil.md"));
    assert!(!is_plain_file_name(r"\\?\C:\evil.md"));
}

#[test]
fn test_nul_rejected() {
    assert!(!is_plain_file_name("a\0b.md"));
}

#[test]
fn plain_file_name_agrees_with_path_components() {
    for name in ["x.md", "x.md/", "x/.", "./x", ".", "a/b", ".hidden", "..."] {
        let mut comps = std::path::Path::new(name).components();
        let expected = matches!(comps.next(), Some(std::path::Component::Normal(_)))
            && comps.next().is_none();
        assert_eq!(is_plain_file_name(name), expected, "{:?}", name);
    }
}

#[test]
fn find_double_newline_prefers_crlf() {
    assert_eq!(find_double_newline(b"a: b\r\n\r\ndata"), Some(8));
    assert_eq!(find_double_newline(b"a: b\n\ndata"), Some(6));
    assert_eq!(find_double_newline(b"no break"), None);
}

#[test]
fn split_bytes_keeps_empty_pieces() {
    assert_eq!(
        split_bytes(b"--x--ab--x--", b"--x--"),
        vec![b"".to_vec(), b"ab".to_vec(), b"".to_vec()]
    );
    assert_eq!(split_bytes(b"plain", b"--"), vec![b"plain".to_vec()]);
}

#[test]
fn parse_multipart_extracts_name_and_data() {
    let body = b"--XYZ\r\nContent-Disposition: form-data; name=\"file\"; filename=\"shot.png\"\r\nContent-Type: image/png\r\n\r\nPNGDATA\r\n--XYZ--\r\n";
    let (name, data) = parse_multipart(body, "multipart/form-data; boundary=XYZ").unwrap();
    assert_eq!(name, "shot.png");
    assert_eq!(data, b"PNGDATA".to_vec());
    assert!(parse_multipart(body, "multipart/form-data").is_none());
    assert!(parse_multipart(b"--XYZ\r\n\r\n\r\n--XYZ--", "x; boundary=\"XYZ\"").is_none());
}

#[test]
fn multipart_filename_defaults() {
    assert_eq!(multipart_filename("no name here"), "upload.png");
    assert_eq!(multipart_filename("a\nContent-Disposition: x; filename='pic.jpg'\n"), "pic.jpg");
}

#[test]
fn dedup_candidate_numbers_the_stem() {
    assert_eq!(dedup_candidate("shot.png", 1), "shot-1.png");
    assert_eq!(dedup_candidate("archive.tar.gz", 12), "archive.tar-12.gz");
    assert_eq!(dedup_candidate("README", 3), "README-3");
    assert_eq!(dedup_candidate(".env", 2), ".env-2");
}
