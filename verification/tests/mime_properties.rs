use nptk_widgets::mime::{
    get_mime_variants, mime_description_variants, extract_comment, package_comment, declared_comment,
    collect_handlers, open_label, VariantHandlers,
};
use nptk_widgets::properties::{decimal_text, size_with_bytes, kind_display, icon_label, single_properties, multi_properties, FileFacts};

fn strs(v: &[&str]) -> Vec<String> {
    v.iter().map(|s| s.to_string()).collect()
}

#[test]
fn handler_variants_of_text_types() {
    assert_eq!(get_mime_variants("text/x-toml"), strs(&["text/x-toml", "application/toml", "text/plain"]));
    assert_eq!(get_mime_variants("application/toml"), strs(&["application/toml", "text/plain"]));
    assert_eq!(get_mime_variants("text/x-rust"), strs(&["text/x-rust", "text/plain"]));
    assert_eq!(get_mime_variants("text/markdown"), strs(&["text/markdown", "text/plain"]));
    assert_eq!(get_mime_variants("text/plain"), strs(&["text/plain"]));
    assert_eq!(get_mime_variants("application/json"), strs(&["application/json", "text/plain"]));
    assert_eq!(get_mime_variants("application/vnd.ms-yaml"), strs(&["application/vnd.ms-yaml", "text/plain"]));
    assert_eq!(get_mime_variants("image/png"), strs(&["image/png"]));
    assert_eq!(get_mime_variants("application/pdf"), strs(&["application/pdf"]));
}

#[test]
fn description_variants() {
    assert_eq!(mime_description_variants("text/x-log"), strs(&["text/x-log", "text/log", "text/plain"]));
    assert_eq!(
        mime_description_variants("application/x-shellscript"),
        strs(&["application/x-shellscript", "application/shellscript", "text/x-shellscript", "text/x-sh"])
    );
    assert_eq!(mime_description_variants("application/toml"), strs(&["application/toml", "text/x-toml"]));
    assert_eq!(mime_description_variants("image/png"), strs(&["image/png"]));
    assert_eq!(mime_description_variants("noslash"), strs(&["noslash"]));
    assert_eq!(
        mime_description_variants("application/x-iso9660-image"),
        strs(&["application/x-iso9660-image", "application/iso9660-image", "application/x-iso9660-image"])
    );
}

#[test]
fn comment_prefers_english() {
    let block = r#"<mime-type type="text/plain"><comment xml:lang="de">Textdokument</comment><comment xml:lang="en">Plain text document</comment></mime-type>"#;
    assert_eq!(extract_comment(block), Some("Plain text document".to_string()));
}

#[test]
fn comment_falls_back_to_first_non_empty() {
    let block = "<mime-type><comment>   </comment><comment xml:lang=\"fr\"> Texte </comment><comment>Other</comment></mime-type>";
    assert_eq!(extract_comment(block), Some("Texte".to_string()));
    assert_eq!(extract_comment("<mime-type></mime-type>"), None);
    assert_eq!(extract_comment("<comment>unterminated"), None);
}

#[test]
fn package_scan_finds_the_right_block() {
    let content = [
        "<mime-info>",
        "<mime-type type=\"text/x-log\"><comment>Log file</comment></mime-type>",
        "<mime-type type=\"text/x-rust\"><comment xml:lang=\"en\">Rust source code</comment></mime-type>",
        "</mime-info>",
    ]
    .join("");
    let content = content.as_str();
    assert_eq!(package_comment(content, "text/x-rust"), Some("Rust source code".to_string()));
    assert_eq!(package_comment(content, "text/x-log"), Some("Log file".to_string()));
    assert_eq!(package_comment(content, "text/x-python"), None);
}

#[test]
fn package_scan_skips_blocks_without_description() {
    let content = [
        "<mime-type type=\"a/b\"></mime-type>",
        "<mime-type type=\"a/b\"><comment>Second</comment></mime-type>",
    ]
    .join("");
    let content = content.as_str();
    assert_eq!(package_comment(content, "a/b"), Some("Second".to_string()));
}

#[test]
fn declared_comment_needs_the_type() {
    let content = "<mime-type type=\"image/png\"><comment>PNG image</comment></mime-type>";
    assert_eq!(declared_comment(content, "image/png"), Some("PNG image".to_string()));
    assert_eq!(declared_comment(content, "image/jpeg"), None);
}

#[test]
fn open_with_lists_each_application_once() {
    let found = vec![
        VariantHandlers {
            default_app: Some("editor".to_string()),
            listed: strs(&["editor", "viewer"]),
            desktop_default: None,
        },
        VariantHandlers {
            default_app: Some("notes".to_string()),
            listed: strs(&["viewer"]),
            desktop_default: Some("editor".to_string()),
        },
    ];
    assert_eq!(collect_handlers(&found), strs(&["editor", "viewer", "notes"]));
    assert!(collect_handlers(&vec![]).is_empty());
}

#[test]
fn open_label_names_first_application_found() {
    assert_eq!(open_label(true, &vec![Some("Editor".to_string())]), "Open");
    assert_eq!(open_label(false, &vec![None, Some("Editor".to_string()), Some("Viewer".to_string())]), "Open with Editor");
    assert_eq!(open_label(false, &vec![None, None]), "Open");
}

#[test]
fn decimal_text_writes_digits() {
    assert_eq!(decimal_text(0), "0");
    assert_eq!(decimal_text(7), "7");
    assert_eq!(decimal_text(1234), "1234");
    assert_eq!(decimal_text(u64::MAX), u64::MAX.to_string());
}

#[test]
fn size_value_and_kind() {
    assert_eq!(size_with_bytes("1.50 KiB", 1536), "1.50 KiB (1536 bytes)");
    assert_eq!(kind_display(Some("PNG image".to_string()), "image/png"), "PNG image (image/png)");
    assert_eq!(kind_display(None, "image/png"), "image/png");
    assert_eq!(icon_label(Some("rs")), "RS");
    assert_eq!(icon_label(None), "FILE");
}

#[test]
fn single_entry_rows() {
    let facts = FileFacts { size: 1536, modified: Some("2024-01-02 03:04:05".to_string()), created: None };
    let d = single_properties(
        "/home/a.txt".to_string(),
        "a.txt".to_string(),
        Some("txt"),
        "text/plain".to_string(),
        Some(facts),
        "/home".to_string(),
    );
    assert_eq!(d.title, "a.txt");
    assert_eq!(d.icon_label, "TXT");
    let rows: Vec<(&str, &str)> = d.rows.iter().map(|(a, b)| (a.as_str(), b.as_str())).collect();
    assert_eq!(
        rows,
        vec![
            ("Kind", "text/plain"),
            ("Name", "a.txt"),
            ("Size", "1.50 KiB (1536 bytes)"),
            ("Modified", "2024-01-02 03:04:05"),
            ("Location", "/home"),
            ("Path", "/home/a.txt"),
        ]
    );
    assert_eq!(d.paths, strs(&["/home/a.txt"]));
}

#[test]
fn single_entry_without_metadata() {
    let d = single_properties("/x".to_string(), "x".to_string(), None, "unknown".to_string(), None, "/".to_string());
    assert_eq!(d.rows.len(), 4);
    assert_eq!(d.icon_label, "FILE");
}

#[test]
fn several_entries_rows() {
    let d = multi_properties(strs(&["/a", "/b", "/c"]), &vec![Some(1024), None, Some(1024)]);
    assert_eq!(d.title, "3 items");
    assert_eq!(d.icon_label, "MULTI");
    assert_eq!(d.rows[0], ("Items".to_string(), "3".to_string()));
    assert_eq!(d.rows[1], ("Total size".to_string(), "2 KiB".to_string()));
}

#[test]
fn total_size_stops_at_largest_value() {
    let d = multi_properties(strs(&["/a", "/b"]), &vec![Some(u64::MAX), Some(5)]);
    assert_eq!(d.rows[1].1, humansize::format_size(u64::MAX, humansize::BINARY));
}
