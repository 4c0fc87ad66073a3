use glue::assemble::{
    assemble, classify, Bundle, FileOutcome, LoadedFile, NoticeKind, GLUE_HEADER, GLUE_SEPARATOR,
};

fn loaded(path: &str, bytes: &[u8]) -> LoadedFile {
    LoadedFile { path: path.to_string(), content: Ok(bytes.to_vec()) }
}

#[test]
fn scenario_text_binary_and_git() {
    let files = vec![loaded("./a.txt", b"hello"), loaded("./b.bin", &[0, 1, 2])];
    let r = assemble(&files, false);
    let expected = format!("{}\n$$--GLUE--$$\n./a.txt\n$$--GLUE--$$\nhello", GLUE_HEADER);
    assert_eq!(r.text, expected);
    assert_eq!(r.diagnostics.len(), 1);
    assert_eq!(r.diagnostics[0].path, "./b.bin");
    assert_eq!(r.diagnostics[0].kind, NoticeKind::BinarySkipped);
}

#[test]
fn scenario_header_only_when_nothing_selected() {
    let r = assemble(&Vec::new(), false);
    assert_eq!(r.text, GLUE_HEADER);
    assert!(r.diagnostics.is_empty());
}

#[test]
fn header_has_three_markers() {
    assert!(GLUE_HEADER.starts_with("$$--GLUE--$$\n# This is a GLUE file;"));
    assert!(GLUE_HEADER.ends_with("\n$$--GLUE--$$\n"));
    assert_eq!(GLUE_HEADER.matches("$$--GLUE--$$").count(), 2);
    assert_eq!(GLUE_SEPARATOR, "\n$$--GLUE--$$\n");
}

#[test]
fn binary_included_when_wanted() {
    let files = vec![loaded("./b.bin", &[0, 1, 2])];
    let r = assemble(&files, true);
    let expected = format!("{}\n$$--GLUE--$$\n./b.bin\n$$--GLUE--$$\n\u{0}\u{1}\u{2}", GLUE_HEADER);
    assert_eq!(r.text, expected);
    assert!(r.diagnostics.is_empty());
}

#[test]
fn invalid_utf8_always_left_out() {
    for include_binary in [false, true] {
        let files = vec![loaded("./x.txt", &[0x61, 0xC3, 0x28])];
        let r = assemble(&files, include_binary);
        assert_eq!(r.text, GLUE_HEADER);
        assert_eq!(r.diagnostics.len(), 1);
        assert_eq!(r.diagnostics[0].kind, NoticeKind::InvalidText);
        assert_eq!(r.diagnostics[0].detail, "");
    }
}

#[test]
fn read_failure_gives_notice_with_message() {
    let files = vec![
        LoadedFile { path: "./gone".to_string(), content: Err("permission denied".to_string()) },
        loaded("./ok.rs", b"fn main() {}\r\n"),
    ];
    let r = assemble(&files, false);
    let expected = format!("{}\n$$--GLUE--$$\n./ok.rs\n$$--GLUE--$$\nfn main() {{}}\r\n", GLUE_HEADER);
    assert_eq!(r.text, expected);
    assert_eq!(r.diagnostics.len(), 1);
    assert_eq!(r.diagnostics[0].path, "./gone");
    assert_eq!(r.diagnostics[0].kind, NoticeKind::ReadFailed);
    assert_eq!(r.diagnostics[0].detail, "permission denied");
}

#[test]
fn sections_follow_file_order() {
    let files = vec![loaded("./a", b"1"), loaded("./b", b""), loaded("./c", "ünï".as_bytes())];
    let r = assemble(&files, false);
    let expected = format!(
        "{h}{s}./a{s}1{s}./b{s}{s}./c{s}ünï",
        h = GLUE_HEADER,
        s = GLUE_SEPARATOR
    );
    assert_eq!(r.text, expected);
}

#[test]
fn assembly_is_repeatable() {
    let files = vec![loaded("./a", b"x"), loaded("./b", &[0xFF]), loaded("./c", b"%PDF-1.4")];
    let first = assemble(&files, false);
    let second = assemble(&files, false);
    assert_eq!(first.text, second.text);
    assert_eq!(first.diagnostics.len(), 2);
    assert_eq!(second.diagnostics.len(), 2);
}

#[test]
fn sniffing_rules() {
    let text = |b: &[u8]| matches!(classify(&Ok(b.to_vec()), false), FileOutcome::Included(_));
    let binary = |b: &[u8]| {
        matches!(classify(&Ok(b.to_vec()), false), FileOutcome::Skipped(NoticeKind::BinarySkipped, _))
    };
    assert!(text(b""));
    assert!(text(b"plain"));
    assert!(binary(b"ab\0cd"));
    assert!(binary(b"%PDF-1.7 text"));
    assert!(binary(b"\x89PNG\r\n"));
    let mut late_zero = vec![b'a'; 1024];
    late_zero.push(0);
    assert!(text(&late_zero));
    let mut early_zero = vec![b'a'; 1023];
    early_zero.push(0);
    assert!(binary(&early_zero));
    assert!(text(b"\xEF\xBB\xBFbom\0text"));
    // A UTF-16 byte order mark counts as text, but the bytes are not UTF-8.
    assert!(matches!(
        classify(&Ok(vec![0xFF, 0xFE, 0x00, 0x41]), false),
        FileOutcome::Skipped(NoticeKind::InvalidText, _)
    ));
}

#[test]
fn classify_decodes_text() {
    match classify(&Ok("grüß\n".as_bytes().to_vec()), false) {
        FileOutcome::Included(t) => assert_eq!(t, "grüß\n"),
        _ => panic!("expected text"),
    }
    match classify(&Err("boom".to_string()), true) {
        FileOutcome::Skipped(NoticeKind::ReadFailed, m) => assert_eq!(m, "boom"),
        _ => panic!("expected a read failure"),
    }
}

#[test]
fn bundle_grows_by_sections() {
    let mut b = Bundle::new();
    assert_eq!(b.as_str(), GLUE_HEADER);
    b.push_section("./p", "body");
    let d = b.add_file("./q", &Ok(vec![0]), false);
    assert_eq!(d.map(|d| d.kind), Some(NoticeKind::BinarySkipped));
    assert!(b.add_file("./r", &Ok(b"r".to_vec()), false).is_none());
    let expected = format!("{h}{s}./p{s}body{s}./r{s}r", h = GLUE_HEADER, s = GLUE_SEPARATOR);
    assert_eq!(b.into_string(), expected);
}
