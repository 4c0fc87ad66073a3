use glue::assemble::{assemble, LoadedFile, NoticeKind, GLUE_HEADER};
use glue::select::{Selector, WalkEntry};

fn run(entries: &[(&str, bool, &[u8])], includes: &[&str], excludes: &[&str], include_binary: bool) -> (String, Vec<NoticeKind>) {
    let inc: Vec<String> = includes.iter().map(|s| s.to_string()).collect();
    let exc: Vec<String> = excludes.iter().map(|s| s.to_string()).collect();
    let sel = Selector::new(&inc, &exc).ok().unwrap();
    let walk: Vec<WalkEntry> = entries
        .iter()
        .map(|(p, f, _)| WalkEntry { path: p.to_string(), is_file: *f })
        .collect();
    let files: Vec<LoadedFile> = sel
        .select(&walk)
        .into_iter()
        .map(|p| {
            let bytes = entries.iter().find(|(q, _, _)| *q == p).unwrap().2.to_vec();
            LoadedFile { path: p, content: Ok(bytes) }
        })
        .collect();
    let r = assemble(&files, include_binary);
    (r.text, r.diagnostics.iter().map(|d| d.kind).collect())
}

#[test]
fn run_over_small_tree() {
    let tree: Vec<(&str, bool, &[u8])> = vec![
        (".", false, b""),
        ("./b.bin", true, &[0, 1, 2]),
        ("./.git", false, b""),
        ("./.git/config", true, b"[core]\n"),
        ("./a.txt", true, b"hello"),
    ];
    let (text, notices) = run(&tree, &["**/*"], &[], false);
    assert_eq!(text, format!("{}\n$$--GLUE--$$\n./a.txt\n$$--GLUE--$$\nhello", GLUE_HEADER));
    assert_eq!(notices, vec![NoticeKind::BinarySkipped]);
}

#[test]
fn run_with_no_matches_gives_header_only() {
    let tree: Vec<(&str, bool, &[u8])> = vec![("./a.txt", true, b"hello")];
    let (text, notices) = run(&tree, &["*.nothing"], &[], false);
    assert_eq!(text, GLUE_HEADER);
    assert!(notices.is_empty());
}

#[test]
fn run_twice_is_identical() {
    let tree: Vec<(&str, bool, &[u8])> = vec![
        ("./z.rs", true, b"z"),
        ("./src/generated/x.rs", true, b"x"),
        ("./src/main.rs", true, b"fn main() {}"),
    ];
    let first = run(&tree, &["*.rs"], &["**/generated/*.rs"], false);
    let second = run(&tree, &["*.rs"], &["**/generated/*.rs"], false);
    assert_eq!(first, second);
    assert_eq!(
        first.0,
        format!(
            "{}\n$$--GLUE--$$\n./src/main.rs\n$$--GLUE--$$\nfn main() {{}}\n$$--GLUE--$$\n./z.rs\n$$--GLUE--$$\nz",
            GLUE_HEADER
        )
    );
}
