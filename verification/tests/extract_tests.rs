use std::io::Write;

use mas_installer::download::Progress;
use mas_installer::errors::ExtractionError;
use mas_installer::extract::{
    ExtractStep, Extractor, extract_next, open_for_extraction, sanitize_entry_path,
};
use mas_installer::orchestrator::{Orchestrator, Stage};

fn parts(r: Option<Vec<String>>) -> Vec<String> {
    r.expect("the path should be safe")
}

#[test]
fn plain_relative_paths_are_confined() {
    assert_eq!(parts(sanitize_entry_path("a.txt")), vec!["a.txt"]);
    assert_eq!(parts(sanitize_entry_path("game/a.txt")), vec!["game", "a.txt"]);
    assert_eq!(parts(sanitize_entry_path("game/")), vec!["game"]);
    assert_eq!(parts(sanitize_entry_path("a//b")), vec!["a", "b"]);
    assert_eq!(parts(sanitize_entry_path("a/./b")), vec!["a", "b"]);
    assert_eq!(parts(sanitize_entry_path("")), Vec::<String>::new());
}

#[test]
fn parent_and_absolute_paths_are_rejected() {
    assert!(sanitize_entry_path("../evil.txt").is_none());
    assert!(sanitize_entry_path("..\\evil.txt").is_none());
    assert!(sanitize_entry_path("/etc/passwd").is_none());
    assert!(sanitize_entry_path("\\windows\\system32").is_none());
    assert!(sanitize_entry_path("a/../b").is_none());
    assert!(sanitize_entry_path("a/..").is_none());
    assert!(sanitize_entry_path("..").is_none());
    assert!(sanitize_entry_path("a/b\0c").is_none());
}

#[test]
fn drive_prefixed_paths_are_rejected() {
    // A component with a drive-prefix colon would replace the
    // destination, not descend below it, when joined on a system with
    // drive letters.
    assert!(sanitize_entry_path("C:/game/x").is_none());
    assert!(sanitize_entry_path("C:\\evil.txt").is_none());
    assert!(sanitize_entry_path("C:evil.txt").is_none());
    assert!(sanitize_entry_path("a/b:c.txt").is_none());
}

#[test]
fn unsafe_entry_writes_nothing_and_names_the_path() {
    let mut ex = Extractor::new(3);
    match ex.step("../evil.txt", false, vec![1, 2, 3]) {
        Err(ExtractionError::UnsafeFilepath(name)) => {
            assert_eq!(name, "../evil.txt");
        },
        other => panic!("expected an unsafe-filepath error, got {:?}", other),
    }
    // Nothing was materialized for the entry: the cursor did not move.
    assert_eq!(ex.next_index, 0);
}

#[test]
fn safe_entries_become_steps_with_per_entry_progress() {
    let mut ex = Extractor::new(2);
    let (step, prog) = ex.step("game/", true, Vec::new()).unwrap();
    match step {
        ExtractStep::CreateDir { path } => assert_eq!(path, vec!["game"]),
        other => panic!("expected a directory step, got {:?}", other),
    }
    assert_eq!(prog, Progress { num: 1, den: 2 });

    let (step, prog) = ex.step("game/a.txt", false, vec![5, 6]).unwrap();
    match step {
        ExtractStep::WriteFile { path, data } => {
            assert_eq!(path, vec!["game", "a.txt"]);
            assert_eq!(data, vec![5, 6]);
        },
        other => panic!("expected a file step, got {:?}", other),
    }
    assert_eq!(prog, Progress { num: 2, den: 2 });
    assert!(!ex.poll(false));
}

fn build_test_zip() -> Vec<u8> {
    let opts = zip::write::SimpleFileOptions::default()
        .compression_method(zip::CompressionMethod::Stored);
    let mut w = zip::ZipWriter::new(std::io::Cursor::new(Vec::new()));
    w.add_directory("game", opts).unwrap();
    w.start_file("game/script.rpy", opts).unwrap();
    w.write_all(b"label start:").unwrap();
    w.start_file("readme.txt", opts).unwrap();
    w.write_all(b"hello there").unwrap();
    w.finish().unwrap().into_inner()
}

fn run_extraction(bytes: Vec<u8>) -> Vec<(Vec<String>, Option<Vec<u8>>)> {
    let (mut archive, mut ex) = open_for_extraction(bytes).unwrap();
    let mut tree = Vec::new();
    while ex.poll(false) {
        let (step, _prog) = extract_next(&mut archive, &mut ex).unwrap();
        match step {
            ExtractStep::CreateDir { path } => tree.push((path, None)),
            ExtractStep::WriteFile { path, data } => tree.push((path, Some(data))),
        }
    }
    tree
}

#[test]
fn archive_entries_come_back_in_order_with_their_bytes() {
    let tree = run_extraction(build_test_zip());
    assert_eq!(tree.len(), 3);
    assert_eq!(tree[0], (vec!["game".to_string()], None));
    assert_eq!(
        tree[1],
        (
            vec!["game".to_string(), "script.rpy".to_string()],
            Some(b"label start:".to_vec())
        )
    );
    assert_eq!(
        tree[2],
        (vec!["readme.txt".to_string()], Some(b"hello there".to_vec()))
    );
}

#[test]
fn extracting_the_same_archive_twice_yields_identical_trees() {
    let first = run_extraction(build_test_zip());
    let second = run_extraction(build_test_zip());
    assert_eq!(first, second);
}

#[test]
fn malformed_container_is_an_archive_error() {
    match open_for_extraction(b"this is not an archive".to_vec()) {
        Err(ExtractionError::ArchiveError(_)) => {},
        other => panic!("expected an archive error, got {:?}", other),
    }
}

#[test]
fn extraction_progress_reaches_one_on_the_last_entry() {
    let bytes = build_test_zip();
    let (mut archive, mut ex) = open_for_extraction(bytes).unwrap();
    let mut last = Progress { num: 0, den: 0 };
    while ex.poll(false) {
        let (_step, prog) = extract_next(&mut archive, &mut ex).unwrap();
        assert!(prog.num >= last.num);
        last = prog;
    }
    assert_eq!(last, Progress { num: 3, den: 3 });
}

#[test]
fn cancellation_before_entry_loop_extracts_nothing() {
    let ex = Extractor::new(10);
    assert!(!ex.poll(true));
    assert_eq!(ex.next_index, 0);
}

#[test]
fn cancellation_after_five_of_ten_entries_materializes_exactly_five() {
    let mut ex = Extractor::new(10);
    let mut materialized: Vec<Vec<String>> = Vec::new();
    let mut cancelled = false;
    loop {
        if !ex.poll(cancelled) {
            break;
        }
        let name = format!("file-{}.txt", ex.next_index);
        let (step, _prog) = ex.step(&name, false, vec![7]).unwrap();
        match step {
            ExtractStep::WriteFile { path, .. } => materialized.push(path),
            other => panic!("expected a file step, got {:?}", other),
        }
        if materialized.len() == 5 {
            cancelled = true;
        }
    }
    assert_eq!(materialized.len(), 5);
    assert_eq!(ex.next_index, 5);
    // The run ends as aborted, a success and not an error.
    let mut orch = Orchestrator::new(false, false);
    orch.on_stage_complete(false);
    orch.on_stage_complete(false);
    assert_eq!(orch.stage, Stage::Extracting);
    orch.on_stage_complete(cancelled);
    assert_eq!(orch.stage, Stage::Aborted);
    assert!(orch.is_terminal_stage());
}
