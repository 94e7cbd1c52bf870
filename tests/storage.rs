use std::collections::BTreeMap;

use contextfy::codec::{decode_record, decode_records, encode_record};
use contextfy::storage::{DirEntry, ErrorKind, IngestAction, StoreError};
use contextfy::{KnowledgeRecord, KnowledgeStore, ParsedDoc, Retriever, SlicedSection};

/// A directory held in memory: record files by name, and staging
/// directories with the files they hold.
struct FakeDir {
    files: BTreeMap<String, String>,
    staging: BTreeMap<String, BTreeMap<String, String>>,
}

impl FakeDir {
    fn new() -> FakeDir {
        FakeDir { files: BTreeMap::new(), staging: BTreeMap::new() }
    }

    fn entries(&self) -> Vec<DirEntry> {
        let mut es = Vec::new();
        for name in self.files.keys() {
            es.push(DirEntry { name: name.clone(), is_dir: false, is_file: true });
        }
        for name in self.staging.keys() {
            es.push(DirEntry { name: name.clone(), is_dir: true, is_file: false });
        }
        es
    }

    fn records(&self) -> Vec<KnowledgeRecord> {
        let texts: Vec<Option<String>> =
            KnowledgeStore::record_files(&self.entries()).iter().map(|n| Some(self.files[n].clone())).collect();
        decode_records(&texts)
    }

    fn recover(&mut self) -> usize {
        let names = KnowledgeStore::orphaned_temp_dirs(&self.entries());
        for n in &names {
            self.staging.remove(n);
        }
        names.len()
    }
}

/// Runs one ingestion against `dir`; the step `fail` (if any) fails with an
/// I/O error, and so does every undo step when `fail_undo` is set.
fn ingest(
    store: &KnowledgeStore,
    doc: &ParsedDoc,
    dir: &mut FakeDir,
    fail: Option<IngestAction>,
    fail_undo: bool,
) -> Result<Vec<String>, StoreError> {
    let mut tx = store.add(doc).unwrap();
    let mut steps = 0;
    loop {
        steps += 1;
        assert!(steps < 10_000);
        let action = tx.next_action();
        if action == IngestAction::Finish {
            return tx.outcome();
        }
        let staging = tx.staging_name().to_string();
        let failed = Some(action) == fail || (fail_undo && matches!(action, IngestAction::Uncommit(_)));
        let err = if failed {
            Some(ErrorKind::IoFailure)
        } else {
            match action {
                IngestAction::CreateStaging => {
                    dir.staging.insert(staging, BTreeMap::new());
                    None
                }
                IngestAction::Stage(i) => match encode_record(&tx.records()[i]) {
                    Ok(text) => {
                        let name = KnowledgeStore::record_file_name(&tx.records()[i].id);
                        dir.staging.get_mut(&staging).unwrap().insert(name, text);
                        None
                    }
                    Err(k) => Some(k),
                },
                IngestAction::Commit(i) => {
                    let name = KnowledgeStore::record_file_name(&tx.records()[i].id);
                    let text = dir.staging.get_mut(&staging).unwrap().remove(&name).unwrap();
                    dir.files.insert(name, text);
                    None
                }
                IngestAction::Uncommit(i) => {
                    let name = KnowledgeStore::record_file_name(&tx.records()[i].id);
                    dir.files.remove(&name);
                    None
                }
                IngestAction::RemoveStaging => {
                    dir.staging.remove(&staging);
                    None
                }
                IngestAction::Finish => None,
            }
        };
        tx.advance(err);
    }
}

fn section(title: &str, content: &str, parent: &str) -> SlicedSection {
    SlicedSection {
        section_title: title.to_string(),
        content: content.to_string(),
        parent_doc_title: parent.to_string(),
        summary: content.to_string(),
    }
}

fn doc_with(path: &str, title: &str, sections: Vec<SlicedSection>) -> ParsedDoc {
    ParsedDoc {
        path: path.to_string(),
        title: title.to_string(),
        summary: "Test summary".to_string(),
        content: "Full content".to_string(),
        sections,
    }
}

#[test]
fn test_add_sliced_doc() {
    let store = KnowledgeStore::new("data");
    let mut dir = FakeDir::new();
    let doc = doc_with(
        "/fake/path.md",
        "Test Doc",
        vec![section("Section 1", "Content 1", "Test Doc"), section("Section 2", "Content 2", "Test Doc")],
    );
    let ids = ingest(&store, &doc, &mut dir, None, false).unwrap();
    assert_eq!(ids.len(), 2);
    let json_files: Vec<_> = dir.files.keys().filter(|n| n.ends_with(".json")).collect();
    assert_eq!(json_files.len(), 2);
    for r in dir.records() {
        assert_eq!(r.source_path, "/fake/path.md");
    }
}

#[test]
fn test_add_empty_sections() {
    let store = KnowledgeStore::new("data");
    let mut dir = FakeDir::new();
    let doc = ParsedDoc {
        path: "/legacy/doc.md".to_string(),
        title: "Legacy Doc".to_string(),
        summary: "Legacy summary".to_string(),
        content: "Full legacy content".to_string(),
        sections: vec![],
    };
    let ids = ingest(&store, &doc, &mut dir, None, false).unwrap();
    assert_eq!(ids.len(), 1);
    assert_eq!(dir.files.len(), 1);
    let records = dir.records();
    assert_eq!(records[0].title, "Legacy Doc");
    assert_eq!(records[0].parent_doc_title, "Legacy Doc");
    assert_eq!(records[0].source_path, "/legacy/doc.md");
    assert_eq!(records[0].summary, "Legacy summary");
    assert_eq!(records[0].content, "Full legacy content");
}

#[test]
fn test_storage_robustness() {
    let store = KnowledgeStore::new("data");
    let mut dir = FakeDir::new();
    let mut sections = vec![
        section("", "🚀 Emoji & \"Quotes\" & \nNewlines", "Edge Case Doc"),
        section("Empty Content", "", "Edge Case Doc"),
    ];
    for i in 0..50 {
        sections.push(section(&format!("Section {}", i), &format!("Content for section {}", i), "Edge Case Doc"));
    }
    let mut doc = doc_with("C:\\Windows\\System32\\weird_path.md", "Edge Case Doc", sections);
    doc.summary = "".to_string();
    doc.content = "".to_string();
    let ids = ingest(&store, &doc, &mut dir, None, false).unwrap();
    assert_eq!(ids.len(), 52);

    let records = dir.records();
    let first = store.get(&records, &ids[0]).unwrap();
    assert_eq!(first.content, "🚀 Emoji & \"Quotes\" & \nNewlines");
    assert_eq!(first.source_path, "C:\\Windows\\System32\\weird_path.md");

    let second = store.get(&records, &ids[1]).unwrap();
    assert_eq!(second.title, "Empty Content");
    assert_eq!(second.content, "");

    let unique_ids: std::collections::HashSet<_> = ids.iter().collect();
    assert_eq!(unique_ids.len(), 52);
}

#[test]
fn test_rollback_temp_cleanup() {
    let store = KnowledgeStore::new("data");
    let mut dir = FakeDir::new();
    let doc = doc_with(
        "/test/doc.md",
        "Test Doc",
        vec![section("Section 1", "Content 1", "Test Doc"), section("Section 2", "Content 2", "Test Doc")],
    );
    let ids = ingest(&store, &doc, &mut dir, None, false).unwrap();
    assert_eq!(ids.len(), 2);
    let json_files: Vec<_> =
        dir.files.keys().filter(|n| n.ends_with(".json") && !n.starts_with(".temp-")).collect();
    assert_eq!(json_files.len(), 2);
    assert_eq!(dir.staging.len(), 0, "Temporary directories should be cleaned up");
}

#[test]
fn test_atomicity_all_or_nothing() {
    let store = KnowledgeStore::new("data");
    let mut dir = FakeDir::new();
    let mut sections = Vec::new();
    for i in 0..5 {
        sections.push(section(&format!("Section {}", i), &format!("Content for section {}", i), "Atomicity Test"));
    }
    let doc = doc_with("/test/atomic.md", "Atomicity Test", sections);
    let ids = ingest(&store, &doc, &mut dir, None, false).unwrap();
    assert_eq!(ids.len(), 5);
    for id in &ids {
        assert!(dir.files.contains_key(&format!("{}.json", id)), "File {} should exist", id);
    }
    let records = dir.records();
    for id in &ids {
        assert!(store.get(&records, id).is_some(), "Record {} should be retrievable", id);
    }
}

fn five_section_doc() -> ParsedDoc {
    let mut sections = Vec::new();
    for i in 0..5 {
        sections.push(section(&format!("Part {}", i), &format!("Body of part {}", i), "Five"));
    }
    doc_with("/five.md", "Five", sections)
}

#[test]
fn commit_failure_rolls_back_everything() {
    let store = KnowledgeStore::new("data");
    let mut dir = FakeDir::new();
    let earlier = doc_with("/keep.md", "Keep", vec![section("Kept", "kept body", "Keep")]);
    let kept_ids = ingest(&store, &earlier, &mut dir, None, false).unwrap();
    let before = dir.files.clone();

    let err = ingest(&store, &five_section_doc(), &mut dir, Some(IngestAction::Commit(3)), false).unwrap_err();
    assert_eq!(err, StoreError { kind: ErrorKind::IoFailure, step: IngestAction::Commit(3) });
    assert_eq!(dir.files, before);
    assert!(dir.staging.is_empty());
    let records = dir.records();
    assert!(store.search(&records, "Part").is_empty());
    assert!(store.get(&records, &kept_ids[0]).is_some());
}

#[test]
fn first_commit_failure_leaves_nothing() {
    let store = KnowledgeStore::new("data");
    let mut dir = FakeDir::new();
    let err = ingest(&store, &five_section_doc(), &mut dir, Some(IngestAction::Commit(0)), false).unwrap_err();
    assert_eq!(err.kind, ErrorKind::IoFailure);
    assert!(dir.files.is_empty());
    assert!(dir.staging.is_empty());
}

#[test]
fn staging_failure_leaves_nothing() {
    let store = KnowledgeStore::new("data");
    let mut dir = FakeDir::new();
    let err = ingest(&store, &five_section_doc(), &mut dir, Some(IngestAction::Stage(2)), false).unwrap_err();
    assert_eq!(err, StoreError { kind: ErrorKind::IoFailure, step: IngestAction::Stage(2) });
    assert!(dir.files.is_empty());
    assert!(dir.staging.is_empty());
}

#[test]
fn create_staging_failure_reports_step() {
    let store = KnowledgeStore::new("data");
    let mut dir = FakeDir::new();
    let err = ingest(&store, &five_section_doc(), &mut dir, Some(IngestAction::CreateStaging), false).unwrap_err();
    assert_eq!(err, StoreError { kind: ErrorKind::IoFailure, step: IngestAction::CreateStaging });
    assert!(dir.files.is_empty());
    assert!(dir.staging.is_empty());
}

#[test]
fn failed_undo_is_reported_as_rollback() {
    let store = KnowledgeStore::new("data");
    let mut dir = FakeDir::new();
    let err = ingest(&store, &five_section_doc(), &mut dir, Some(IngestAction::Commit(2)), true).unwrap_err();
    assert_eq!(err, StoreError { kind: ErrorKind::Rollback, step: IngestAction::Commit(2) });
    assert_eq!(dir.files.len(), 2);
}

#[test]
fn failed_undo_names_the_records_left() {
    let store = KnowledgeStore::new("data");
    let mut tx = store.add(&five_section_doc()).unwrap();
    tx.advance(None);
    for _ in 0..5 {
        tx.advance(None);
    }
    assert_eq!(tx.next_action(), IngestAction::Commit(0));
    tx.advance(None);
    tx.advance(None);
    tx.advance(None);
    assert_eq!(tx.next_action(), IngestAction::Commit(3));
    tx.advance(Some(ErrorKind::IoFailure));
    assert_eq!(tx.next_action(), IngestAction::Uncommit(2));
    tx.advance(None);
    assert_eq!(tx.next_action(), IngestAction::Uncommit(1));
    tx.advance(Some(ErrorKind::IoFailure));
    assert_eq!(tx.next_action(), IngestAction::Uncommit(0));
    tx.advance(None);
    assert_eq!(tx.next_action(), IngestAction::RemoveStaging);
    tx.advance(None);
    assert_eq!(tx.next_action(), IngestAction::Finish);
    assert_eq!(tx.left_in_store(), &vec![1usize]);
    assert_eq!(tx.outcome().unwrap_err(), StoreError { kind: ErrorKind::Rollback, step: IngestAction::Commit(3) });
}

#[test]
fn undecodable_files_are_skipped() {
    let good = encode_record(&KnowledgeRecord {
        id: "k1".to_string(),
        title: "t".to_string(),
        parent_doc_title: "p".to_string(),
        summary: "s".to_string(),
        content: "c".to_string(),
        source_path: "x".to_string(),
    })
    .unwrap();
    let texts = vec![None, Some("garbage".to_string()), Some(good), Some("{}".to_string())];
    let rs = decode_records(&texts);
    assert_eq!(rs.len(), 1);
    assert_eq!(rs[0].id, "k1");
}

#[test]
fn failed_cleanup_leaves_staging_for_recovery() {
    let store = KnowledgeStore::new("data");
    let mut dir = FakeDir::new();
    let ids = ingest(&store, &five_section_doc(), &mut dir, Some(IngestAction::RemoveStaging), false).unwrap();
    assert_eq!(ids.len(), 5);
    assert_eq!(dir.staging.len(), 1);
    assert_eq!(dir.recover(), 1);
    assert_eq!(dir.recover(), 0);
    assert_eq!(dir.records().len(), 5);
}

#[test]
fn recovery_is_idempotent_and_keeps_records() {
    let store = KnowledgeStore::new("data");
    let mut dir = FakeDir::new();
    ingest(&store, &five_section_doc(), &mut dir, None, false).unwrap();
    dir.staging.insert(".temp-leftover".to_string(), BTreeMap::new());
    dir.files.insert(".temp-note.json".to_string(), "{}".to_string());
    let before = dir.files.clone();
    assert_eq!(dir.recover(), 1);
    assert!(dir.staging.is_empty());
    assert_eq!(dir.recover(), 0);
    assert_eq!(dir.files, before);
    assert_eq!(dir.records().len(), 5);
}

#[test]
fn search_finds_matching_sections_only() {
    let store = KnowledgeStore::new("data");
    let mut dir = FakeDir::new();
    let doc = doc_with(
        "/s.md",
        "Search",
        vec![
            section("Installing Rust", "How to install", "Search"),
            section("Usage", "Run the RUST compiler", "Search"),
            section("Python", "Snakes", "Search"),
            section("Go", "Gophers", "Search"),
            section("Misc", "Other things", "Search"),
        ],
    );
    ingest(&store, &doc, &mut dir, None, false).unwrap();
    let records = dir.records();
    assert_eq!(records.len(), 5);
    let found = store.search(&records, "rust");
    assert_eq!(found.len(), 2);
    let mut titles: Vec<_> = found.iter().map(|r| r.title.clone()).collect();
    titles.sort();
    assert_eq!(titles, vec!["Installing Rust".to_string(), "Usage".to_string()]);
    assert_eq!(store.search(&records, "xyz").len(), 0);
}

#[test]
fn search_ignores_content() {
    let store = KnowledgeStore::new("data");
    let r = KnowledgeRecord {
        id: "a".to_string(),
        title: "Title".to_string(),
        parent_doc_title: "P".to_string(),
        summary: "Summary".to_string(),
        content: "needle".to_string(),
        source_path: "p".to_string(),
    };
    assert!(store.search(&vec![r], "needle").is_empty());
}

#[test]
fn record_file_names() {
    assert_eq!(KnowledgeStore::record_file_name("abc"), "abc.json");
    assert_eq!(KnowledgeStore::temp_dir_name("x1"), ".temp-x1");
    assert!(KnowledgeStore::is_temp_file(".temp-123"));
    assert!(!KnowledgeStore::is_temp_file("a.temp-123"));
    assert!(!KnowledgeStore::is_record_file(&DirEntry { name: "x.txt".to_string(), is_dir: false, is_file: true }));
    assert!(!KnowledgeStore::is_record_file(&DirEntry { name: "x.json".to_string(), is_dir: true, is_file: false }));
    assert!(KnowledgeStore::is_record_file(&DirEntry { name: "x.json".to_string(), is_dir: false, is_file: true }));
}

#[test]
fn ids_are_hyphenated_and_distinct() {
    let store = KnowledgeStore::new("data");
    let tx = store.add(&five_section_doc()).unwrap();
    let ids: Vec<_> = tx.records().iter().map(|r| r.id.clone()).collect();
    for id in &ids {
        assert_eq!(id.len(), 36);
        for (i, c) in id.chars().enumerate() {
            if i == 8 || i == 13 || i == 18 || i == 23 {
                assert_eq!(c, '-');
            } else {
                assert!(c.is_ascii_digit() || ('a'..='f').contains(&c));
            }
        }
    }
    let unique: std::collections::HashSet<_> = ids.iter().collect();
    assert_eq!(unique.len(), 5);
    assert!(tx.staging_name().starts_with(".temp-"));
}

#[test]
fn record_round_trips_through_its_file_text() {
    let r = KnowledgeRecord {
        id: "0b5e-id".to_string(),
        title: "Ünïcödé 标题 🚀".to_string(),
        parent_doc_title: "e\u{301} combining".to_string(),
        summary: "  spaced\tand\nnewlines  ".to_string(),
        content: "\"quotes\" \\ back\r\n".to_string(),
        source_path: "C:\\path\\x.md".to_string(),
    };
    let text = encode_record(&r).unwrap();
    assert!(text.contains("\"parent_title\""));
    assert_ne!(text, r.content);
    let back = decode_record(&text).unwrap();
    assert_eq!(back.id, r.id);
    assert_eq!(back.title, r.title);
    assert_eq!(back.parent_doc_title, r.parent_doc_title);
    assert_eq!(back.summary, r.summary);
    assert_eq!(back.content, r.content);
    assert_eq!(back.source_path, r.source_path);
}

#[test]
fn unreadable_record_text_is_skipped() {
    assert!(decode_record("not json").is_none());
    assert!(decode_record("{\"id\": \"a\"}").is_none());
    assert!(decode_record("{\"id\": 1, \"title\": \"t\", \"parent_title\": \"p\", \"summary\": \"s\", \"content\": \"c\", \"source_path\": \"x\"}").is_none());
    let ok = decode_record("{\"id\": \"1\", \"title\": \"t\", \"parent_title\": \"p\", \"summary\": \"s\", \"content\": \"c\", \"source_path\": \"x\", \"extra\": 3}").unwrap();
    assert_eq!(ok.title, "t");
}

#[test]
fn retriever_projects_records() {
    let store = KnowledgeStore::new("data");
    let retriever = Retriever::new(&store);
    let r = KnowledgeRecord {
        id: "id-1".to_string(),
        title: "Alpha".to_string(),
        parent_doc_title: "Doc".to_string(),
        summary: "first".to_string(),
        content: "full body".to_string(),
        source_path: "a.md".to_string(),
    };
    let records = vec![r];
    let briefs = retriever.scout(&records, "ALPHA");
    assert_eq!(briefs.len(), 1);
    assert_eq!(briefs[0].id, "id-1");
    assert_eq!(briefs[0].parent_doc_title, "Doc");
    assert_eq!(briefs[0].summary, "first");
    let d = retriever.inspect(&records, "id-1").unwrap();
    assert_eq!(d.content, "full body");
    assert!(retriever.inspect(&records, "id-2").is_none());
}
