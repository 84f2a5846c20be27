use luminus::artifact_store::ArtifactStore;
use luminus::tool_output::{ArtifactId, BoundedOutput, Bounds, TruncationKind};

#[test]
fn a_truncated_output_offers_its_full_text_once() {
    let input = "0123456789abcdef";
    let bounded = BoundedOutput::truncate(input, Bounds { max_bytes: Some(4), max_lines: None });
    assert!(bounded.truncated);
    assert_eq!(bounded.text_to_persist(), Some(input));

    let mut store = ArtifactStore::new("/data");
    let id = store.next_artifact_id();
    let saved = bounded.clone().persisted(id.clone());
    assert_eq!(saved.artifact_id.as_ref(), Some(&id));
    assert!(saved.full_output.is_none());
    assert_eq!(saved.preview, bounded.preview);
    assert_eq!(saved.bytes_omitted, bounded.bytes_omitted);
    assert_eq!(saved.text_to_persist(), None);
}

#[test]
fn an_untruncated_output_has_nothing_to_persist() {
    let bounded = BoundedOutput::truncate("short", Bounds { max_bytes: Some(100), max_lines: Some(10) });
    assert!(!bounded.truncated);
    assert_eq!(bounded.text_to_persist(), None);
    let marked = bounded.persisted(ArtifactId::new("a1-x"));
    assert_eq!(marked.artifact_id, Some(ArtifactId::new("a1-x")));
}

/// What app/ does on disk: write the text under a fresh id, then mark the
/// output persisted. The written files are kept in `disk`.
fn persist_if_truncated(bounded: BoundedOutput, store: &mut ArtifactStore, disk: &mut Vec<(String, String)>) -> BoundedOutput {
    match bounded.text_to_persist().map(str::to_owned) {
        Some(text) => {
            let id = store.next_artifact_id();
            disk.push((store.path_for(&id), text));
            bounded.persisted(id)
        }
        None => bounded,
    }
}

fn load(store: &ArtifactStore, disk: &[(String, String)], id: &ArtifactId) -> Option<String> {
    let path = store.path_for(id);
    disk.iter().find(|(p, _)| *p == path).map(|(_, t)| t.clone())
}

#[test]
fn persist_if_truncated_writes_artifact_and_drops_full_output() {
    let mut store = ArtifactStore::new("/data");
    let mut disk = Vec::new();
    let input: String = (0..50).map(|i| format!("line-{i}\n")).collect();
    let bounded = BoundedOutput::truncate(&input, Bounds { max_bytes: Some(64), max_lines: Some(5) });
    assert!(bounded.truncated);
    assert!(bounded.full_output.is_some());
    assert!(bounded.artifact_id.is_none());
    let full = bounded.full_output.clone().unwrap();
    let bounded = persist_if_truncated(bounded, &mut store, &mut disk);
    let id = bounded.artifact_id.as_ref().expect("artifact_id set after persist");
    assert!(bounded.full_output.is_none(), "full_output must be dropped after persist");
    assert_eq!(load(&store, &disk, id).unwrap(), full);
    assert_eq!(load(&store, &disk, id).unwrap(), input);
}

#[test]
fn persist_full_alias_matches_persist_if_truncated() {
    let mut store = ArtifactStore::new("/data");
    let mut disk = Vec::new();
    let bounded = BoundedOutput::truncate("abcdefghij", Bounds { max_bytes: Some(3), max_lines: None });
    assert!(bounded.truncated);
    let bounded = persist_if_truncated(bounded, &mut store, &mut disk);
    assert!(bounded.artifact_id.is_some());
    assert!(bounded.full_output.is_none());
    assert_eq!(load(&store, &disk, bounded.artifact_id.as_ref().unwrap()).unwrap(), "abcdefghij");
}

#[test]
fn persist_if_truncated_is_noop_when_not_truncated() {
    let mut store = ArtifactStore::new("/data");
    let mut disk = Vec::new();
    let bounded = BoundedOutput::truncate("tiny", Bounds::default());
    assert!(!bounded.truncated);
    let bounded = persist_if_truncated(bounded, &mut store, &mut disk);
    assert!(bounded.artifact_id.is_none());
    assert!(bounded.full_output.is_none());
    assert!(disk.is_empty());
}

#[test]
fn persist_if_truncated_is_idempotent_when_already_persisted() {
    let mut store = ArtifactStore::new("/data");
    let mut disk = Vec::new();
    let bounded = BoundedOutput::truncate("0123456789abcdef", Bounds { max_bytes: Some(4), max_lines: None });
    let mut bounded = persist_if_truncated(bounded, &mut store, &mut disk);
    let first_id = bounded.artifact_id.clone().unwrap();
    bounded.full_output = Some("should-not-be-written".into());
    let bounded = persist_if_truncated(bounded, &mut store, &mut disk);
    assert_eq!(bounded.artifact_id.as_ref(), Some(&first_id));
    assert_eq!(load(&store, &disk, &first_id).unwrap(), "0123456789abcdef");
    assert_eq!(disk.len(), 1);
}

#[test]
fn truncated_metadata_survives_persist() {
    let mut store = ArtifactStore::new("/data");
    let mut disk = Vec::new();
    let input = "aaaa\nbbbb\ncccc\ndddd";
    let bounded = BoundedOutput::truncate(input, Bounds { max_bytes: Some(6), max_lines: Some(2) });
    assert_eq!(bounded.truncation, TruncationKind::Both);
    let preview = bounded.preview.clone();
    let total_bytes = bounded.total_bytes;
    let total_lines = bounded.total_lines;
    let bytes_omitted = bounded.bytes_omitted;
    let lines_omitted = bounded.lines_omitted;
    let bounded = persist_if_truncated(bounded, &mut store, &mut disk);
    assert_eq!(bounded.preview, preview);
    assert_eq!(bounded.total_bytes, total_bytes);
    assert_eq!(bounded.total_lines, total_lines);
    assert_eq!(bounded.bytes_omitted, bytes_omitted);
    assert_eq!(bounded.lines_omitted, lines_omitted);
    assert!(bounded.truncated);
    assert!(bounded.artifact_id.is_some());
    assert!(bounded.full_output.is_none());
}

#[test]
fn artifact_store_uses_data_root_artifacts_layout() {
    let mut store = ArtifactStore::new("/data");
    let id = store.next_artifact_id();
    assert_eq!(store.artifacts_dir(), "/data/artifacts");
    assert!(store.path_for(&id).starts_with("/data/artifacts/"));
    assert!(store.path_for(&id).ends_with(".txt"));
}

#[test]
fn artifact_store_ids_are_unique() {
    let mut store = ArtifactStore::new("/data");
    let a = store.next_artifact_id();
    let b = store.next_artifact_id();
    assert_ne!(a, b);
    assert_ne!(store.path_for(&a), store.path_for(&b));
}
