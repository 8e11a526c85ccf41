use termhub::workspace::{
    compress_workspace, decompress_workspace, history_file_name, stale_history_files, MAX_HISTORY_FILES,
};

fn snapshot(i: usize) -> String {
    format!("workspaces_202401{:02}_120000.json.gz", i)
}

#[test]
fn keeps_the_newest_snapshots() {
    let mut names: Vec<String> = (1..=12).map(snapshot).collect();
    names.push("notes.txt".to_string());
    names.push("workspaces_old.json".to_string());
    names.reverse();
    let stale = stale_history_files(&names);
    assert_eq!(stale, vec![snapshot(2), snapshot(1)]);
}

#[test]
fn nothing_stale_at_or_below_the_limit() {
    let names: Vec<String> = (1..=MAX_HISTORY_FILES).map(snapshot).collect();
    assert!(stale_history_files(&names).is_empty());
    assert!(stale_history_files(&vec![]).is_empty());
}

#[test]
fn snapshot_file_name() {
    assert_eq!(history_file_name("20240101_120000"), "workspaces_20240101_120000.json.gz");
}

#[test]
fn workspace_round_trips_through_compression() {
    let data = "{\"tabs\":[\"a\",\"b\"],\"name\":\"日本\"}";
    let stored = compress_workspace(data).unwrap();
    assert_eq!(&stored[..2], &[0x1f, 0x8b]);
    assert_ne!(stored, data.as_bytes());
    assert_eq!(decompress_workspace(&stored).unwrap(), data);
}

#[test]
fn damaged_workspace_is_rejected() {
    assert!(decompress_workspace(b"not gzip at all").is_err());
}
