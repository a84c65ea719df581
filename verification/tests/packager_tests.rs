use sindri::packager::{archive_file_names, compress_directory, FileEntry, PackageError};

fn entry(path: &str, data: &[u8]) -> FileEntry {
    FileEntry { path: path.to_string(), data: data.to_vec() }
}

fn base_project() -> Vec<FileEntry> {
    vec![
        entry("sindri.json", b"{\"name\": \"test-circuit\", \"circuitType\": \"circom\"}"),
        entry("some_artifact.circom", b"test content"),
    ]
}

fn archive_names(packed: &Vec<u8>) -> Vec<String> {
    archive_file_names(packed).unwrap()
}

#[test]
fn test_successful_compression() {
    let result = compress_directory(&"project".to_string(), &base_project(), None);
    assert!(result.is_ok());

    let compressed_data = result.unwrap();
    assert!(!compressed_data.is_empty());
}

#[test]
fn test_missing_manifest() {
    let entries = vec![entry("some_artifact.circom", b"test content")];
    let result = compress_directory(&"project".to_string(), &entries, None);
    assert!(result.is_err());
    let err = result.unwrap_err();
    assert!(matches!(err, PackageError::MissingManifest));
    assert!(err.message().contains("not found"));
}

#[test]
fn test_invalid_json_manifest() {
    let entries = vec![
        entry("sindri.json", b"nonjson"),
        entry("some_artifact.circom", b"test content"),
    ];
    let result = compress_directory(&"project".to_string(), &entries, None);
    assert!(result.is_err());
    let err = result.unwrap_err();
    assert!(matches!(err, PackageError::InvalidManifest(_)));
    assert!(err.message().contains("Invalid JSON"));
}

#[test]
fn test_sindriignore_respected() {
    let mut entries = base_project();
    entries.push(entry(".sindriignore", b"ignored.txt"));
    entries.push(entry("ignored.txt", b"should be ignored"));

    let circuit = compress_directory(&"project".to_string(), &entries, None);
    assert!(circuit.is_ok());

    let file_names = archive_names(&circuit.unwrap());
    assert!(!file_names.contains(&"project/ignored.txt".to_string()));
    assert!(!file_names.iter().any(|n| n.contains("ignored.txt")));
    assert!(file_names.contains(&"project/some_artifact.circom".to_string()));
}

#[test]
fn test_hidden_files_ignored() {
    let mut entries = base_project();
    entries.push(entry(".hidden", b"hidden content"));

    let circuit = compress_directory(&"project".to_string(), &entries, None);
    assert!(circuit.is_ok());

    let file_names = archive_names(&circuit.unwrap());
    assert!(!file_names.iter().any(|n| n.contains(".hidden")));
}

#[test]
fn test_gitignore_respected() {
    let mut entries = base_project();
    entries.push(entry(".gitignore", b"target/\n*.log\n!keep.log"));
    entries.push(entry("target/debug/binary", b"compiled"));
    entries.push(entry("run.log", b"log text"));
    entries.push(entry("keep.log", b"kept log"));

    let circuit = compress_directory(&"project".to_string(), &entries, None);
    let file_names = archive_names(&circuit.unwrap());
    assert!(!file_names.iter().any(|n| n.contains("target")));
    assert!(!file_names.contains(&"project/run.log".to_string()));
    assert!(file_names.contains(&"project/keep.log".to_string()));
    assert!(file_names.contains(&"project/sindri.json".to_string()));
}

#[test]
fn test_max_project_size_exceeded() {
    let mut entries = base_project();
    let content: Vec<u8> = (0..1000u32).map(|i| (i % 251) as u8).collect();
    entries.push(entry("large_file.txt", &content));

    let result = compress_directory(&"project".to_string(), &entries, Some(100));
    assert!(result.is_err());
    let err = result.unwrap_err();
    assert!(matches!(err, PackageError::TooLarge { limit: 100, .. }));
    assert!(err.message().contains("exceeds"));
}

#[test]
fn test_archive_round_trip_names() {
    let entries = vec![
        entry("sindri.json", b"{}"),
        entry("src/main.rs", b"fn main() {}"),
        entry("data/input.bin", &[0u8, 1, 2, 3]),
    ];
    let packed = compress_directory(&"proj".to_string(), &entries, None).unwrap();
    let names = archive_names(&packed);
    assert_eq!(
        names,
        vec![
            "proj/sindri.json".to_string(),
            "proj/src/main.rs".to_string(),
            "proj/data/input.bin".to_string(),
        ]
    );
}

#[test]
fn test_unstorable_paths_refused() {
    let bad_dir = compress_directory(&"".to_string(), &base_project(), None);
    assert!(matches!(bad_dir, Err(PackageError::UnstorablePath(_))));

    let mut entries = base_project();
    entries.push(entry("a//b.txt", b"odd path"));
    let result = compress_directory(&"project".to_string(), &entries, None);
    let err = result.unwrap_err();
    assert!(matches!(err, PackageError::UnstorablePath(_)));
    assert!(err.message().contains("cannot store"));
}

#[test]
fn test_empty_listing_has_no_manifest() {
    let entries: Vec<FileEntry> = Vec::new();
    let result = compress_directory(&"project".to_string(), &entries, None);
    assert!(matches!(result, Err(PackageError::MissingManifest)));
}

#[test]
fn test_first_manifest_entry_governs() {
    // With two entries of the same name, the first one is the manifest
    // that gets validated, exactly as a directory read would see it.
    let entries = vec![
        entry("sindri.json", b"nonjson"),
        entry("sindri.json", b"{}"),
    ];
    let result = compress_directory(&"project".to_string(), &entries, None);
    assert!(matches!(result, Err(PackageError::InvalidManifest(_))));

    let entries = vec![
        entry("sindri.json", b"{}"),
        entry("sindri.json", b"nonjson"),
    ];
    let result = compress_directory(&"project".to_string(), &entries, None);
    assert!(result.is_ok());
}

#[test]
fn test_nested_ignore_files() {
    let mut entries = base_project();
    entries.push(entry("sub/.gitignore", b"*.tmp"));
    entries.push(entry("sub/scratch.tmp", b"scratch"));
    entries.push(entry("root.tmp", b"kept at root"));

    let packed = compress_directory(&"project".to_string(), &entries, None).unwrap();
    let names = archive_names(&packed);
    assert!(!names.iter().any(|n| n.contains("scratch.tmp")));
    assert!(names.contains(&"project/root.tmp".to_string()));
}

#[test]
fn test_nested_negation_overrides_parent() {
    let mut entries = base_project();
    entries.push(entry(".gitignore", b"*.log"));
    entries.push(entry("sub/.gitignore", b"!keep.log"));
    entries.push(entry("sub/keep.log", b"kept"));
    entries.push(entry("sub/trace.log", b"dropped"));
    entries.push(entry("root.log", b"dropped"));

    let packed = compress_directory(&"project".to_string(), &entries, None).unwrap();
    let names = archive_names(&packed);
    assert!(names.contains(&"project/sub/keep.log".to_string()));
    assert!(!names.iter().any(|n| n.contains("trace.log")));
    assert!(!names.iter().any(|n| n.contains("root.log")));
}

#[test]
fn test_nul_in_path_refused() {
    let mut entries = base_project();
    entries.push(entry("bad\0name.txt", b"data"));
    let result = compress_directory(&"project".to_string(), &entries, None);
    let err = result.unwrap_err();
    assert!(matches!(err, PackageError::UnstorablePath(_)));
}
