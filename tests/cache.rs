use gentle::cache::{
    content_hash_hex, destination_child, hashed_file_prefix_bytes, is_pointer_record,
    large_files_path, load_roots, parent_dir, plan_file, pointer_record_for, save_roots,
    source_child, CacheError, FileAction, DEDUPLICATE_LARGER_THAN, HASH_HEX_LEN,
};

fn hex_string(h: &[u8]) -> String {
    String::from_utf8(h.to_vec()).unwrap()
}

#[test]
fn prefix_is_gentle_hashed() {
    assert_eq!(hashed_file_prefix_bytes(), b"GENTLE HASHED".to_vec());
}

#[test]
fn hash_of_empty_input() {
    assert_eq!(
        hex_string(&content_hash_hex(b"")),
        "af1349b9f5f9a1a6a0404dea36dcc9499bcb25c9adc112b7cc9a93cae41f3262"
    );
}

#[test]
fn hash_differs_from_input_and_between_inputs() {
    let a = content_hash_hex(&[0u8; 1024]);
    let b = content_hash_hex(&[1u8; 1024]);
    assert_eq!(a.len(), HASH_HEX_LEN);
    assert_ne!(a, b);
    assert!(a.iter().all(|c| c.is_ascii_digit() || (b'a'..=b'f').contains(c)));
}

#[test]
fn small_file_is_copied_verbatim() {
    assert_eq!(plan_file("/cache", b"foo"), Ok(FileAction::CopyVerbatim));
}

#[test]
fn empty_file_is_copied_verbatim() {
    assert_eq!(plan_file("/cache", b""), Ok(FileAction::CopyVerbatim));
}

#[test]
fn threshold_minus_one_is_inline() {
    let c = vec![0u8; DEDUPLICATE_LARGER_THAN - 1];
    assert_eq!(plan_file("/cache", &c), Ok(FileAction::CopyVerbatim));
    assert!(!is_pointer_record(&c));
}

#[test]
fn threshold_is_deduplicated() {
    let c = vec![0u8; 1024];
    let hex = content_hash_hex(&c);
    match plan_file("/cache", &c).unwrap() {
        FileAction::Deduplicate { record, blob } => {
            assert_eq!(record.len(), 13 + 64);
            assert!(record.starts_with(b"GENTLE HASHED"));
            assert_eq!(&record[13..], &hex[..]);
            assert!(is_pointer_record(&record));
            assert_eq!(blob, format!("/cache/large_files/{}", hex_string(&hex)));
        }
        other => panic!("unexpected plan {other:?}"),
    }
}

#[test]
fn identical_large_files_share_one_blob() {
    let a = plan_file("/cache", &[0u8; 1024]).unwrap();
    let b = plan_file("/cache", &[0u8; 1024]).unwrap();
    assert_eq!(a, b);
    let (record, blob) = match &a {
        FileAction::Deduplicate { record, blob } => (record.clone(), blob.clone()),
        other => panic!("unexpected plan {other:?}"),
    };
    assert!(blob.starts_with("/cache/large_files/"));
    let total = 1024 + 2 * record.len();
    assert_eq!(total, 1024 + 2 * (13 + 64));
}

#[test]
fn different_large_files_get_different_blobs() {
    let a = plan_file("/cache", &[0u8; 2000]).unwrap();
    let b = plan_file("/cache", &[7u8; 2000]).unwrap();
    assert_ne!(a, b);
}

#[test]
fn pointer_record_resolves_to_its_blob() {
    let hex = content_hash_hex(&[0u8; 1024]);
    let record = pointer_record_for(&hex);
    assert_eq!(
        plan_file("/cache", &record),
        Ok(FileAction::Restore {
            blob: format!("/cache/large_files/{}", hex_string(&hex))
        })
    );
}

#[test]
fn uppercase_pointer_digits_name_the_lowercase_blob() {
    let mut record = b"GENTLE HASHED".to_vec();
    record.extend_from_slice(&[b'A'; 64]);
    assert_eq!(
        plan_file("/c", &record),
        Ok(FileAction::Restore {
            blob: format!("/c/large_files/{}", "a".repeat(64))
        })
    );
}

#[test]
fn pointer_record_with_bad_digits_fails() {
    let mut record = b"GENTLE HASHED".to_vec();
    record.extend_from_slice(&[b'g'; 64]);
    assert!(is_pointer_record(&record));
    assert_eq!(plan_file("/cache", &record), Err(CacheError::InvalidHash));
}

#[test]
fn near_pointer_records_are_plain_content() {
    let mut short = b"GENTLE HASHED".to_vec();
    short.extend_from_slice(&[b'g'; 63]);
    assert!(!is_pointer_record(&short));
    assert_eq!(plan_file("/cache", &short), Ok(FileAction::CopyVerbatim));
    let mut other = b"GENTLE HASHEd".to_vec();
    other.extend_from_slice(&[b'a'; 64]);
    assert!(!is_pointer_record(&other));
}

#[test]
fn save_single_file_then_load_maps_back() {
    // Saving `/src` holding `foo.txt` = "foo": the file is copied as it is,
    // under `absolute`, and loading copies `absolute` back to the root.
    let (from, to) = save_roots("/cache", "/project", "/src");
    assert_eq!(from, "/src");
    assert_eq!(to, "/cache/absolute/src");
    assert_eq!(plan_file("/cache", b"foo"), Ok(FileAction::CopyVerbatim));
    let saved = destination_child(&to, "foo.txt");
    assert_eq!(saved, "/cache/absolute/src/foo.txt");
    let roots = load_roots("/cache", "/project");
    assert_eq!(roots[0], ("/cache/absolute".to_string(), "/".to_string()));
    let back = destination_child(&destination_child(&roots[0].1, "src"), "foo.txt");
    assert_eq!(back, "/src/foo.txt");
}

#[test]
fn relative_path_roots() {
    let (from, to) = save_roots("/cache", "/project", "src");
    assert_eq!(from, "/project/src");
    assert_eq!(to, "/cache/relative/src");
    let roots = load_roots("/cache", "/project");
    assert_eq!(roots[1], ("/cache/relative".to_string(), "/project".to_string()));
}

#[test]
fn child_paths() {
    assert_eq!(source_child("/src", "foo.txt"), "/src/foo.txt");
    assert_eq!(destination_child("/", "src"), "/src");
    assert_eq!(destination_child("/a//b", "c"), "/a/b/c");
    assert_eq!(destination_child("/a/", "c"), "/a/c");
    assert_eq!(destination_child("///", "c"), "//c");
}

#[test]
fn parents() {
    assert_eq!(parent_dir("/cache/large_files"), Some("/cache".to_string()));
    assert_eq!(parent_dir("/cache"), Some(String::new()));
    assert_eq!(parent_dir("cache"), None);
    assert_eq!(large_files_path("/cache"), "/cache/large_files");
}
