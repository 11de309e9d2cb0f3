use std::collections::{BTreeMap, BTreeSet};

use gentle::cache::{load_roots, save_roots, CacheError};
use gentle::tree_copy::{CopyAction, CopyEvent, TreeCopy};

/// A file tree held in memory.
#[derive(Clone, Debug, PartialEq, Default)]
struct World {
    dirs: BTreeSet<String>,
    files: BTreeMap<String, Vec<u8>>,
}

impl World {
    fn new() -> World {
        let mut w = World::default();
        w.dirs.insert("/".to_string());
        w
    }

    fn mkdir(&mut self, dir: &str) {
        let mut cur = String::new();
        for part in dir.split('/').filter(|p| !p.is_empty()) {
            cur.push('/');
            cur.push_str(part);
            self.dirs.insert(cur.clone());
        }
    }

    fn write(&mut self, path: &str, bytes: &[u8]) {
        let (parent, _) = path.rsplit_once('/').expect("an absolute path");
        let parent = if parent.is_empty() { "/" } else { parent };
        assert!(self.dirs.contains(parent), "no directory {parent} for {path}");
        self.files.insert(path.to_string(), bytes.to_vec());
    }

    fn entries(&self, dir: &str) -> Vec<String> {
        let prefix = if dir.ends_with('/') {
            dir.to_string()
        } else {
            format!("{dir}/")
        };
        let mut names: Vec<String> = self
            .dirs
            .iter()
            .chain(self.files.keys())
            .filter_map(|p| p.strip_prefix(&prefix))
            .filter(|rest| !rest.is_empty() && !rest.contains('/'))
            .map(String::from)
            .collect();
        names.sort();
        names.dedup();
        names
    }

    fn copy(&mut self, cache: &str, from: &str, to: &str) -> Result<Vec<String>, CacheError> {
        let mut log = Vec::new();
        let (mut walk, mut action) = TreeCopy::start(cache, from, to);
        loop {
            let event = match action {
                CopyAction::Inspect(p) => {
                    if let Some(c) = self.files.get(&p) {
                        CopyEvent::File(c.clone())
                    } else if self.dirs.contains(&p) {
                        CopyEvent::Directory(self.entries(&p))
                    } else {
                        CopyEvent::Absent
                    }
                }
                CopyAction::MakeDirAll(d) => {
                    log.push(format!("mkdir {d}"));
                    self.mkdir(&d);
                    CopyEvent::Done
                }
                CopyAction::WriteFile(p, b) => {
                    log.push(format!("write {p}"));
                    self.write(&p, &b);
                    CopyEvent::Done
                }
                CopyAction::Probe(p) => CopyEvent::Present(self.files.contains_key(&p)),
                CopyAction::CopyFile(s, d) => {
                    log.push(format!("copy {s} {d}"));
                    let c = self.files.get(&s).expect("copy from a missing file").clone();
                    self.write(&d, &c);
                    CopyEvent::Done
                }
                CopyAction::Fail(e) => return Err(e),
                CopyAction::Finished => return Ok(log),
            };
            action = walk.step(event);
        }
    }

    fn save(&mut self, cache: &str, pwd: &str, path: &str) -> Result<Vec<String>, CacheError> {
        let (from, to) = save_roots(cache, pwd, path);
        self.copy(cache, &from, &to)
    }

    fn load(&mut self, cache: &str, pwd: &str) -> Result<(), CacheError> {
        for (from, to) in load_roots(cache, pwd) {
            self.copy(cache, &from, &to)?;
        }
        Ok(())
    }

    fn bytes_under(&self, dir: &str) -> usize {
        self.files
            .iter()
            .filter(|(p, _)| p.starts_with(&format!("{dir}/")))
            .map(|(_, c)| c.len())
            .sum()
    }

    fn files_under(&self, dir: &str) -> usize {
        self.files
            .keys()
            .filter(|p| p.starts_with(&format!("{dir}/")))
            .count()
    }
}

#[test]
fn save_load_single_file() {
    let mut w = World::new();
    w.mkdir("/src");
    w.write("/src/foo.txt", b"foo");
    w.save("/cache", "/project", "/src").unwrap();
    w.files.remove("/src/foo.txt");
    w.load("/cache", "/project").unwrap();
    assert_eq!(w.files["/src/foo.txt"], b"foo".to_vec());
}

#[test]
fn subdirectory() {
    let mut w = World::new();
    w.mkdir("/src/subdir");
    w.write("/src/subdir/foo.txt", b"foo");
    w.save("/cache", "/project", "/src").unwrap();
    w.files.remove("/src/subdir/foo.txt");
    w.dirs.remove("/src/subdir");
    w.load("/cache", "/project").unwrap();
    assert_eq!(w.files["/src/subdir/foo.txt"], b"foo".to_vec());
}

#[test]
fn relative_path() {
    let mut w = World::new();
    w.mkdir("/project/src");
    w.write("/project/src/foo.txt", b"foo");
    w.save("/cache", "/project", "src").unwrap();
    w.files.remove("/project/src/foo.txt");
    w.dirs.remove("/project/src");
    w.load("/cache", "/project").unwrap();
    assert_eq!(w.files["/project/src/foo.txt"], b"foo".to_vec());
}

#[test]
fn large_duplicate_files_are_only_stored_once() {
    let mut w = World::new();
    w.mkdir("/src");
    w.write("/src/foo0.txt", &[0; 1024]);
    w.write("/src/foo1.txt", &[0; 1024]);
    w.save("/cache", "/project", "/src").unwrap();
    w.files.remove("/src/foo0.txt");
    w.files.remove("/src/foo1.txt");
    assert_eq!(w.bytes_under("/cache"), 1024 + (64 + 13) * 2);
    assert_eq!(w.files_under("/cache/large_files"), 1);
}

#[test]
fn recovers_large_files() {
    let mut w = World::new();
    w.mkdir("/src");
    w.write("/src/foo0.txt", &[0; 1024]);
    w.write("/src/foo1.txt", &[0; 1024]);
    w.save("/cache", "/project", "/src").unwrap();
    w.files.remove("/src/foo0.txt");
    w.files.remove("/src/foo1.txt");
    w.load("/cache", "/project").unwrap();
    assert_eq!(w.files["/src/foo0.txt"], vec![0; 1024]);
    assert_eq!(w.files["/src/foo1.txt"], vec![0; 1024]);
}

#[test]
fn threshold_boundary_in_the_tree() {
    let mut w = World::new();
    w.mkdir("/src");
    w.write("/src/small.bin", &[1; 1023]);
    w.write("/src/big.bin", &[1; 1024]);
    w.save("/cache", "/project", "/src").unwrap();
    assert_eq!(w.files["/cache/absolute/src/small.bin"], vec![1; 1023]);
    let record = &w.files["/cache/absolute/src/big.bin"];
    assert_eq!(record.len(), 13 + 64);
    assert!(record.starts_with(b"GENTLE HASHED"));
    assert_eq!(w.files_under("/cache/large_files"), 1);
}

#[test]
fn saving_twice_keeps_one_untouched_blob() {
    let mut w = World::new();
    w.mkdir("/src");
    w.write("/src/big.bin", &[3; 2048]);
    w.save("/cache", "/project", "/src").unwrap();
    let before = w.clone();
    let log = w.save("/cache", "/project", "/src").unwrap();
    assert_eq!(w, before);
    assert!(log.iter().all(|l| !l.contains("/large_files/") || !l.starts_with("copy")));
    assert_eq!(w.files_under("/cache/large_files"), 1);
}

#[test]
fn saving_a_missing_path_creates_nothing() {
    let mut w = World::new();
    let before = w.clone();
    let log = w.save("/cache", "/project", "/nowhere").unwrap();
    assert!(log.is_empty());
    assert_eq!(w, before);
}

#[test]
fn loading_a_missing_cache_creates_nothing() {
    let mut w = World::new();
    w.mkdir("/project");
    let before = w.clone();
    w.load("/cache", "/project").unwrap();
    assert_eq!(w, before);
}

#[test]
fn bad_pointer_record_fails_the_load() {
    let mut w = World::new();
    w.mkdir("/cache/absolute/src");
    let mut record = b"GENTLE HASHED".to_vec();
    record.extend_from_slice(&[b'z'; 64]);
    w.write("/cache/absolute/src/f", &record);
    assert_eq!(w.load("/cache", "/project"), Err(CacheError::InvalidHash));
}

#[test]
fn entries_are_copied_in_order() {
    let mut w = World::new();
    w.mkdir("/src");
    w.write("/src/a", b"1");
    w.write("/src/b", b"2");
    let log = w.save("/cache", "/project", "/src").unwrap();
    assert_eq!(
        log,
        vec![
            "mkdir /cache/absolute/src",
            "copy /src/a /cache/absolute/src/a",
            "copy /src/b /cache/absolute/src/b",
        ]
    );
}

#[test]
fn saving_a_lone_file_makes_its_directory() {
    let mut w = World::new();
    w.mkdir("/src");
    w.write("/src/foo.txt", b"foo");
    let log = w.save("/cache", "/project", "/src/foo.txt").unwrap();
    assert_eq!(
        log,
        vec![
            "mkdir /cache/absolute/src",
            "copy /src/foo.txt /cache/absolute/src/foo.txt",
        ]
    );
    w.files.remove("/src/foo.txt");
    w.load("/cache", "/project").unwrap();
    assert_eq!(w.files["/src/foo.txt"], b"foo".to_vec());
}

#[test]
fn saving_a_lone_large_file_makes_its_directory_first() {
    let mut w = World::new();
    w.mkdir("/src");
    w.write("/src/big.bin", &[9; 1500]);
    let log = w.save("/cache", "/project", "/src/big.bin").unwrap();
    assert_eq!(log[0], "mkdir /cache/absolute/src");
    assert_eq!(log[1], "write /cache/absolute/src/big.bin");
    assert_eq!(log[2], "mkdir /cache/large_files");
    assert_eq!(w.files_under("/cache/large_files"), 1);
}
