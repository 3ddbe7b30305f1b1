//! Dump output decisions over a described filesystem: the directories and
//! files that exist, each directory with mode 0o755 and each file 0o644.
use std::path::Path;

use lib::dump_path::{decide_dump_output_path, AncestorProbe, DumpPathFacts, PathMeta, PathProbe};

const NOT_FOUND: &str = "No such file or directory (os error 2)";

struct Fs {
    dirs: Vec<String>,
    files: Vec<String>,
    links: Vec<String>,
}

impl Fs {
    fn new(dirs: &[&str], files: &[&str]) -> Fs {
        let mut all = vec!["/".to_string(), "/tmp".to_string()];
        all.extend(dirs.iter().map(|d| d.to_string()));
        Fs { dirs: all, files: files.iter().map(|f| f.to_string()).collect(), links: vec![] }
    }

    fn with_links(mut self, links: &[&str]) -> Fs {
        self.links = links.iter().map(|l| l.to_string()).collect();
        self
    }

    fn probe(&self, p: &str) -> PathProbe {
        if self.links.iter().any(|l| l == p) {
            PathProbe::Found(PathMeta { symlink: true, dir: false, mode: 0o777 })
        } else if self.dirs.iter().any(|d| d == p) {
            PathProbe::Found(PathMeta { symlink: false, dir: true, mode: 0o755 })
        } else if self.files.iter().any(|f| f == p) {
            PathProbe::Found(PathMeta { symlink: false, dir: false, mode: 0o644 })
        } else {
            PathProbe::Missing
        }
    }

    fn present(&self, p: &str) -> bool {
        !matches!(self.probe(p), PathProbe::Missing)
    }

    fn ancestors(&self, p: &str) -> Vec<AncestorProbe> {
        let mut v: Vec<AncestorProbe> = Path::new(p)
            .ancestors()
            .filter(|a| !a.as_os_str().is_empty())
            .map(|a| {
                let s = a.to_string_lossy().to_string();
                let symlink = if self.links.iter().any(|l| *l == s) {
                    Ok(true)
                } else if self.present(&s) {
                    Ok(false)
                } else {
                    Err(NOT_FOUND.to_string())
                };
                AncestorProbe { path: s, symlink }
            })
            .collect();
        v.reverse();
        v
    }

    fn canonical(&self, p: &str) -> Result<String, String> {
        if self.present(p) {
            Ok(p.to_string())
        } else {
            Err(NOT_FOUND.to_string())
        }
    }

    fn facts(&self, out: &str, root: &str) -> DumpPathFacts {
        let parent = Path::new(out).parent().map(|p| p.to_string_lossy().to_string());
        let p = parent.clone().unwrap_or_default();
        DumpPathFacts {
            root: self.probe(root),
            root_ancestors: self.ancestors(root),
            parent,
            output: self.probe(out),
            parent_meta: self.probe(&p),
            parent_ancestors: self.ancestors(&p),
            canonical_parent: self.canonical(&p),
            canonical_root: self.canonical(root),
        }
    }
}

#[test]
fn dump_output_accepts_missing_file_under_safe_dump_root() {
    let root = "/tmp/aegishv-dump-safe-1";
    let fs = Fs::new(&[root, "/tmp/aegishv-dump-safe-1/vm-111"], &[]);
    let out = "/tmp/aegishv-dump-safe-1/vm-111/guest.dump";
    decide_dump_output_path(out, root, &fs.facts(out, root)).unwrap();
}

#[test]
fn dump_output_rejects_parent_traversal_component() {
    let root = "/tmp/aegishv-dump-parent-2";
    let fs = Fs::new(&[root], &[]);
    let out = "/tmp/aegishv-dump-parent-2/vm-111/../guest.dump";
    let err = decide_dump_output_path(out, root, &fs.facts(out, root)).unwrap_err();
    assert!(err.message().contains("must not contain .."));
}

#[test]
fn dump_output_rejects_missing_parent_directory() {
    let root = "/tmp/aegishv-dump-missing-parent-3";
    let fs = Fs::new(&[root], &[]);
    let out = "/tmp/aegishv-dump-missing-parent-3/missing/guest.dump";
    let err = decide_dump_output_path(out, root, &fs.facts(out, root)).unwrap_err();
    assert!(err.message().contains("parent does not exist"));
}

#[test]
fn dump_output_rejects_existing_file() {
    let root = "/tmp/aegishv-dump-existing-4";
    let out = "/tmp/aegishv-dump-existing-4/guest.dump";
    let fs = Fs::new(&[root], &[out]);
    let err = decide_dump_output_path(out, root, &fs.facts(out, root)).unwrap_err();
    assert!(err.message().contains("already exists"));
}

#[test]
fn dump_output_rejects_path_outside_dump_root() {
    let root = "/tmp/aegishv-dump-root-5";
    let outside = "/tmp/aegishv-dump-outside-6";
    let fs = Fs::new(&[root, outside], &[]);
    let out = "/tmp/aegishv-dump-outside-6/guest.dump";
    let err = decide_dump_output_path(out, root, &fs.facts(out, root)).unwrap_err();
    assert!(err.message().contains("must stay under dump_root"));
}

#[test]
fn dump_root_must_be_existing_directory() {
    let root = "/tmp/aegishv-dump-root-file-7";
    let root_file = "/tmp/aegishv-dump-root-file-7/not-a-directory";
    let fs = Fs::new(&[root], &[root_file]);
    let out = "/tmp/aegishv-dump-root-file-7/guest.dump";
    let err = decide_dump_output_path(out, root_file, &fs.facts(out, root_file)).unwrap_err();
    assert!(err.message().contains("dump_root must be a directory"));
}

#[test]
fn writable_or_symlinked_directories_are_refused() {
    let root = "/tmp/aegishv-dump-mode-8";
    let fs = Fs::new(&[root], &[]);
    let out = "/tmp/aegishv-dump-mode-8/guest.dump";
    let mut facts = fs.facts(out, root);
    facts.root = PathProbe::Found(PathMeta { symlink: false, dir: true, mode: 0o777 });
    let err = decide_dump_output_path(out, root, &facts).unwrap_err();
    assert_eq!(
        err.message(),
        "dump_root must not be group/world-writable: /tmp/aegishv-dump-mode-8"
    );

    let mut facts = fs.facts(out, root);
    facts.root_ancestors[1].symlink = Ok(true);
    let err = decide_dump_output_path(out, root, &facts).unwrap_err();
    assert_eq!(err.message(), "dump_root must not have a symlink ancestor: /tmp");

    let mut facts = fs.facts(out, root);
    facts.output = PathProbe::Found(PathMeta { symlink: true, dir: false, mode: 0o777 });
    let err = decide_dump_output_path(out, root, &facts).unwrap_err();
    assert_eq!(
        err.message(),
        "dump output path must not be a symlink: /tmp/aegishv-dump-mode-8/guest.dump"
    );
}

#[test]
fn dump_output_rejects_existing_symlink() {
    let dir = "/tmp/aegishv-dump-9";
    let target = "/tmp/aegishv-dump-9/real.bin";
    let link = "/tmp/aegishv-dump-9/dump.bin";
    let fs = Fs::new(&[dir], &[target]).with_links(&[link]);
    assert!(decide_dump_output_path(link, dir, &fs.facts(link, dir)).is_err());
}

#[test]
fn dump_output_rejects_symlink_parent_ancestor() {
    let dir = "/tmp/aegishv-dump-parent-link-10";
    let real_parent = "/tmp/aegishv-dump-parent-link-10/real-parent";
    let linked_parent = "/tmp/aegishv-dump-parent-link-10/linked-parent";
    let fs = Fs::new(&[dir, real_parent], &[]).with_links(&[linked_parent]);
    let out = "/tmp/aegishv-dump-parent-link-10/linked-parent/guest.dump";
    let err = decide_dump_output_path(out, dir, &fs.facts(out, dir)).unwrap_err();
    assert!(err.message().contains("symlink ancestor"));
}

#[test]
fn dump_root_rejects_symlink_root() {
    let dir = "/tmp/aegishv-dump-root-link-11";
    let real_root = "/tmp/aegishv-dump-root-link-11/real-root";
    let linked_root = "/tmp/aegishv-dump-root-link-11/linked-root";
    let fs = Fs::new(&[dir, real_root], &[]).with_links(&[linked_root]);
    let out = "/tmp/aegishv-dump-root-link-11/real-root/guest.dump";
    let err = decide_dump_output_path(out, linked_root, &fs.facts(out, linked_root)).unwrap_err();
    assert!(err.message().contains("dump_root must not be a symlink"));
}
