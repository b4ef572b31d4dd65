use std::cell::Cell;
use std::io::Write;
use std::path::Path;

use virtual_fs::{FileSystem, OverlayFileSystem, TmpFileSystem};
use wasi_fs_setup::ensure::create_dir_all;
use wasi_fs_setup::fallback::{execute, retry_pair};
use wasi_fs_setup::mapping::{MappedCommand, MappedDirectory, SetupError};
use wasi_fs_setup::path::{apply_relative_path_mounting_hack, is_absolute_path, parent_of};
use wasi_fs_setup::plan::{build_directory_mappings, mount_step, MountStep};

fn host_fs(rt: &tokio::runtime::Runtime) -> virtual_fs::host_fs::FileSystem {
    virtual_fs::host_fs::FileSystem::new(rt.handle().clone(), "/").unwrap()
}

fn canonical(p: &Path) -> String {
    virtual_fs::host_fs::canonicalize(p)
        .unwrap()
        .to_str()
        .unwrap()
        .to_string()
}

fn host_dir(parent: &Path, name: &str) -> tempfile::TempDir {
    tempfile::Builder::new()
        .prefix(name)
        .rand_bytes(0)
        .tempdir_in(parent)
        .unwrap()
}

fn host_file(dir: &Path, name: &str, contents: &[u8]) {
    let mut file = tempfile::Builder::new()
        .prefix(name)
        .rand_bytes(0)
        .tempfile_in(dir)
        .unwrap();
    file.write_all(contents).unwrap();
    file.keep().unwrap();
}

fn touch(fs: &dyn FileSystem, path: &str) {
    fs.new_open_options()
        .write(true)
        .create(true)
        .open(Path::new(path))
        .unwrap();
}

fn mapping(host: &str, guest: &str) -> MappedDirectory {
    MappedDirectory {
        host: host.to_string(),
        guest: guest.to_string(),
    }
}

#[test]
fn python_use_case() {
    let rt = tokio::runtime::Runtime::new().unwrap();
    let temp = tempfile::TempDir::new().unwrap();
    let path = host_dir(temp.path(), "path");
    let to = host_dir(path.path(), "to");
    let sub_dir = to.path().to_path_buf();
    host_file(&sub_dir, "file.txt", b"Hello, World!");
    let mapping = [mapping(&canonical(&sub_dir), "/home")];

    let package = TmpFileSystem::new();
    for dir in [
        "/lib",
        "/lib/python3.6",
        "/lib/python3.6/collections",
        "/lib/python3.6/encodings",
    ] {
        package.create_dir(Path::new(dir)).unwrap();
    }
    touch(&package, "/lib/python3.6/collections/__init__.py");
    touch(&package, "/lib/python3.6/encodings/__init__.py");

    let root_fs = virtual_fs::RootFileSystemBuilder::default().build();
    let plan = build_directory_mappings(&root_fs, &host_fs(&rt), &mapping).unwrap();
    assert_eq!(plan.preopens, vec!["/home".to_string()]);
    let fs = OverlayFileSystem::new(root_fs, [package]);
    let metadata = |p: &str| execute(p, &|q: &str| fs.metadata(Path::new(q)));

    assert!(metadata("/home/file.txt").unwrap().is_file());
    assert!(metadata("lib").unwrap().is_dir());
    assert!(metadata("lib/python3.6/collections/__init__.py")
        .unwrap()
        .is_file());
    assert!(metadata("lib/python3.6/encodings/__init__.py")
        .unwrap()
        .is_file());
}

#[test]
fn overlay_falls_through_to_package_with_relative_path() {
    let rt = tokio::runtime::Runtime::new().unwrap();
    let temp = tempfile::TempDir::new().unwrap();
    let path = host_dir(temp.path(), "path");
    let to = host_dir(path.path(), "to");
    let sub_dir = to.path().to_path_buf();
    host_file(&sub_dir, "file.txt", b"Hello, World!");

    let package = TmpFileSystem::new();
    package.create_dir(Path::new("/lib")).unwrap();
    package.create_dir(Path::new("/lib/pkg")).unwrap();
    touch(&package, "/lib/pkg/module.py");

    let root_fs = TmpFileSystem::new();
    let mapping = [mapping(&canonical(&sub_dir), "/home")];
    build_directory_mappings(&root_fs, &host_fs(&rt), &mapping).unwrap();
    let fs = OverlayFileSystem::new(root_fs, [package]);

    // the relative form alone is refused by both layers
    assert!(fs.metadata(Path::new("lib/pkg/module.py")).is_err());
    let found = execute("lib/pkg/module.py", &|q: &str| fs.metadata(Path::new(q)));
    assert!(found.unwrap().is_file());
    let home = execute("/home/file.txt", &|q: &str| fs.metadata(Path::new(q)));
    assert!(home.unwrap().is_file());
}

#[test]
fn root_mapping_merges_entries_without_preopen() {
    let rt = tokio::runtime::Runtime::new().unwrap();
    let temp = tempfile::TempDir::new().unwrap();
    host_file(temp.path(), "a.txt", b"a");
    let _sub = host_dir(temp.path(), "sub");
    let root_fs = TmpFileSystem::new();
    let mapping = [mapping(&canonical(temp.path()), "/")];

    let plan = build_directory_mappings(&root_fs, &host_fs(&rt), &mapping).unwrap();

    assert!(plan.preopens.is_empty());
    assert!(plan.root_claimed);
    assert!(matches!(plan.steps[..], [MountStep::MergeIntoRoot]));
    assert!(!plan.maps_current_dir());
    assert_eq!(plan.all_preopens(), vec!["/".to_string()]);
    assert!(root_fs.metadata(Path::new("/a.txt")).unwrap().is_file());
    assert!(root_fs.metadata(Path::new("/sub")).is_ok());
}

#[test]
fn current_dir_mapping_claims_root() {
    let rt = tokio::runtime::Runtime::new().unwrap();
    let temp = tempfile::TempDir::new().unwrap();
    host_file(temp.path(), "b.txt", b"b");
    let root_fs = TmpFileSystem::new();
    let mapping = [mapping(&canonical(temp.path()), ".")];

    let plan = build_directory_mappings(&root_fs, &host_fs(&rt), &mapping).unwrap();

    assert!(plan.preopens.is_empty());
    assert!(!plan.maps_current_dir());
    assert!(root_fs.metadata(Path::new("/b.txt")).unwrap().is_file());
}

#[test]
fn relative_guest_is_mounted_under_root() {
    let rt = tokio::runtime::Runtime::new().unwrap();
    let temp = tempfile::TempDir::new().unwrap();
    host_file(temp.path(), "c.txt", b"c");
    let host = canonical(temp.path());

    let relative_fs = TmpFileSystem::new();
    let relative = build_directory_mappings(&relative_fs, &host_fs(&rt), &[mapping(&host, "data/x")])
        .unwrap();
    let absolute_fs = TmpFileSystem::new();
    let absolute = build_directory_mappings(&absolute_fs, &host_fs(&rt), &[mapping(&host, "/data/x")])
        .unwrap();

    assert_eq!(relative.preopens, vec!["/data/x".to_string()]);
    assert_eq!(relative.preopens, absolute.preopens);
    assert!(relative.maps_current_dir());
    assert!(relative_fs.metadata(Path::new("/data")).unwrap().is_dir());
    assert!(relative_fs.metadata(Path::new("/data/x/c.txt")).unwrap().is_file());
}

#[test]
fn remapping_relative_paths() {
    assert_eq!(apply_relative_path_mounting_hack("home"), "/home");
    assert_eq!(apply_relative_path_mounting_hack("a/b"), "/a/b");
    assert_eq!(apply_relative_path_mounting_hack("."), "/");
    assert_eq!(apply_relative_path_mounting_hack(""), "/");
    assert_eq!(apply_relative_path_mounting_hack(".."), "/..");
    assert_eq!(apply_relative_path_mounting_hack("/abs/p"), "/abs/p");
    assert_eq!(apply_relative_path_mounting_hack("/"), "/");
}

#[test]
fn absolute_and_parent_paths() {
    assert!(is_absolute_path("/x"));
    assert!(!is_absolute_path("x"));
    assert!(!is_absolute_path(""));
    assert_eq!(parent_of("/a/b/c"), Some("/a/b".to_string()));
    assert_eq!(parent_of("/a"), Some("/".to_string()));
    assert_eq!(parent_of("/"), None);
}

#[test]
fn preopens_list_each_mount_once_and_root_once() {
    let rt = tokio::runtime::Runtime::new().unwrap();
    let one = tempfile::TempDir::new().unwrap();
    let two = tempfile::TempDir::new().unwrap();
    let three = tempfile::TempDir::new().unwrap();
    let root_fs = TmpFileSystem::new();
    let mappings = [
        mapping(&canonical(one.path()), "/a"),
        mapping(&canonical(two.path()), "b"),
        mapping(&canonical(three.path()), "/"),
        mapping(&canonical(three.path()), "/./"),
    ];

    let plan = build_directory_mappings(&root_fs, &host_fs(&rt), &mappings).unwrap();

    assert_eq!(
        plan.all_preopens(),
        vec!["/a".to_string(), "/b".to_string(), "/".to_string()]
    );
}

#[test]
fn ensuring_directories_twice_succeeds() {
    let fs = TmpFileSystem::new();
    assert_eq!(
        create_dir_all(&fs, "/a/b/c").unwrap(),
        vec!["/a".to_string(), "/a/b".to_string(), "/a/b/c".to_string()]
    );
    assert!(fs.metadata(Path::new("/a")).unwrap().is_dir());
    assert!(fs.metadata(Path::new("/a/b")).unwrap().is_dir());
    assert!(fs.metadata(Path::new("/a/b/c")).unwrap().is_dir());
    assert_eq!(create_dir_all(&fs, "/a/b/c").unwrap(), Vec::<String>::new());
    assert_eq!(
        create_dir_all(&fs, "/a/b/d").unwrap(),
        vec!["/a/b/d".to_string()]
    );
    let entries = fs.read_dir(Path::new("/a/b")).unwrap().count();
    assert_eq!(entries, 2);
}

#[test]
fn nested_mount_creates_ancestors() {
    let rt = tokio::runtime::Runtime::new().unwrap();
    let temp = tempfile::TempDir::new().unwrap();
    host_file(temp.path(), "d.txt", b"d");
    let root_fs = TmpFileSystem::new();
    let mapping = [mapping(&canonical(temp.path()), "/deep/er/mount")];

    let plan = build_directory_mappings(&root_fs, &host_fs(&rt), &mapping).unwrap();

    assert_eq!(plan.preopens, vec!["/deep/er/mount".to_string()]);
    assert!(root_fs.metadata(Path::new("/deep/er")).unwrap().is_dir());
    assert!(root_fs
        .metadata(Path::new("/deep/er/mount/d.txt"))
        .unwrap()
        .is_file());
}

#[test]
fn malformed_guest_path_is_reported() {
    let rt = tokio::runtime::Runtime::new().unwrap();
    let temp = tempfile::TempDir::new().unwrap();
    let root_fs = TmpFileSystem::new();
    let mapping = [mapping(&canonical(temp.path()), "/..")];

    match build_directory_mappings(&root_fs, &host_fs(&rt), &mapping) {
        Err(SetupError::PathResolution { path }) => assert_eq!(path, "/.."),
        _ => panic!("expected a path resolution error"),
    }
}

#[test]
fn mount_over_existing_directory_is_reported() {
    let rt = tokio::runtime::Runtime::new().unwrap();
    let temp = tempfile::TempDir::new().unwrap();
    let host = canonical(temp.path());
    let root_fs = TmpFileSystem::new();
    root_fs.create_dir(Path::new("/taken")).unwrap();
    let mapping = [mapping(&host, "taken")];

    match build_directory_mappings(&root_fs, &host_fs(&rt), &mapping) {
        Err(SetupError::Mount { host: h, guest }) => {
            assert_eq!(h, host);
            assert_eq!(guest, "/taken");
        }
        _ => panic!("expected a mount error"),
    }
}

#[test]
fn blocked_ancestor_is_reported() {
    let fs = TmpFileSystem::new();
    touch(&fs, "/file");
    match create_dir_all(&fs, "/file/inner/dir") {
        Err(SetupError::DirectoryCreation { path }) => assert_eq!(path, "/file/inner"),
        _ => panic!("expected a directory creation error"),
    }
}

#[test]
fn fallback_retries_relative_path_from_root() {
    let calls = Cell::new(0u32);
    let op = |p: &str| -> Result<usize, String> {
        calls.set(calls.get() + 1);
        if p.starts_with('/') {
            Ok(p.len())
        } else {
            Err(p.to_string())
        }
    };
    assert_eq!(execute("ab", &op), Ok(3));
    assert_eq!(calls.get(), 2);
}

#[test]
fn fallback_keeps_first_success() {
    let calls = Cell::new(0u32);
    let op = |p: &str| -> Result<String, ()> {
        calls.set(calls.get() + 1);
        Ok(p.to_string())
    };
    assert_eq!(execute("rel", &op), Ok("rel".to_string()));
    assert_eq!(calls.get(), 1);
}

#[test]
fn fallback_does_not_retry_absolute_path() {
    let calls = Cell::new(0u32);
    let op = |p: &str| -> Result<(), String> {
        calls.set(calls.get() + 1);
        Err(p.to_string())
    };
    assert_eq!(execute("/abs", &op), Err("/abs".to_string()));
    assert_eq!(calls.get(), 1);
    assert_eq!(execute("rel", &op), Err("/rel".to_string()));
    assert_eq!(calls.get(), 3);
}

#[test]
fn rename_retry_pair() {
    assert_eq!(retry_pair("/a", "/b"), None);
    assert_eq!(
        retry_pair("a", "/b"),
        Some(("/a".to_string(), "/b".to_string()))
    );
    assert_eq!(
        retry_pair("a", "b/c"),
        Some(("/a".to_string(), "/b/c".to_string()))
    );
}

#[test]
fn mapped_command_holds_alias_and_target() {
    let cmd = MappedCommand {
        alias: "py".to_string(),
        target: "python".to_string(),
    };
    let copy = cmd.clone();
    assert_eq!(copy.alias, "py");
    assert_eq!(copy.target, "python");
}

#[test]
fn step_for_each_target() {
    assert!(matches!(mount_step("/"), MountStep::MergeIntoRoot));
    match mount_step("/a/b") {
        MountStep::Mount { parent, target } => {
            assert_eq!(parent, "/a");
            assert_eq!(target, "/a/b");
        }
        MountStep::MergeIntoRoot => panic!("expected a mount"),
    }
    match mount_step("/home") {
        MountStep::Mount { parent, target } => {
            assert_eq!(parent, "/");
            assert_eq!(target, "/home");
        }
        MountStep::MergeIntoRoot => panic!("expected a mount"),
    }
}

#[test]
fn no_mappings_plan_nothing() {
    let rt = tokio::runtime::Runtime::new().unwrap();
    let root_fs = TmpFileSystem::new();
    let plan = build_directory_mappings(&root_fs, &host_fs(&rt), &[]).unwrap();
    assert!(plan.preopens.is_empty());
    assert!(plan.steps.is_empty());
    assert!(!plan.root_claimed);
    assert!(plan.maps_current_dir());
    assert_eq!(plan.all_preopens(), vec!["/".to_string()]);
}

#[test]
fn guest_path_is_canonicalized_before_mounting() {
    let rt = tokio::runtime::Runtime::new().unwrap();
    let temp = tempfile::TempDir::new().unwrap();
    let root_fs = TmpFileSystem::new();
    let mapping = [mapping(&canonical(temp.path()), "/x/./y/../z/")];

    let plan = build_directory_mappings(&root_fs, &host_fs(&rt), &mapping).unwrap();

    assert_eq!(plan.preopens, vec!["/x/z".to_string()]);
    match &plan.steps[..] {
        [MountStep::Mount { parent, target }] => {
            assert_eq!(parent, "/x");
            assert_eq!(target, "/x/z");
        }
        _ => panic!("expected one mount"),
    }
}
