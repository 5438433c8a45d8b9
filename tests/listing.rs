use std::rc::Rc;
use xcmd::api::{Error, File, Icon, Value};
use xcmd::backend::{get_filename, list_plan, DirEntry, DirScan, LocalSystem, Metadata, SftpSystem};
use xcmd::pane::{default_field_names, get_path};
use xcmd::paths::{extension, file_name, file_stem, parent, trim_long_path_prefix};

fn schema() -> Rc<Vec<String>> {
    Rc::new(default_field_names())
}

fn dir(size: u64) -> Option<Metadata> {
    Some(Metadata { size, is_dir: true })
}

fn file(size: u64) -> Option<Metadata> {
    Some(Metadata { size, is_dir: false })
}

fn entry(path: &str, metadata: Option<Metadata>) -> Result<DirEntry, Error> {
    Ok(DirEntry { path: path.to_string(), metadata })
}

fn name_of(f: &File) -> String {
    match f.field(0) {
        Value::Path { name, .. } => name.clone(),
        _ => panic!("no path value"),
    }
}

fn ext_of(f: &File) -> String {
    match f.field(1) {
        Value::String { string } => string.clone(),
        _ => panic!("no extension value"),
    }
}

fn size_of(f: &File) -> u64 {
    match f.field(2) {
        Value::Size { bytes } => *bytes,
        _ => panic!("no size value"),
    }
}

#[test]
fn local_listing_of_three_entries() {
    let names = schema();
    let local = LocalSystem::default();
    let root = local.get_local_file("/home/u/docs", None, dir(4096), &names);
    let plan = list_plan(&root).unwrap();
    assert_eq!(plan.directory, "/home/u/docs");
    assert_eq!(plan.up.as_deref(), Some("/home/u"));
    let scan = DirScan {
        up: dir(4096),
        children: Ok(vec![
            entry("/home/u/docs/a.txt", file(10)),
            entry("/home/u/docs/b.txt", file(20)),
            entry("/home/u/docs/d", dir(4096)),
        ]),
    };
    let files = local.list_files(&plan, scan, &names);
    assert_eq!(files.len(), 4);
    assert_eq!(name_of(&files[0]), "[..]");
    assert_eq!(get_path(&files[0]), "/home/u");
    assert_eq!(name_of(&files[1]), "a");
    assert_eq!(ext_of(&files[1]), "txt");
    assert_eq!(size_of(&files[1]), 10);
    assert_eq!(name_of(&files[2]), "b");
    assert_eq!(size_of(&files[2]), 20);
    assert_eq!(name_of(&files[3]), "[d]");
    assert_eq!(ext_of(&files[3]), "");
    assert_eq!(size_of(&files[3]), 0);
    for f in &files {
        assert_eq!(f.field_count(), f.field_names().len());
        assert!(!f.selected());
    }
}

#[test]
fn root_directory_has_no_parent_entry() {
    let names = schema();
    let local = LocalSystem::default();
    let root = local.get_local_file("/", None, dir(0), &names);
    let plan = list_plan(&root).unwrap();
    assert!(plan.up.is_none());
    let scan = DirScan { up: None, children: Ok(vec![entry("/etc", dir(0))]) };
    let files = local.list_files(&plan, scan, &names);
    assert_eq!(files.len(), 1);
    assert_eq!(name_of(&files[0]), "[etc]");
}

#[test]
fn failed_enumeration_keeps_parent_entry() {
    let names = schema();
    let local = LocalSystem::default();
    let root = local.get_local_file("/srv/locked", None, dir(0), &names);
    let plan = list_plan(&root).unwrap();
    let scan = DirScan { up: dir(0), children: Err(Error::IoError("permission denied".to_string())) };
    let files = local.list_files(&plan, scan, &names);
    assert_eq!(files.len(), 1);
    assert_eq!(name_of(&files[0]), "[..]");
}

#[test]
fn remote_listing_skips_one_unreadable_child() {
    let names = schema();
    let sftp = SftpSystem;
    let root = sftp.get_sftp_file("/data", None, dir(0), &names);
    let plan = list_plan(&root).unwrap();
    assert_eq!(plan.up.as_deref(), Some("/"));
    let scan = DirScan {
        up: dir(0),
        children: Ok(vec![
            entry("/data/one.csv", file(1)),
            entry("/data/two.csv", file(2)),
            Err(Error::IoError("permission denied".to_string())),
            entry("/data/four", dir(0)),
            entry("/data/five.tar.gz", file(5)),
        ]),
    };
    let files = sftp.list_files(&plan, scan, &names);
    assert_eq!(files.len(), 5);
    assert_eq!(name_of(&files[0]), "[..]");
    assert_eq!(name_of(&files[1]), "one");
    assert_eq!(name_of(&files[2]), "two");
    assert_eq!(name_of(&files[3]), "[four]");
    assert_eq!(name_of(&files[4]), "five.tar");
    assert_eq!(ext_of(&files[4]), "gz");
}

#[test]
fn child_without_metadata_is_kept_with_defaults() {
    let names = schema();
    let local = LocalSystem::default();
    let root = local.get_local_file("/x", None, dir(0), &names);
    let plan = list_plan(&root).unwrap();
    let scan = DirScan { up: None, children: Ok(vec![entry("/x/ghost.bin", None)]) };
    let files = local.list_files(&plan, scan, &names);
    assert_eq!(files.len(), 2);
    assert_eq!(name_of(&files[1]), "ghost");
    assert_eq!(size_of(&files[1]), 0);
}

#[test]
fn remote_icons_are_pseudo_paths() {
    let names = schema();
    let sftp = SftpSystem;
    let f = sftp.get_sftp_file("/data/report.pdf", None, file(7), &names);
    match f.field(0) {
        Value::Path { icon: Icon::Shell(p), .. } => assert_eq!(p, "C:\\*.pdf"),
        _ => panic!("expected a shell icon"),
    }
    let d = sftp.get_sftp_file("/data/sub", None, dir(0), &names);
    match d.field(0) {
        Value::Path { icon: Icon::Shell(p), .. } => assert_eq!(p, "C:\\."),
        _ => panic!("expected a shell icon"),
    }
    match sftp.get_icon(false, "rs") {
        Icon::Shell(p) => assert_eq!(p, "C:\\*.rs"),
        _ => panic!("expected a shell icon"),
    }
}

#[test]
fn local_icons_use_the_trimmed_path() {
    let names = schema();
    let local = LocalSystem::default();
    let f = local.get_local_file("\\\\?\\C:\\work\\notes.md", None, file(3), &names);
    assert_eq!(get_path(&f), "C:\\work\\notes.md");
    match f.field(0) {
        Value::Path { icon: Icon::Local(p), name, .. } => {
            assert_eq!(p, "C:\\work\\notes.md");
            assert_eq!(name, "notes");
        }
        _ => panic!("expected a local icon"),
    }
    assert_eq!(ext_of(&f), "md");
}

#[test]
fn fields_follow_the_schema_by_name() {
    let names = Rc::new(vec!["size".to_string(), "other".to_string(), "path".to_string()]);
    let local = LocalSystem::default();
    let f = local.get_local_file("/a/b.c", None, file(9), &names);
    assert_eq!(f.field_count(), 3);
    assert!(matches!(f.field(0), Value::Size { bytes: 9 }));
    assert!(matches!(f.field(1), Value::String { string } if string.is_empty()));
    assert_eq!(f.get_field_index("path"), Some(2));
    assert_eq!(f.get_field_index("extension"), None);
    assert_eq!(get_path(&f), "/a/b.c");
}

#[test]
fn field_index_finds_the_first_match() {
    let names = Rc::new(vec!["a".to_string(), "b".to_string(), "a".to_string()]);
    let f = File::new(
        &names,
        vec![
            Value::Size { bytes: 1 },
            Value::Size { bytes: 2 },
            Value::Size { bytes: 3 },
        ],
    );
    assert_eq!(f.get_field_index("a"), Some(0));
    assert_eq!(f.get_field_index("b"), Some(1));
    assert_eq!(f.get_field_index("c"), None);
}

#[test]
fn file_without_path_field_is_not_listable() {
    let names = Rc::new(vec!["name".to_string()]);
    let f = File::new(&names, vec![Value::String { string: "x".to_string() }]);
    assert!(list_plan(&f).is_none());
    assert_eq!(get_path(&f), "");
}

#[test]
fn path_splitting() {
    assert_eq!(file_name("/a/b.txt").as_deref(), Some("b.txt"));
    assert_eq!(file_name("/a/b/").as_deref(), Some("b"));
    assert_eq!(file_name("/"), None);
    assert_eq!(file_name("/a/.."), None);
    assert_eq!(file_name("C:\\dir\\f.rs").as_deref(), Some("f.rs"));
    assert_eq!(parent("/a/b").as_deref(), Some("/a"));
    assert_eq!(parent("/a").as_deref(), Some("/"));
    assert_eq!(parent("a").as_deref(), Some(""));
    assert_eq!(parent("/"), None);
    assert_eq!(parent(""), None);
    assert_eq!(file_stem("/x/archive.tar.gz").as_deref(), Some("archive.tar"));
    assert_eq!(extension("/x/archive.tar.gz").as_deref(), Some("gz"));
    assert_eq!(file_stem("/x/.bashrc").as_deref(), Some(".bashrc"));
    assert_eq!(extension("/x/.bashrc"), None);
    assert_eq!(extension("/x/Makefile"), None);
    assert_eq!(trim_long_path_prefix("\\\\?\\C:\\x"), "C:\\x");
    assert_eq!(parent("C:\\"), None);
    assert_eq!(parent("C:"), None);
    assert_eq!(file_name("C:\\"), None);
    assert_eq!(parent("C:\\work").as_deref(), Some("C:\\"));
    assert_eq!(parent("C:\\work\\src").as_deref(), Some("C:\\work"));
    assert_eq!(file_name("C:\\work").as_deref(), Some("work"));
    assert_eq!(trim_long_path_prefix("/plain"), "/plain");
}

#[test]
fn filename_falls_back_to_the_path() {
    assert_eq!(get_filename("/usr/lib"), "lib");
    assert_eq!(get_filename("/"), "/");
    assert_eq!(get_filename("é/ü.txt"), "ü.txt");
}

#[test]
fn remote_root_is_fixed() {
    assert_eq!(SftpSystem::root_path(), "/");
}

#[test]
fn drive_root_has_no_parent_entry() {
    let names = schema();
    let local = LocalSystem::default();
    let root = local.get_local_file("C:\\", None, dir(0), &names);
    let plan = list_plan(&root).unwrap();
    assert!(plan.up.is_none());
    assert_eq!(get_filename("C:\\"), "C:\\");
}
