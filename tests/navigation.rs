use std::rc::Rc;
use xcmd::api::{Error, File, Icon, Value};
use xcmd::backend::{LocalSystem, Metadata};
use xcmd::pane::{default_field_names, get_path, get_path_at, FilesDataSource, Pane};
use xcmd::render::{render_cell, Column, NameRenderer, SizeRenderer, TextRenderer};

fn listing(paths: &[&str]) -> Vec<File> {
    let names = Rc::new(default_field_names());
    let local = LocalSystem::default();
    paths
        .iter()
        .map(|p| local.get_local_file(p, None, Some(Metadata { size: 1234, is_dir: false }), &names))
        .collect()
}

fn root() -> File {
    let names = Rc::new(default_field_names());
    LocalSystem::default().get_local_file("/r", None, Some(Metadata { size: 0, is_dir: true }), &names)
}

fn pane_with(paths: &[&str]) -> Pane {
    let mut pane = Pane::new(true, &root());
    pane.update(None, Ok(listing(paths)));
    pane
}

#[test]
fn new_pane_shows_its_root() {
    let pane = Pane::new(false, &root());
    assert_eq!(pane.parent(), "/r");
    assert_eq!(pane.cursor(), 0);
    assert_eq!(pane.data_source().row_count(), 0);
    assert_eq!(pane.data_source().columns(), vec!["Name", "Ext", "Size", "Date", "Attributes"]);
    assert_eq!(pane.field_names(), vec!["path", "extension", "size", "created_on", "attributes"]);
    assert_eq!(pane.get_active_path(), None);
}

#[test]
fn cursor_moves_stay_in_range() {
    let mut pane = pane_with(&["/r/a", "/r/b", "/r/c"]);
    pane.move_up();
    assert_eq!(pane.cursor(), 0);
    pane.move_down();
    pane.move_down();
    pane.move_down();
    assert_eq!(pane.cursor(), 2);
    pane.move_home();
    assert_eq!(pane.cursor(), 0);
    pane.move_end();
    assert_eq!(pane.cursor(), 2);
    assert_eq!(pane.get_active_path().as_deref(), Some("/r/c"));
}

#[test]
fn moves_on_an_empty_listing_do_nothing() {
    let mut pane = pane_with(&[]);
    pane.move_down();
    pane.move_end();
    pane.page_down();
    pane.page_up();
    pane.move_up();
    pane.toggle_select();
    assert_eq!(pane.cursor(), 0);
    assert_eq!(pane.data_source().row_count(), 0);
}

#[test]
fn pages_clamp_at_the_bounds() {
    let paths: Vec<String> = (0..10).map(|i| format!("/r/f{}", i)).collect();
    let refs: Vec<&str> = paths.iter().map(|s| s.as_str()).collect();
    let mut pane = pane_with(&refs);
    pane.set_files_height(100, 32);
    pane.page_down();
    assert_eq!(pane.cursor(), 3);
    pane.page_down();
    pane.page_down();
    assert_eq!(pane.cursor(), 9);
    pane.page_down();
    assert_eq!(pane.cursor(), 9);
    pane.page_up();
    assert_eq!(pane.cursor(), 6);
    pane.page_up();
    pane.page_up();
    assert_eq!(pane.cursor(), 0);
}

#[test]
fn default_page_is_twenty_rows() {
    let paths: Vec<String> = (0..50).map(|i| format!("/r/f{}", i)).collect();
    let refs: Vec<&str> = paths.iter().map(|s| s.as_str()).collect();
    let mut pane = pane_with(&refs);
    pane.page_down();
    assert_eq!(pane.cursor(), 20);
}

#[test]
fn toggle_twice_restores_selection() {
    let mut pane = pane_with(&["/r/a", "/r/b"]);
    pane.move_down();
    pane.toggle_select();
    assert!(pane.data_source().rows(1, 1)[0].selected);
    assert!(!pane.data_source().rows(0, 1)[0].selected);
    assert_eq!(pane.cursor(), 1);
    pane.toggle_select();
    assert!(!pane.data_source().rows(1, 1)[0].selected);
}

#[test]
fn rows_are_cut_at_the_end() {
    let pane = pane_with(&["/r/a.txt", "/r/b", "/r/c"]);
    let rows = pane.data_source().rows(0, 10);
    assert_eq!(rows.len(), 3);
    assert!(rows[0].active);
    assert!(!rows[1].active);
    for row in &rows {
        assert_eq!(row.cells.len(), 5);
        assert!(!row.cells[0].text.is_empty());
    }
    assert_eq!(rows[0].cells[0].text, "a");
    assert_eq!(rows[0].cells[1].text, "txt");
    assert_eq!(rows[0].cells[2].text, "1,234");
    assert!(rows[0].cells[2].align_right);
    assert!(matches!(&rows[0].cells[0].icon, Some(Icon::Local(p)) if p == "/r/a.txt"));
    assert_eq!(pane.data_source().rows(3, 5).len(), 0);
    assert_eq!(pane.data_source().rows(7, 5).len(), 0);
    assert_eq!(pane.data_source().rows(2, 5).len(), 1);
    assert_eq!(pane.data_source().rows(-2, 3).len(), 1);
    assert_eq!(pane.data_source().rows(1, -1).len(), 0);
    assert_eq!(pane.data_source().rows(i32::MAX, i32::MAX).len(), 0);
}

#[test]
fn update_puts_cursor_on_the_selected_path() {
    let mut pane = pane_with(&["/r/a", "/r/b", "/r/c"]);
    pane.update(Some("/r/c"), Ok(listing(&["/r/a", "/r/b", "/r/c"])));
    assert_eq!(pane.cursor(), 2);
    pane.update(Some("/r/zzz"), Ok(listing(&["/r/a", "/r/b"])));
    assert_eq!(pane.cursor(), 0);
}

#[test]
fn failed_update_keeps_the_listing() {
    let mut pane = pane_with(&["/r/a", "/r/b"]);
    pane.move_down();
    pane.update(None, Err(Error::IoError("gone".to_string())));
    assert_eq!(pane.cursor(), 1);
    assert_eq!(pane.data_source().row_count(), 2);
}

#[test]
fn enter_and_return_restores_the_cursor() {
    let names = Rc::new(default_field_names());
    let local = LocalSystem::default();
    let dir = Some(Metadata { size: 0, is_dir: true });
    let mut pane = Pane::new(true, &local.get_local_file("/p", None, dir, &names));
    let outside = || {
        vec![
            local.get_local_file("/", Some("[..]".to_string()), dir, &names),
            local.get_local_file("/p/c", None, dir, &names),
            local.get_local_file("/p/d", None, dir, &names),
        ]
    };
    pane.update(None, Ok(outside()));
    pane.move_down();
    pane.move_down();
    let target = pane.enter_item().unwrap();
    assert_eq!(target, "/p/d");
    assert_eq!(pane.parent(), "/p");
    let inside = vec![
        local.get_local_file("/p", Some("[..]".to_string()), dir, &names),
        local.get_local_file("/p/d/x", None, dir, &names),
    ];
    pane.enter(&target, Ok(inside));
    assert_eq!(pane.parent(), "/p/d");
    assert_eq!(pane.cursor(), 0);
    let back = pane.enter_item().unwrap();
    assert_eq!(back, "/p");
    pane.enter(&back, Ok(outside()));
    assert_eq!(pane.parent(), "/p");
    assert_eq!(pane.cursor(), 2);
    assert_eq!(pane.get_active_path().as_deref(), Some("/p/d"));
}

#[test]
fn failed_enter_keeps_the_directory() {
    let mut pane = pane_with(&["/r/a", "/r/b"]);
    pane.move_down();
    let target = pane.enter_item().unwrap();
    assert_eq!(target, "/r/b");
    pane.enter(&target, Err(Error::IoError("permission denied".to_string())));
    assert_eq!(pane.parent(), "/r");
    assert_eq!(pane.cursor(), 1);
    assert_eq!(pane.data_source().row_count(), 2);
}

#[test]
fn enter_needs_a_path_field() {
    let names = Rc::new(vec!["title".to_string()]);
    let mut pane = Pane::new(true, &root());
    pane.update(None, Ok(vec![File::new(&names, vec![Value::String { string: "t".to_string() }])]));
    assert_eq!(pane.enter_item(), None);
    assert_eq!(pane.parent(), "/r");
    let empty = pane_with(&[]);
    assert_eq!(empty.enter_item(), None);
}

#[test]
fn activate_flags_only() {
    let mut pane = pane_with(&["/r/a"]);
    pane.activate(false);
    assert_eq!(pane.data_source().row_count(), 1);
}

#[test]
fn empty_data_source() {
    let ds = FilesDataSource::new();
    assert_eq!(ds.row_count(), 0);
    assert!(ds.columns().is_empty());
    assert_eq!(ds.rows(0, 10).len(), 0);
}

#[test]
fn path_at_an_index() {
    let names = Rc::new(vec!["path".to_string(), "n".to_string()]);
    let f = File::new(
        &names,
        vec![Value::String { string: "text-path".to_string() }, Value::Size { bytes: 12 }],
    );
    assert_eq!(get_path(&f), "text-path");
    assert_eq!(get_path_at(&f, Some(1)), "12");
    assert_eq!(get_path_at(&f, None), "");
}

#[test]
fn renderers() {
    let size = Value::Size { bytes: 1234567 };
    let cell = SizeRenderer::new().render(&size);
    assert_eq!(cell.text, "1,234,567");
    assert!(cell.align_right);
    let text = Value::String { string: "hello".to_string() };
    assert_eq!(SizeRenderer::new().render(&text).text, "");
    assert_eq!(TextRenderer::new().render(&size).text, "1234567");
    assert_eq!(TextRenderer::new().render(&text).text, "hello");
    let path = Value::Path {
        path: "/a/b".to_string(),
        name: "b".to_string(),
        icon: Icon::Shell("C:\\.".to_string()),
    };
    let named = NameRenderer::new().render(&path);
    assert_eq!(named.text, "b");
    assert!(matches!(named.icon, Some(Icon::Shell(p)) if p == "C:\\."));
    assert!(NameRenderer::new().render(&text).icon.is_none());
    assert_eq!(render_cell(&Value::Size { bytes: 999 }).text, "999");
    assert_eq!(render_cell(&Value::Size { bytes: 1000 }).text, "1,000");
    assert_eq!(render_cell(&Value::Size { bytes: 0 }).text, "0");
    assert_eq!(render_cell(&Value::Size { bytes: u64::MAX }).text, "18,446,744,073,709,551,615");
    assert_eq!(Column::new("Name").get_name(), "Name");
}

#[test]
fn value_text() {
    assert_eq!(Value::Size { bytes: 1234 }.text(), "1234");
    assert_eq!(Value::String { string: "s".to_string() }.text(), "s");
}
