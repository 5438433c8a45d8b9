use std::rc::Rc;
use xcmd::api::File;
use xcmd::backend::{LocalSystem, Metadata};
use xcmd::palette::Palette;
use xcmd::pane::{default_field_names, Pane};
use xcmd::window::{Action, Command, WindowState};

fn entries(paths: &[&str]) -> Vec<File> {
    let names = Rc::new(default_field_names());
    let local = LocalSystem::default();
    paths
        .iter()
        .map(|p| local.get_local_file(p, None, Some(Metadata { size: 0, is_dir: true }), &names))
        .collect()
}

fn window() -> WindowState {
    let mut w = WindowState::new();
    let root = &entries(&["/w"])[0];
    w.set_pane(0, Pane::new(true, root));
    w.set_pane(1, Pane::new(false, root));
    w.update_pane(0, None, Ok(entries(&["/w/a", "/w/b"])));
    w.update_pane(1, None, Ok(entries(&["/w/x", "/w/y", "/w/z"])));
    w
}

#[test]
fn switch_pane_toggles_between_two() {
    let mut w = window();
    assert_eq!(w.active_pane(), 0);
    assert!(matches!(w.dispatch(Command::SwitchPane), Action::Nothing));
    assert_eq!(w.active_pane(), 1);
    w.dispatch(Command::MoveDown);
    assert_eq!(w.get_pane(1).unwrap().cursor(), 1);
    assert_eq!(w.get_pane(0).unwrap().cursor(), 0);
    w.dispatch(Command::SwitchPane);
    assert_eq!(w.active_pane(), 0);
}

#[test]
fn select_down_marks_and_moves() {
    let mut w = window();
    w.dispatch(Command::SelectDown);
    let pane = w.get_pane(0).unwrap();
    assert_eq!(pane.cursor(), 1);
    assert!(pane.data_source().rows(0, 1)[0].selected);
    w.dispatch(Command::SelectUp);
    let pane = w.get_pane(0).unwrap();
    assert_eq!(pane.cursor(), 0);
    assert!(pane.data_source().rows(1, 1)[0].selected);
}

#[test]
fn enter_item_asks_for_a_listing() {
    let mut w = window();
    w.dispatch(Command::MoveDown);
    match w.dispatch(Command::EnterItem) {
        Action::Enter { pane, target } => {
            assert_eq!(pane, 0);
            assert_eq!(target, "/w/b");
            assert_eq!(w.get_pane(0).unwrap().parent(), "/w");
            w.enter_pane(0, &target, Err(xcmd::api::Error::IoError("denied".to_string())));
            assert_eq!(w.get_pane(0).unwrap().parent(), "/w");
            assert_eq!(w.get_pane(0).unwrap().cursor(), 1);
            w.enter_pane(0, &target, Ok(entries(&["/w", "/w/b/c"])));
            assert_eq!(w.get_pane(0).unwrap().parent(), "/w/b");
            assert_eq!(w.get_pane(0).unwrap().cursor(), 0);
        }
        _ => panic!("expected a listing to enter"),
    }
}

#[test]
fn view_and_edit_name_the_file() {
    let mut w = window();
    assert!(matches!(w.dispatch(Command::ViewFile), Action::ViewFile(p) if p == "/w/a"));
    assert!(matches!(w.dispatch(Command::EditFile), Action::EditFile(p) if p == "/w/a"));
    assert!(matches!(w.dispatch(Command::Exit), Action::Exit));
}

#[test]
fn palette_shows_and_hides() {
    let mut w = window();
    w.dispatch(Command::ShowPalette);
    assert!(w.palette().is_active());
    w.dispatch(Command::HidePalette);
    assert!(!w.palette().is_active());
}

#[test]
fn commands_without_panes_do_nothing() {
    let mut w = WindowState::new();
    assert!(matches!(w.dispatch(Command::MoveDown), Action::Nothing));
    assert!(matches!(w.dispatch(Command::EnterItem), Action::Nothing));
    w.set_files_height(100, 10);
}

#[test]
fn resize_changes_the_page() {
    let mut w = window();
    w.set_files_height(20, 10);
    w.dispatch(Command::PageDown);
    assert_eq!(w.get_pane(0).unwrap().cursor(), 1);
}

#[test]
fn palette_cursor() {
    let mut p = Palette::new();
    assert!(!p.is_active());
    assert_eq!(p.get_item(0).as_deref(), Some("Edit File"));
    assert_eq!(p.get_item(17).as_deref(), Some("View File"));
    assert_eq!(p.get_item(18), None);
    p.move_up();
    assert_eq!(p.active_index(), 0);
    p.move_down();
    assert_eq!(p.active_index(), 1);
    p.page_down(10, 50);
    assert_eq!(p.active_index(), 6);
    p.page_down(10, 120);
    assert_eq!(p.active_index(), 6);
    p.page_down(10, 130);
    assert_eq!(p.active_index(), 17);
    p.page_down(10, 130);
    assert_eq!(p.active_index(), 17);
    p.move_down();
    assert_eq!(p.active_index(), 17);
    p.page_up(10, 50);
    assert_eq!(p.active_index(), 12);
    p.page_up(10, 200);
    assert_eq!(p.active_index(), 0);
    p.move_down();
    p.move_home();
    assert_eq!(p.active_index(), 0);
    p.activate(true);
    assert!(p.is_active());
}

#[test]
fn set_active_pane_marks_the_panes() {
    let mut w = window();
    w.set_active_pane(1);
    assert_eq!(w.active_pane(), 1);
    assert!(w.get_pane(1).unwrap().is_active());
    assert!(!w.get_pane(0).unwrap().is_active());
    w.dispatch(Command::MoveEnd);
    assert_eq!(w.get_pane(1).unwrap().cursor(), 2);
    w.set_active_pane(0);
    w.dispatch(Command::MoveEnd);
    assert_eq!(w.get_pane(0).unwrap().cursor(), 1);
}
