use xcmd::errors::AppError;
use xcmd::keys::{parse_key_code, KeyDispatch, KeyResolver, ALT, CTRL, SHIFT};
use xcmd::self_update::win_append_extension;
use xcmd::window::{Action, Command, WindowState};

fn pairs(items: &[(&str, &str)]) -> Vec<(String, String)> {
    items.iter().map(|(a, b)| (a.to_string(), b.to_string())).collect()
}

fn resolver() -> KeyResolver {
    let mut r = KeyResolver::new();
    r.initialize_key_map(&pairs(&[("65", "a"), ("85", "u"), ("38", "up"), ("97", "a")]))
        .unwrap();
    r
}

#[test]
fn key_names_get_consecutive_indices() {
    let r = resolver();
    assert_eq!(r.parse_key("a"), Some(0));
    assert_eq!(r.parse_key("u"), Some(1));
    assert_eq!(r.parse_key("up"), Some(2));
    assert_eq!(r.parse_key("down"), None);
}

#[test]
fn modifier_order_does_not_matter() {
    let r = resolver();
    assert_eq!(r.parse_key("ctrl+shift+a"), r.parse_key("shift+ctrl+a"));
    assert_eq!(r.parse_key("ctrl+shift+a"), Some(CTRL | SHIFT));
    assert_eq!(r.parse_key("alt+ctrl+shift+up"), Some(ALT | CTRL | SHIFT | 2));
    assert_eq!(r.parse_key("shift+alt+up"), r.parse_key("alt+shift+up"));
    assert_eq!(r.parse_key("ctrl+"), None);
    let all = Some(ALT | CTRL | SHIFT);
    for key in ["alt+ctrl+shift+a", "alt+shift+ctrl+a", "ctrl+alt+shift+a", "ctrl+shift+alt+a", "shift+alt+ctrl+a", "shift+ctrl+alt+a"] {
        assert_eq!(r.parse_key(key), all);
    }
    assert_eq!(r.parse_key("ctrl+ctrl+u"), Some(CTRL | 1));
}

#[test]
fn ctrl_u_runs_self_update_once() {
    let mut r = resolver();
    let dropped = r.bind_keys(&pairs(&[("ctrl+u", "pane.updateSelf"), ("ctrl+nothing", "pane.exit")]));
    assert_eq!(dropped, vec!["ctrl+nothing".to_string()]);
    let name = match r.on_key(85, false, true, false) {
        KeyDispatch::Command(c) => c,
        _ => panic!("ctrl+u is bound"),
    };
    assert_eq!(name, "pane.updateSelf");
    let command = Command::from_name(&name).unwrap();
    assert_eq!(command, Command::UpdateSelf);
    let mut state = WindowState::new();
    let mut updates = 0;
    if let Some(Action::UpdateSelf) = state.on_key(&r, 85, false, true, false) {
        updates += 1;
    }
    assert_eq!(updates, 1);
    assert!(matches!(state.dispatch(command), Action::UpdateSelf));
}

#[test]
fn window_key_events() {
    let mut r = resolver();
    r.bind_keys(&pairs(&[("ctrl+u", "pane.updateSelf"), ("a", "no.such.command")]));
    let mut state = WindowState::new();
    assert!(state.on_key(&r, 12345, false, false, false).is_none());
    assert!(matches!(state.on_key(&r, 85, false, false, false), Some(Action::Nothing)));
    assert!(matches!(state.on_key(&r, 65, false, false, false), Some(Action::Nothing)));
}

#[test]
fn unknown_codes_are_unhandled() {
    let mut r = resolver();
    r.bind_keys(&pairs(&[("ctrl+u", "pane.updateSelf")]));
    assert!(matches!(r.on_key(999, false, true, false), KeyDispatch::Unhandled));
    assert!(matches!(r.on_key(85, false, false, false), KeyDispatch::Unbound));
    assert!(matches!(r.on_key(85, true, true, false), KeyDispatch::Unbound));
}

#[test]
fn two_codes_share_a_key_name() {
    let mut r = resolver();
    r.bind_keys(&pairs(&[("a", "pane.moveUp")]));
    assert!(matches!(r.on_key(65, false, false, false), KeyDispatch::Command(c) if c == "pane.moveUp"));
    assert!(matches!(r.on_key(97, false, false, false), KeyDispatch::Command(c) if c == "pane.moveUp"));
}

#[test]
fn malformed_key_code_is_an_error() {
    let mut r = KeyResolver::new();
    let e = r.initialize_key_map(&pairs(&[("12x", "a")]));
    assert!(matches!(e, Err(AppError::StringError(_))));
}

#[test]
fn key_map_from_toml() {
    let mut r = KeyResolver::new();
    r.load_key_map("38 = \"up\"\n40 = \"down\"\n").unwrap();
    r.bind_keys(&pairs(&[("down", "pane.moveDown")]));
    assert!(matches!(r.on_key(40, false, false, false), KeyDispatch::Command(c) if c == "pane.moveDown"));
    assert!(matches!(r.on_key(38, false, false, false), KeyDispatch::Unbound));
    let mut bad = KeyResolver::new();
    assert!(bad.load_key_map("this is = not toml [").is_err());
}

#[test]
fn key_codes_parse_as_i32() {
    assert_eq!(parse_key_code("0"), Some(0));
    assert_eq!(parse_key_code("123"), Some(123));
    assert_eq!(parse_key_code("-45"), Some(-45));
    assert_eq!(parse_key_code("+7"), Some(7));
    assert_eq!(parse_key_code("2147483647"), Some(i32::MAX));
    assert_eq!(parse_key_code("-2147483648"), Some(i32::MIN));
    assert_eq!(parse_key_code("2147483648"), None);
    assert_eq!(parse_key_code("99999999999999999999"), None);
    assert_eq!(parse_key_code(""), None);
    assert_eq!(parse_key_code("-"), None);
    assert_eq!(parse_key_code("1 2"), None);
}

#[test]
fn command_names() {
    assert_eq!(Command::from_name("pane.switchPane"), Some(Command::SwitchPane));
    assert_eq!(Command::from_name("palette.hide"), Some(Command::HidePalette));
    assert_eq!(Command::from_name("pane.unknown"), None);
}

#[test]
fn app_error_messages() {
    assert_eq!(AppError::from("x".to_string()).message(), "Error: x");
    assert_eq!(AppError::from(()).message(), "Generic error.");
    assert_eq!(AppError::from(xcmd::api::Error::IoError("disk".to_string())).message(), "I/O error: disk");
    assert_eq!(AppError::FormatError.message(), "Formatting error.");
}

#[test]
fn launcher_names() {
    assert_eq!(win_append_extension("xcmd", ".exe", true), "xcmd.exe");
    assert_eq!(win_append_extension("xcmd", ".exe", false), "xcmd");
}
