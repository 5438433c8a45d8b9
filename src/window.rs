//! The window coordinator: two panes, the active one, and the commands that
//! act on them.
//!
//! A command changes the panes and may ask for outside work: a new listing
//! for a pane, a file opened in a viewer or editor, the window closed, an
//! update of the application. The caller performs that work and hands the
//! result back (see [`WindowState::enter_pane`] and
//! [`WindowState::update_pane`]).

use crate::api::{Error, File};
use crate::keys::{modifier_bits, KeyDispatch, KeyResolver};
use crate::palette::{Palette, PaletteView};
use crate::pane::{spec_get_path, Pane, PaneView};
use vstd::prelude::*;

verus! {

/// A command that a key can be bound to.
#[derive(Clone, Copy, PartialEq, Eq, Structural, Debug)]
pub enum Command {
    SwitchPane,
    MoveUp,
    MoveDown,
    MoveHome,
    MoveEnd,
    PageUp,
    PageDown,
    SelectUp,
    SelectDown,
    ToggleSelect,
    EnterItem,
    Exit,
    UpdateSelf,
    ViewFile,
    EditFile,
    ShowPalette,
    HidePalette,
}

/// The command registered under a name.
pub open spec fn command_named(name: Seq<char>) -> Option<Command> {
    if name == "pane.switchPane"@ {
        Some(Command::SwitchPane)
    } else if name == "pane.moveUp"@ {
        Some(Command::MoveUp)
    } else if name == "pane.moveDown"@ {
        Some(Command::MoveDown)
    } else if name == "pane.moveHome"@ {
        Some(Command::MoveHome)
    } else if name == "pane.moveEnd"@ {
        Some(Command::MoveEnd)
    } else if name == "pane.pageUp"@ {
        Some(Command::PageUp)
    } else if name == "pane.pageDown"@ {
        Some(Command::PageDown)
    } else if name == "pane.selectUp"@ {
        Some(Command::SelectUp)
    } else if name == "pane.selectDown"@ {
        Some(Command::SelectDown)
    } else if name == "pane.toggleSelect"@ {
        Some(Command::ToggleSelect)
    } else if name == "pane.enterItem"@ {
        Some(Command::EnterItem)
    } else if name == "pane.exit"@ {
        Some(Command::Exit)
    } else if name == "pane.updateSelf"@ {
        Some(Command::UpdateSelf)
    } else if name == "pane.viewFile"@ {
        Some(Command::ViewFile)
    } else if name == "pane.editFile"@ {
        Some(Command::EditFile)
    } else if name == "palette.show"@ {
        Some(Command::ShowPalette)
    } else if name == "palette.hide"@ {
        Some(Command::HidePalette)
    } else {
        None
    }
}

impl Command {
    /// The command registered under `name`, if any.
    pub fn from_name(name: &str) -> (r: Option<Command>)
        ensures
            r == command_named(name@),
    {
        let n = String::from_str(name);
        if n == String::from_str("pane.switchPane") {
            Some(Command::SwitchPane)
        } else if n == String::from_str("pane.moveUp") {
            Some(Command::MoveUp)
        } else if n == String::from_str("pane.moveDown") {
            Some(Command::MoveDown)
        } else if n == String::from_str("pane.moveHome") {
            Some(Command::MoveHome)
        } else if n == String::from_str("pane.moveEnd") {
            Some(Command::MoveEnd)
        } else if n == String::from_str("pane.pageUp") {
            Some(Command::PageUp)
        } else if n == String::from_str("pane.pageDown") {
            Some(Command::PageDown)
        } else if n == String::from_str("pane.selectUp") {
            Some(Command::SelectUp)
        } else if n == String::from_str("pane.selectDown") {
            Some(Command::SelectDown)
        } else if n == String::from_str("pane.toggleSelect") {
            Some(Command::ToggleSelect)
        } else if n == String::from_str("pane.enterItem") {
            Some(Command::EnterItem)
        } else if n == String::from_str("pane.exit") {
            Some(Command::Exit)
        } else if n == String::from_str("pane.updateSelf") {
            Some(Command::UpdateSelf)
        } else if n == String::from_str("pane.viewFile") {
            Some(Command::ViewFile)
        } else if n == String::from_str("pane.editFile") {
            Some(Command::EditFile)
        } else if n == String::from_str("palette.show") {
            Some(Command::ShowPalette)
        } else if n == String::from_str("palette.hide") {
            Some(Command::HidePalette)
        } else {
            None
        }
    }
}

/// The outside work that a command asks for.
#[derive(Debug)]
pub enum Action {
    /// Nothing beyond the change of state.
    Nothing,
    /// List the directory `target` and hand the listing to pane `pane`
    /// through [`WindowState::enter_pane`].
    Enter { pane: u8, target: String },
    /// Open the file in a viewer.
    ViewFile(String),
    /// Open the file in an editor.
    EditFile(String),
    /// Close the window.
    Exit,
    /// Update the application.
    UpdateSelf,
}

/// The model of an [`Action`].
pub enum ActionView {
    Nothing,
    Enter { pane: u8, target: Seq<char> },
    ViewFile(Seq<char>),
    EditFile(Seq<char>),
    Exit,
    UpdateSelf,
}

impl View for Action {
    type V = ActionView;

    open spec fn view(&self) -> ActionView {
        match self {
            Action::Nothing => ActionView::Nothing,
            Action::Enter { pane, target } => ActionView::Enter { pane: *pane, target: target@ },
            Action::ViewFile(p) => ActionView::ViewFile(p@),
            Action::EditFile(p) => ActionView::EditFile(p@),
            Action::Exit => ActionView::Exit,
            Action::UpdateSelf => ActionView::UpdateSelf,
        }
    }
}

/// The model of a [`WindowState`].
pub struct WindowView {
    pub active_pane: u8,
    pub left: Option<PaneView>,
    pub right: Option<PaneView>,
    pub palette: PaletteView,
}

/// The view of an optional pane.
pub open spec fn pane_view(p: Option<Pane>) -> Option<PaneView> {
    match p {
        Some(p) => Some(p@),
        None => None,
    }
}

/// A pane, if there is one, with a page of `page` rows.
pub open spec fn with_page(p: Option<PaneView>, page: int) -> Option<PaneView> {
    match p {
        Some(v) => Some(PaneView { page, ..v }),
        None => None,
    }
}

/// A pane that is absent or has its cursor in range.
pub open spec fn pane_ok(p: Option<PaneView>) -> bool {
    match p {
        Some(v) => v.cursor_valid() && v.page >= 0,
        None => true,
    }
}

impl WindowView {
    /// The active pane is 0 or 1 and every pane's cursor is in range.
    pub open spec fn wf(self) -> bool {
        self.active_pane <= 1 && pane_ok(self.left) && pane_ok(self.right)
    }

    /// Pane `i`: 0 is the left one, any other the right one.
    pub open spec fn pane(self, i: u8) -> Option<PaneView> {
        if i == 0 {
            self.left
        } else {
            self.right
        }
    }

    /// The window with pane `i` replaced.
    pub open spec fn with_pane(self, i: u8, p: Option<PaneView>) -> WindowView {
        if i == 0 {
            WindowView { left: p, ..self }
        } else {
            WindowView { right: p, ..self }
        }
    }

    /// The window with `f` applied to the active pane, if there is one.
    pub open spec fn on_active(self, f: spec_fn(PaneView) -> PaneView) -> WindowView {
        match self.pane(self.active_pane) {
            Some(p) => self.with_pane(self.active_pane, Some(f(p))),
            None => self,
        }
    }

    /// Pane `i` marked active or not, if there is one.
    pub open spec fn mark(self, i: u8, active: bool) -> WindowView {
        match self.pane(i) {
            Some(p) => self.with_pane(i, Some(PaneView { active, ..p })),
            None => self,
        }
    }

    /// Pane `i` becomes the active one: the old one is marked inactive,
    /// the new one active.
    pub open spec fn activated(self, i: u8) -> WindowView {
        WindowView { active_pane: i, ..self.mark(self.active_pane, false) }.mark(i, true)
    }

    /// The other pane becomes the active one.
    pub open spec fn switched(self) -> WindowView {
        self.activated((1 - self.active_pane) as u8)
    }

    /// The window after a command.
    pub open spec fn after(self, c: Command) -> WindowView {
        match c {
            Command::SwitchPane => self.switched(),
            Command::MoveUp => self.on_active(|p: PaneView| p.moved_up()),
            Command::MoveDown => self.on_active(|p: PaneView| p.moved_down()),
            Command::MoveHome => self.on_active(|p: PaneView| p.moved_home()),
            Command::MoveEnd => self.on_active(|p: PaneView| p.moved_end()),
            Command::PageUp => self.on_active(|p: PaneView| p.paged_up()),
            Command::PageDown => self.on_active(|p: PaneView| p.paged_down()),
            Command::SelectUp => self.on_active(|p: PaneView| p.toggled().moved_up()),
            Command::SelectDown => self.on_active(|p: PaneView| p.toggled().moved_down()),
            Command::ToggleSelect => self.on_active(|p: PaneView| p.toggled()),
            Command::ShowPalette => WindowView {
                palette: PaletteView { active: true, ..self.palette },
                ..self
            },
            Command::HidePalette => WindowView {
                palette: PaletteView { active: false, ..self.palette },
                ..self
            },
            _ => self,
        }
    }

    /// The outside work that a command asks for.
    pub open spec fn action(self, c: Command) -> ActionView {
        let p = self.pane(self.active_pane);
        match c {
            Command::EnterItem => match p {
                Some(v) => if v.can_enter() {
                    ActionView::Enter { pane: self.active_pane, target: v.enter_target() }
                } else {
                    ActionView::Nothing
                },
                None => ActionView::Nothing,
            },
            Command::ViewFile => match p {
                Some(v) => if v.files.len() > 0 {
                    ActionView::ViewFile(spec_get_path(v.files[v.cursor]))
                } else {
                    ActionView::Nothing
                },
                None => ActionView::Nothing,
            },
            Command::EditFile => match p {
                Some(v) => if v.files.len() > 0 {
                    ActionView::EditFile(spec_get_path(v.files[v.cursor]))
                } else {
                    ActionView::Nothing
                },
                None => ActionView::Nothing,
            },
            Command::Exit => ActionView::Exit,
            Command::UpdateSelf => ActionView::UpdateSelf,
            _ => ActionView::Nothing,
        }
    }
}

/// The panes of a window and which of them is active.
pub struct WindowState {
    active_pane: u8,
    left_pane: Option<Pane>,
    right_pane: Option<Pane>,
    palette: Palette,
}

impl View for WindowState {
    type V = WindowView;

    closed spec fn view(&self) -> WindowView {
        WindowView {
            active_pane: self.active_pane,
            left: pane_view(self.left_pane),
            right: pane_view(self.right_pane),
            palette: self.palette@,
        }
    }
}

impl WindowState {
    /// A window without panes, the left one active, the palette hidden.
    pub fn new() -> (r: WindowState)
        ensures
            r@.active_pane == 0,
            r@.left is None,
            r@.right is None,
            r@.palette == (PaletteView {
                active: false,
                cursor: 0,
                items: crate::palette::palette_titles(),
            }),
    {
        WindowState { active_pane: 0, left_pane: None, right_pane: None, palette: Palette::new() }
    }

    /// Which pane is active: 0 for the left one, 1 for the right one.
    pub fn active_pane(&self) -> (r: u8)
        ensures
            r == self@.active_pane,
    {
        self.active_pane
    }

    /// The command palette.
    pub fn palette(&self) -> (r: &Palette)
        ensures
            r@ == self@.palette,
    {
        &self.palette
    }

    /// Pane `index`: 0 is the left one, any other the right one.
    pub fn get_pane(&self, index: u8) -> (r: Option<&Pane>)
        ensures
            match r {
                Some(p) => self@.pane(index) == Some(p@),
                None => self@.pane(index) is None,
            },
    {
        if index == 0 {
            self.left_pane.as_ref()
        } else {
            self.right_pane.as_ref()
        }
    }

    /// Takes pane `index` out of the window.
    fn take_pane(&mut self, index: u8) -> (r: Option<Pane>)
        ensures
            pane_view(r) == old(self)@.pane(index),
            final(self)@ == old(self)@.with_pane(index, None),
    {
        if index == 0 {
            self.left_pane.take()
        } else {
            self.right_pane.take()
        }
    }

    /// Puts a pane into slot `index`.
    pub fn set_pane(&mut self, index: u8, pane: Pane)
        ensures
            final(self)@ == old(self)@.with_pane(index, Some(pane@)),
    {
        if index == 0 {
            self.left_pane = Some(pane);
        } else {
            self.right_pane = Some(pane);
        }
    }

    /// Hands a new listing to pane `index`: see [`Pane::update`].
    pub fn update_pane(
        &mut self,
        index: u8,
        selected_path: Option<&str>,
        listing: Result<Vec<File>, Error>,
    )
        requires
            old(self)@.wf(),
        ensures
            final(self)@.wf(),
            match (old(self)@.pane(index), listing) {
                (Some(p), Ok(files)) => final(self)@ == old(self)@.with_pane(
                    index,
                    Some(
                        p.updated(
                            match selected_path {
                                Some(s) => Some(s@),
                                None => None,
                            },
                            crate::pane::files_view(files@),
                        ),
                    ),
                ),
                _ => final(self)@ == old(self)@,
            },
    {
        match self.take_pane(index) {
            Some(mut p) => {
                p.update(selected_path, listing);
                self.set_pane(index, p);
            },
            None => {},
        }
    }

    /// Hands pane `index` the listing of the directory `target` it enters:
    /// see [`Pane::enter`]. A failed listing changes nothing.
    pub fn enter_pane(&mut self, index: u8, target: &str, listing: Result<Vec<File>, Error>)
        requires
            old(self)@.wf(),
        ensures
            final(self)@.wf(),
            match (old(self)@.pane(index), listing) {
                (Some(p), Ok(files)) => final(self)@ == old(self)@.with_pane(
                    index,
                    Some(p.entered(target@, crate::pane::files_view(files@))),
                ),
                _ => final(self)@ == old(self)@,
            },
    {
        match self.take_pane(index) {
            Some(mut p) => {
                p.enter(target, listing);
                self.set_pane(index, p);
            },
            None => {},
        }
    }

    /// Sets the heights of the viewport and of a row in both panes.
    pub fn set_files_height(&mut self, files_height: i32, item_height: i32)
        requires
            old(self)@.wf(),
            files_height >= 0,
            item_height > 0,
        ensures
            final(self)@.wf(),
            final(self)@ == (WindowView {
                left: with_page(old(self)@.left, files_height / item_height),
                right: with_page(old(self)@.right, files_height / item_height),
                ..old(self)@
            }),
    {
        let ghost page = files_height / item_height;
        let mut i: u8 = 0;
        while i < 2
            invariant
                i <= 2,
                self@.wf(),
                files_height >= 0,
                item_height > 0,
                page == files_height / item_height,
                self@.active_pane == old(self)@.active_pane,
                self@.palette == old(self)@.palette,
                self@.left == if i > 0 {
                    with_page(old(self)@.left, page)
                } else {
                    old(self)@.left
                },
                self@.right == if i > 1 {
                    with_page(old(self)@.right, page)
                } else {
                    old(self)@.right
                },
            decreases 2 - i,
        {
            match self.take_pane(i) {
                Some(mut p) => {
                    p.set_files_height(files_height, item_height);
                    self.set_pane(i, p);
                },
                None => {},
            }
            i = i + 1;
        }
    }

    /// Runs a command on the window and returns the outside work it asks for.
    pub fn dispatch(&mut self, command: Command) -> (r: Action)
        requires
            old(self)@.wf(),
        ensures
            final(self)@.wf(),
            final(self)@ == old(self)@.after(command),
            r@ == old(self)@.action(command),
    {
        let ghost w = self@;
        proof {
            if let Some(p) = w.pane(w.active_pane) {
                crate::pane::lemma_moves_keep_cursor_in_range(p);
            }
        }
        match command {
            Command::SwitchPane => {
                self.switch_pane();
                Action::Nothing
            },
            Command::ShowPalette => {
                self.palette.activate(true);
                Action::Nothing
            },
            Command::HidePalette => {
                self.palette.activate(false);
                Action::Nothing
            },
            Command::Exit => Action::Exit,
            Command::UpdateSelf => Action::UpdateSelf,
            _ => {
                let index = self.active_pane;
                match self.take_pane(index) {
                    None => Action::Nothing,
                    Some(mut p) => {
                        let ghost v = p@;
                        let action = match command {
                            Command::MoveUp => {
                                p.move_up();
                                Action::Nothing
                            },
                            Command::MoveDown => {
                                p.move_down();
                                Action::Nothing
                            },
                            Command::MoveHome => {
                                p.move_home();
                                Action::Nothing
                            },
                            Command::MoveEnd => {
                                p.move_end();
                                Action::Nothing
                            },
                            Command::PageUp => {
                                p.page_up();
                                Action::Nothing
                            },
                            Command::PageDown => {
                                p.page_down();
                                Action::Nothing
                            },
                            Command::SelectUp => {
                                p.toggle_select();
                                p.move_up();
                                Action::Nothing
                            },
                            Command::SelectDown => {
                                p.toggle_select();
                                p.move_down();
                                Action::Nothing
                            },
                            Command::ToggleSelect => {
                                p.toggle_select();
                                Action::Nothing
                            },
                            Command::EnterItem => match p.enter_item() {
                                Some(target) => Action::Enter { pane: index, target },
                                None => Action::Nothing,
                            },
                            Command::ViewFile => match p.get_active_path() {
                                Some(path) => Action::ViewFile(path),
                                None => Action::Nothing,
                            },
                            _ => match p.get_active_path() {
                                Some(path) => Action::EditFile(path),
                                None => Action::Nothing,
                            },
                        };
                        self.set_pane(index, p);
                        assert(self@ =~= w.after(command));
                        action
                    },
                }
            },
        }
    }

    /// Handles a key-down event: resolves the key with `keys` and runs the
    /// bound command. `None` where the key code is unknown, so that the
    /// event goes on to the widget; otherwise the outside work asked for,
    /// which is nothing where no command is bound or registered.
    pub fn on_key(
        &mut self,
        keys: &KeyResolver,
        key_code: i32,
        alt: bool,
        ctrl: bool,
        shift: bool,
    ) -> (r: Option<Action>)
        requires
            old(self)@.wf(),
        ensures
            final(self)@.wf(),
            match keys@.codes.get(key_code) {
                None => r is None && final(self)@ == old(self)@,
                Some(index) => r is Some && match keys@.bindings.get(
                    modifier_bits(alt, ctrl, shift) | index,
                ) {
                    Some(name) if command_named(name) is Some => {
                        let c = command_named(name)->0;
                        final(self)@ == old(self)@.after(c) && r->0@ == old(self)@.action(c)
                    },
                    _ => final(self)@ == old(self)@ && r->0@ == ActionView::Nothing,
                },
            },
    {
        match keys.on_key(key_code, alt, ctrl, shift) {
            KeyDispatch::Unhandled => None,
            KeyDispatch::Unbound => Some(Action::Nothing),
            KeyDispatch::Command(name) => match Command::from_name(name.as_str()) {
                Some(command) => Some(self.dispatch(command)),
                None => Some(Action::Nothing),
            },
        }
    }

    /// Makes pane `index` the active one: the old one is marked inactive,
    /// the new one active.
    pub fn set_active_pane(&mut self, index: u8)
        requires
            old(self)@.wf(),
            index <= 1,
        ensures
            final(self)@.wf(),
            final(self)@ == old(self)@.activated(index),
    {
        let old_index = self.active_pane;
        match self.take_pane(old_index) {
            Some(mut p) => {
                p.activate(false);
                self.set_pane(old_index, p);
            },
            None => {},
        }
        self.active_pane = index;
        match self.take_pane(index) {
            Some(mut p) => {
                p.activate(true);
                self.set_pane(index, p);
            },
            None => {},
        }
    }

    /// Makes the other pane the active one.
    fn switch_pane(&mut self)
        requires
            old(self)@.wf(),
        ensures
            final(self)@.wf(),
            final(self)@ == old(self)@.switched(),
    {
        self.set_active_pane(1 - self.active_pane);
    }
}

} // verus!
