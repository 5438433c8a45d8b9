//! The command palette: a list of command titles with a cursor.

use vstd::prelude::*;

verus! {

/// The model of a [`Palette`].
pub struct PaletteView {
    pub active: bool,
    pub cursor: int,
    pub items: Seq<Seq<char>>,
}

impl PaletteView {
    /// The cursor moved to `i` where that item exists; unchanged otherwise.
    pub open spec fn set_item(self, i: int) -> PaletteView {
        if 0 <= i < self.items.len() {
            PaletteView { cursor: i, ..self }
        } else {
            self
        }
    }

    /// How many rows a page holds.
    pub open spec fn per_page(row_height: i32, body_height: i32) -> int {
        body_height / row_height
    }

    /// One page up, stopping at the first item; nothing at the top.
    pub open spec fn paged_up(self, row_height: i32, body_height: i32) -> PaletteView {
        let n = Self::per_page(row_height, body_height);
        if self.cursor != 0 && 0 <= self.cursor < self.items.len() {
            self.set_item(
                if self.cursor < n {
                    0
                } else {
                    self.cursor - n
                },
            )
        } else {
            self
        }
    }

    /// One page down; past the end it goes to the last item.
    pub open spec fn paged_down(self, row_height: i32, body_height: i32) -> PaletteView {
        let n = Self::per_page(row_height, body_height);
        if 0 <= self.cursor < self.items.len() {
            self.set_item(
                if self.cursor + n > self.items.len() {
                    self.items.len() - 1
                } else {
                    self.cursor + n
                },
            )
        } else {
            self
        }
    }
}

/// The titles that the palette lists.
pub open spec fn palette_titles() -> Seq<Seq<char>> {
    seq![
        "Edit File"@,
        "Enter Item"@,
        "Exit"@,
        "Hide Palette"@,
        "Move Down"@,
        "Move Home"@,
        "Move Page Down"@,
        "Move Page Up"@,
        "Move Up"@,
        "Move to Line Start"@,
        "Move to Line End"@,
        "Select Up"@,
        "Select Down"@,
        "Show Palette"@,
        "Switch Pane"@,
        "Toggle Selection"@,
        "Update Application"@,
        "View File"@,
    ]
}

/// The command palette.
pub struct Palette {
    active: bool,
    active_index: u32,
    items: Vec<String>,
}

impl View for Palette {
    type V = PaletteView;

    closed spec fn view(&self) -> PaletteView {
        PaletteView {
            active: self.active,
            cursor: self.active_index as int,
            items: self.items@.map_values(|s: String| s@),
        }
    }
}

impl Palette {
    /// The items can be counted in a `u32`.
    #[verifier::type_invariant]
    closed spec fn items_countable(self) -> bool {
        self.items.len() < u32::MAX
    }

    /// A hidden palette of all command titles, the cursor on the first.
    pub fn new() -> (r: Palette)
        ensures
            r@ == (PaletteView { active: false, cursor: 0, items: palette_titles() }),
    {
        let titles = vec![
            "Edit File",
            "Enter Item",
            "Exit",
            "Hide Palette",
            "Move Down",
            "Move Home",
            "Move Page Down",
            "Move Page Up",
            "Move Up",
            "Move to Line Start",
            "Move to Line End",
            "Select Up",
            "Select Down",
            "Show Palette",
            "Switch Pane",
            "Toggle Selection",
            "Update Application",
            "View File",
        ];
        let mut items: Vec<String> = Vec::new();
        let mut i: usize = 0;
        while i < titles.len()
            invariant
                i <= titles.len(),
                titles@ == seq![
                    "Edit File",
                    "Enter Item",
                    "Exit",
                    "Hide Palette",
                    "Move Down",
                    "Move Home",
                    "Move Page Down",
                    "Move Page Up",
                    "Move Up",
                    "Move to Line Start",
                    "Move to Line End",
                    "Select Up",
                    "Select Down",
                    "Show Palette",
                    "Switch Pane",
                    "Toggle Selection",
                    "Update Application",
                    "View File",
                ],
                items.len() == i,
                forall|j: int| 0 <= j < i ==> #[trigger] items@[j]@ == titles@[j]@,
            decreases titles.len() - i,
        {
            items.push(String::from_str(titles[i]));
            i = i + 1;
        }
        let r = Palette { active: false, active_index: 0, items };
        assert(r@.items =~= palette_titles());
        r
    }

    /// The title of item `index`, if there is one.
    pub fn get_item(&self, index: u32) -> (r: Option<String>)
        ensures
            match r {
                Some(t) => index < self@.items.len() && t@ == self@.items[index as int],
                None => index >= self@.items.len(),
            },
    {
        if (index as usize) < self.items.len() {
            Some(self.items[index as usize].clone())
        } else {
            None
        }
    }

    /// Whether the palette is shown.
    pub fn is_active(&self) -> (r: bool)
        ensures
            r == self@.active,
    {
        self.active
    }

    /// The index of the item under the cursor.
    pub fn active_index(&self) -> (r: u32)
        ensures
            r == self@.cursor,
    {
        self.active_index
    }

    /// Shows or hides the palette.
    pub fn activate(&mut self, active: bool)
        ensures
            final(self)@ == (PaletteView { active, ..old(self)@ }),
    {
        proof {
            use_type_invariant(&*self);
        }
        self.active = active;
    }

    /// Moves the cursor to item `index`, if it exists.
    fn set_active_item(&mut self, index: u32)
        ensures
            final(self)@ == old(self)@.set_item(index as int),
    {
        proof {
            use_type_invariant(&*self);
        }
        if (index as usize) < self.items.len() {
            self.active_index = index;
        }
    }

    /// One item up, unless at the top.
    pub fn move_up(&mut self)
        ensures
            final(self)@ == if old(self)@.cursor != 0 {
                old(self)@.set_item(old(self)@.cursor - 1)
            } else {
                old(self)@
            },
    {
        if self.active_index != 0 {
            self.set_active_item(self.active_index - 1);
        }
    }

    /// One item down, unless at the bottom.
    pub fn move_down(&mut self)
        ensures
            final(self)@ == old(self)@.set_item(old(self)@.cursor + 1),
    {
        proof {
            use_type_invariant(&*self);
        }
        if self.active_index < u32::MAX {
            self.set_active_item(self.active_index + 1);
        }
    }

    /// The first item.
    pub fn move_home(&mut self)
        ensures
            final(self)@ == if old(self)@.cursor != 0 {
                old(self)@.set_item(0)
            } else {
                old(self)@
            },
    {
        if self.active_index != 0 {
            self.set_active_item(0);
        }
    }

    /// One page up, given the height of a row and of the list's body.
    pub fn page_up(&mut self, row_height: i32, body_height: i32)
        requires
            row_height > 0,
            body_height >= 0,
        ensures
            final(self)@ == old(self)@.paged_up(row_height, body_height),
    {
        if self.active_index != 0 && (self.active_index as usize) < self.items.len() {
            let per_page = (body_height / row_height) as u32;
            let index = if self.active_index < per_page {
                0
            } else {
                self.active_index - per_page
            };
            self.set_active_item(index);
        }
    }

    /// One page down, given the height of a row and of the list's body.
    pub fn page_down(&mut self, row_height: i32, body_height: i32)
        requires
            row_height > 0,
            body_height >= 0,
        ensures
            final(self)@ == old(self)@.paged_down(row_height, body_height),
    {
        proof {
            use_type_invariant(&*self);
        }
        if (self.active_index as usize) < self.items.len() {
            let per_page = (body_height / row_height) as u64;
            let count = self.items.len() as u64;
            let index = if self.active_index as u64 + per_page > count {
                count - 1
            } else {
                self.active_index as u64 + per_page
            };
            if index < count {
                self.set_active_item(index as u32);
            }
        }
    }
}

} // verus!
