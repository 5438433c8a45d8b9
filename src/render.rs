//! What the list widget shows of a value: cells, rows and columns.

use crate::api::{value_text, Icon, IconView, Value, ValueView};
use crate::text::{separated, separated_string};
use vstd::prelude::*;

verus! {

/// A column of the list: its title.
pub struct Column {
    name: String,
}

impl Column {
    /// A column titled `name`.
    pub fn new(name: &str) -> (r: Column)
        ensures
            r.spec_name() == name@,
    {
        Column { name: String::from_str(name) }
    }

    /// The title of the column.
    pub closed spec fn spec_name(&self) -> Seq<char> {
        self.name@
    }

    /// The title of the column.
    pub fn get_name(&self) -> (r: &str)
        ensures
            r@ == self.spec_name(),
    {
        self.name.as_str()
    }
}

/// One rendered cell: its text, whether it is aligned to the right, and
/// the icon the widget should resolve for it.
#[derive(Debug)]
pub struct Cell {
    pub text: String,
    pub align_right: bool,
    pub icon: Option<Icon>,
}

/// The model of a [`Cell`].
pub struct CellView {
    pub text: Seq<char>,
    pub align_right: bool,
    pub icon: Option<IconView>,
}

impl View for Cell {
    type V = CellView;

    open spec fn view(&self) -> CellView {
        CellView {
            text: self.text@,
            align_right: self.align_right,
            icon: match self.icon {
                Some(i) => Some(i@),
                None => None,
            },
        }
    }
}

/// One rendered row of the list.
#[derive(Debug)]
pub struct Row {
    /// Whether the row is the one under the cursor.
    pub active: bool,
    /// Whether the row's entry is selected.
    pub selected: bool,
    /// One cell for each field of the entry.
    pub cells: Vec<Cell>,
}

/// The model of a [`Row`].
pub struct RowView {
    pub active: bool,
    pub selected: bool,
    pub cells: Seq<CellView>,
}

impl View for Row {
    type V = RowView;

    open spec fn view(&self) -> RowView {
        RowView {
            active: self.active,
            selected: self.selected,
            cells: self.cells@.map_values(|c: Cell| c@),
        }
    }
}

/// The cell of a value in the list: a size right-aligned with thousands
/// separators; a path by its name, with its icon; a string as it is.
pub open spec fn cell_of(v: ValueView) -> CellView {
    match v {
        ValueView::Size(b) => CellView { text: separated(b as nat), align_right: true, icon: None },
        ValueView::Path { name, icon, .. } => CellView {
            text: name,
            align_right: false,
            icon: Some(icon),
        },
        ValueView::Text(s) => CellView { text: s, align_right: false, icon: None },
    }
}

/// The cell of a value in the list.
pub fn render_cell(value: &Value) -> (r: Cell)
    ensures
        r@ == cell_of(value@),
{
    match value {
        Value::Size { bytes } => Cell {
            text: separated_string(*bytes),
            align_right: true,
            icon: None,
        },
        Value::Path { name, icon, .. } => Cell {
            text: name.clone(),
            align_right: false,
            icon: Some(icon.clone_icon()),
        },
        Value::String { string } => Cell { text: string.clone(), align_right: false, icon: None },
    }
}

/// Shows a value as its text.
pub struct TextRenderer;

impl TextRenderer {
    pub fn new() -> TextRenderer {
        TextRenderer {  }
    }

    /// The value's text, left-aligned, without icon.
    pub fn render(&self, value: &Value) -> (r: Cell)
        ensures
            r@ == (CellView { text: value_text(value@), align_right: false, icon: None }),
    {
        Cell { text: value.text(), align_right: false, icon: None }
    }
}

/// Shows a value as its text, with the icon of a path.
pub struct NameRenderer {}

impl NameRenderer {
    pub fn new() -> NameRenderer {
        NameRenderer {  }
    }

    /// The value's text, left-aligned, with the icon if it is a path.
    pub fn render(&self, value: &Value) -> (r: Cell)
        ensures
            r@ == (CellView {
                text: value_text(value@),
                align_right: false,
                icon: match value@ {
                    ValueView::Path { icon, .. } => Some(icon),
                    _ => None,
                },
            }),
    {
        let icon = match value {
            Value::Path { icon, .. } => Some(icon.clone_icon()),
            _ => None,
        };
        Cell { text: value.text(), align_right: false, icon }
    }
}

/// Shows a size with thousands separators.
pub struct SizeRenderer;

impl SizeRenderer {
    pub fn new() -> SizeRenderer {
        SizeRenderer {  }
    }

    /// A size right-aligned with thousands separators; anything else as an
    /// empty cell.
    pub fn render(&self, value: &Value) -> (r: Cell)
        ensures
            r@ == (match value@ {
                ValueView::Size(b) => CellView {
                    text: separated(b as nat),
                    align_right: true,
                    icon: None,
                },
                _ => CellView { text: Seq::empty(), align_right: false, icon: None },
            }),
    {
        match value {
            Value::Size { bytes } => Cell {
                text: separated_string(*bytes),
                align_right: true,
                icon: None,
            },
            _ => Cell { text: String::new(), align_right: false, icon: None },
        }
    }
}

} // verus!
