//! A pane: the cursor, selection and navigation state of one directory view,
//! and the row window it offers to the list widget.

use crate::api::{
    first_index, lemma_first_index, lemma_first_index_prefix_full, value_text, Error, File,
    FileView, Value, ValueView,
};
use crate::backend::path_key;
use crate::render::{cell_of, render_cell, Cell, Column, Row, RowView};
use vstd::prelude::*;

verus! {

/// The path of a file: its first field called `path`, by its path if it
/// is a path value and by its text otherwise; empty if there is none.
pub open spec fn spec_get_path(f: FileView) -> Seq<char> {
    match first_index(f.names, path_key()) {
        Some(i) => match f.fields[i as int] {
            ValueView::Path { path, .. } => path,
            v => value_text(v),
        },
        None => Seq::empty(),
    }
}

/// The path of each file of a listing.
pub open spec fn paths_of(files: Seq<FileView>) -> Seq<Seq<char>> {
    files.map_values(|f: FileView| spec_get_path(f))
}

/// Whether a file has a field called `path`, and so can be entered.
pub open spec fn navigable(f: FileView) -> bool {
    first_index(f.names, path_key()) is Some
}

/// The listing with the selection mark of entry `c` flipped.
pub open spec fn toggle_at(files: Seq<FileView>, c: int) -> Seq<FileView> {
    files.update(c, FileView { selected: !files[c].selected, ..files[c] })
}

/// Where the cursor lands after a listing is replaced: on the first entry
/// whose path is `selected`, else on the first entry.
pub open spec fn landing(selected: Option<Seq<char>>, files: Seq<FileView>) -> nat {
    match selected {
        Some(p) => match first_index(paths_of(files), p) {
            Some(i) => i,
            None => 0,
        },
        None => 0,
    }
}

/// The row window `[start, end)` that a request for `count` rows from
/// `index` gets out of `len` rows: the part of the request that exists.
pub open spec fn window_start(index: int, len: int) -> int {
    if index < 0 {
        0
    } else if index > len {
        len
    } else {
        index
    }
}

/// The end of the row window; never before its start.
pub open spec fn window_end(index: int, count: int, len: int) -> int {
    let e = index + count;
    if e < window_start(index, len) {
        window_start(index, len)
    } else if e > len {
        len
    } else {
        e
    }
}

/// The rendered row of a file.
pub open spec fn row_of(f: FileView, active: bool) -> RowView {
    RowView { active, selected: f.selected, cells: f.fields.map_values(|v: ValueView| cell_of(v)) }
}

/// The last-fetched listing of a pane and its cursor, as the list widget
/// reads them.
pub struct FilesDataSource {
    active_index: usize,
    columns: Vec<Column>,
    files: Vec<File>,
}

/// The model of a [`FilesDataSource`].
pub struct DataSourceView {
    pub cursor: int,
    pub columns: Seq<Seq<char>>,
    pub files: Seq<FileView>,
}

/// Views of a list of files.
pub open spec fn files_view(files: Seq<File>) -> Seq<FileView> {
    files.map_values(|f: File| f@)
}

impl View for FilesDataSource {
    type V = DataSourceView;

    closed spec fn view(&self) -> DataSourceView {
        DataSourceView {
            cursor: self.active_index as int,
            columns: self.columns@.map_values(|c: Column| c.spec_name()),
            files: files_view(self.files@),
        }
    }
}

impl DataSourceView {
    /// The cursor is on an entry, or at 0 when there is none.
    pub open spec fn cursor_valid(self) -> bool {
        if self.files.len() == 0 {
            self.cursor == 0
        } else {
            0 <= self.cursor < self.files.len()
        }
    }
}

impl FilesDataSource {
    /// An empty listing without columns.
    pub fn new() -> (r: FilesDataSource)
        ensures
            r@.cursor == 0,
            r@.columns.len() == 0,
            r@.files.len() == 0,
            r@.cursor_valid(),
    {
        let r = FilesDataSource { active_index: 0, columns: Vec::new(), files: Vec::new() };
        assert(r@.files =~= Seq::<FileView>::empty());
        assert(r@.columns =~= Seq::<Seq<char>>::empty());
        r
    }

    /// The index of the entry under the cursor.
    pub fn cursor(&self) -> (r: usize)
        ensures
            r == self@.cursor,
    {
        self.active_index
    }

    /// The titles of the columns, in order.
    pub fn columns(&self) -> (r: Vec<String>)
        ensures
            r@.map_values(|s: String| s@) == self@.columns,
    {
        let mut r: Vec<String> = Vec::new();
        let mut i: usize = 0;
        while i < self.columns.len()
            invariant
                i <= self.columns.len(),
                r.len() == i,
                forall|j: int| 0 <= j < i ==> #[trigger] r@[j]@ == self.columns@[j].spec_name(),
            decreases self.columns.len() - i,
        {
            r.push(String::from_str(self.columns[i].get_name()));
            i = i + 1;
        }
        assert(r@.map_values(|s: String| s@) =~= self@.columns);
        r
    }

    /// The number of rows available.
    pub fn row_count(&self) -> (r: usize)
        ensures
            r == self@.files.len(),
    {
        self.files.len()
    }

    /// The rows from `row_index` on, at most `row_count` of them, that
    /// exist: a window past the end is cut short, never padded.
    pub fn rows(&self, row_index: i32, row_count: i32) -> (r: Vec<Row>)
        ensures
            ({
                let len = self@.files.len() as int;
                let start = window_start(row_index as int, len);
                let end = window_end(row_index as int, row_count as int, len);
                &&& r.len() == end - start
                &&& forall|k: int|
                    0 <= k < r.len() ==> #[trigger] r@[k]@ == row_of(
                        self@.files[start + k],
                        start + k == self@.cursor,
                    )
            }),
    {
        let len = self.files.len();
        let ghost glen = len as int;
        let ri = row_index as i128;
        let e = ri + row_count as i128;
        let start: usize = if ri < 0 {
            0
        } else if ri > len as i128 {
            len
        } else {
            ri as usize
        };
        let end: usize = if e < start as i128 {
            start
        } else if e > len as i128 {
            len
        } else {
            e as usize
        };
        assert(start == window_start(row_index as int, glen));
        assert(end == window_end(row_index as int, row_count as int, glen));
        let mut rows: Vec<Row> = Vec::new();
        let mut i: usize = start;
        while i < end
            invariant
                start <= i <= end <= len,
                len == self.files.len(),
                rows.len() == i - start,
                forall|k: int|
                    0 <= k < rows.len() ==> #[trigger] rows@[k]@ == row_of(
                        self@.files[start + k],
                        start + k == self@.cursor,
                    ),
            decreases end - i,
        {
            let row = self.render_row(i);
            rows.push(row);
            i = i + 1;
        }
        rows
    }

    /// The row of entry `i`.
    fn render_row(&self, i: usize) -> (r: Row)
        requires
            i < self@.files.len(),
        ensures
            r@ == row_of(self@.files[i as int], i == self@.cursor),
    {
        let file = &self.files[i];
        let n = file.field_count();
        let mut cells: Vec<Cell> = Vec::new();
        let mut j: usize = 0;
        while j < n
            invariant
                j <= n,
                n == file@.fields.len(),
                n == file@.names.len(),
                cells.len() == j,
                forall|k: int| 0 <= k < j ==> #[trigger] cells@[k]@ == cell_of(file@.fields[k]),
            decreases n - j,
        {
            cells.push(render_cell(file.field(j)));
            j = j + 1;
        }
        let row = Row { active: i == self.active_index, selected: file.selected(), cells };
        assert(row@.cells =~= file@.fields.map_values(|v: ValueView| cell_of(v)));
        row
    }
}

/// The path of a file: see [`spec_get_path`].
pub fn get_path(file: &File) -> (r: String)
    ensures
        r@ == spec_get_path(file@),
{
    let index = file.get_field_index("path");
    proof {
        reveal_strlit("path");
        assert("path"@ =~= path_key());
    }
    get_path_at(file, index)
}

/// The text under field `path_index` of a file, by its path if it is a path
/// value; empty if no index is given.
pub fn get_path_at(file: &File, path_index: Option<usize>) -> (r: String)
    requires
        path_index is Some ==> path_index->0 < file@.names.len(),
    ensures
        r@ == (match path_index {
            Some(i) => match file@.fields[i as int] {
                ValueView::Path { path, .. } => path,
                v => value_text(v),
            },
            None => Seq::empty(),
        }),
{
    match path_index {
        Some(i) => match file.field(i) {
            Value::Path { path, .. } => path.clone(),
            v => v.text(),
        },
        None => String::new(),
    }
}

/// The model of a [`Pane`].
pub struct PaneView {
    /// Whether the pane is the active one.
    pub active: bool,
    /// The directory whose listing the pane shows.
    pub parent: Seq<char>,
    /// The schema that the pane's listings use.
    pub field_names: Seq<Seq<char>>,
    /// The last listing.
    pub files: Seq<FileView>,
    /// The index of the entry under the cursor.
    pub cursor: int,
    /// How many rows one page holds.
    pub page: int,
}

impl PaneView {
    /// The cursor is on an entry, or at 0 when there is none.
    pub open spec fn cursor_valid(self) -> bool {
        if self.files.len() == 0 {
            self.cursor == 0
        } else {
            0 <= self.cursor < self.files.len()
        }
    }

    /// One entry up, unless at the top.
    pub open spec fn moved_up(self) -> PaneView {
        PaneView {
            cursor: if self.cursor > 0 {
                self.cursor - 1
            } else {
                self.cursor
            },
            ..self
        }
    }

    /// One entry down, unless at the bottom.
    pub open spec fn moved_down(self) -> PaneView {
        if self.files.len() == 0 {
            self
        } else {
            PaneView {
                cursor: if self.cursor + 1 < self.files.len() {
                    self.cursor + 1
                } else {
                    self.files.len() - 1
                },
                ..self
            }
        }
    }

    /// The first entry.
    pub open spec fn moved_home(self) -> PaneView {
        PaneView { cursor: 0, ..self }
    }

    /// The last entry; nothing changes in an empty listing.
    pub open spec fn moved_end(self) -> PaneView {
        if self.files.len() == 0 {
            self
        } else {
            PaneView { cursor: self.files.len() - 1, ..self }
        }
    }

    /// One page up, stopping at the first entry.
    pub open spec fn paged_up(self) -> PaneView {
        if self.files.len() == 0 {
            self
        } else {
            PaneView {
                cursor: if self.cursor >= self.page {
                    self.cursor - self.page
                } else {
                    0
                },
                ..self
            }
        }
    }

    /// One page down, stopping at the last entry.
    pub open spec fn paged_down(self) -> PaneView {
        if self.files.len() == 0 {
            self
        } else {
            PaneView {
                cursor: if self.cursor + self.page <= self.files.len() - 1 {
                    self.cursor + self.page
                } else {
                    self.files.len() - 1
                },
                ..self
            }
        }
    }

    /// The entry under the cursor with its selection mark flipped.
    pub open spec fn toggled(self) -> PaneView {
        if self.files.len() == 0 {
            self
        } else {
            PaneView { files: toggle_at(self.files, self.cursor), ..self }
        }
    }

    /// A new listing, with the cursor on the entry whose path is `selected`.
    pub open spec fn updated(self, selected: Option<Seq<char>>, files: Seq<FileView>) -> PaneView {
        PaneView { files, cursor: landing(selected, files) as int, ..self }
    }

    /// Whether the entry under the cursor can be entered.
    pub open spec fn can_enter(self) -> bool {
        self.files.len() > 0 && navigable(self.files[self.cursor])
    }

    /// The directory that entering the entry under the cursor leads to.
    pub open spec fn enter_target(self) -> Seq<char> {
        spec_get_path(self.files[self.cursor])
    }

    /// The pane once `target` is entered with its listing `files`: the
    /// cursor lands on the entry of the directory left, if it is listed.
    pub open spec fn entered(self, target: Seq<char>, files: Seq<FileView>) -> PaneView {
        PaneView { parent: target, ..self.updated(Some(self.parent), files) }
    }
}

/// The state of one directory view.
pub struct Pane {
    active: bool,
    field_names: Vec<String>,
    data_source: FilesDataSource,
    parent: String,
    page: usize,
}

impl View for Pane {
    type V = PaneView;

    closed spec fn view(&self) -> PaneView {
        PaneView {
            active: self.active,
            parent: self.parent@,
            field_names: self.field_names@.map_values(|s: String| s@),
            files: self.data_source@.files,
            cursor: self.data_source@.cursor,
            page: self.page as int,
        }
    }
}

/// The schema of the records that a pane lists.
pub open spec fn pane_schema() -> Seq<Seq<char>> {
    seq![
        seq!['p', 'a', 't', 'h'],
        seq!['e', 'x', 't', 'e', 'n', 's', 'i', 'o', 'n'],
        seq!['s', 'i', 'z', 'e'],
        seq!['c', 'r', 'e', 'a', 't', 'e', 'd', '_', 'o', 'n'],
        seq!['a', 't', 't', 'r', 'i', 'b', 'u', 't', 'e', 's'],
    ]
}

/// The titles of a pane's columns.
pub open spec fn pane_columns() -> Seq<Seq<char>> {
    seq![
        seq!['N', 'a', 'm', 'e'],
        seq!['E', 'x', 't'],
        seq!['S', 'i', 'z', 'e'],
        seq!['D', 'a', 't', 'e'],
        seq!['A', 't', 't', 'r', 'i', 'b', 'u', 't', 'e', 's'],
    ]
}

/// The schema of the records that a pane lists: path, extension, size,
/// created_on, attributes.
pub fn default_field_names() -> (r: Vec<String>)
    ensures
        r@.map_values(|s: String| s@) == pane_schema(),
{
    let mut r: Vec<String> = Vec::new();
    r.push(String::from_str("path"));
    r.push(String::from_str("extension"));
    r.push(String::from_str("size"));
    r.push(String::from_str("created_on"));
    r.push(String::from_str("attributes"));
    proof {
        reveal_strlit("path");
        reveal_strlit("extension");
        reveal_strlit("size");
        reveal_strlit("created_on");
        reveal_strlit("attributes");
        assert("path"@ =~= pane_schema()[0]);
        assert("extension"@ =~= pane_schema()[1]);
        assert("size"@ =~= pane_schema()[2]);
        assert("created_on"@ =~= pane_schema()[3]);
        assert("attributes"@ =~= pane_schema()[4]);
        assert(r@.map_values(|s: String| s@) =~= pane_schema());
    }
    r
}

impl Pane {
    /// A pane on the directory `root`, with an empty listing until its first
    /// update.
    pub fn new(active: bool, root: &File) -> (r: Pane)
        ensures
            r@.active == active,
            r@.parent == spec_get_path(root@),
            r@.field_names == pane_schema(),
            r@.files.len() == 0,
            r@.cursor == 0,
            r@.page == 20,
            r@.cursor_valid(),
            r.columns_view() == pane_columns(),
    {
        let mut data_source = FilesDataSource::new();
        data_source.add_column(Column::new("Name"));
        data_source.add_column(Column::new("Ext"));
        data_source.add_column(Column::new("Size"));
        data_source.add_column(Column::new("Date"));
        data_source.add_column(Column::new("Attributes"));
        proof {
            reveal_strlit("Name");
            reveal_strlit("Ext");
            reveal_strlit("Size");
            reveal_strlit("Date");
            reveal_strlit("Attributes");
            assert("Name"@ =~= pane_columns()[0]);
            assert("Ext"@ =~= pane_columns()[1]);
            assert("Size"@ =~= pane_columns()[2]);
            assert("Date"@ =~= pane_columns()[3]);
            assert("Attributes"@ =~= pane_columns()[4]);
            assert(data_source@.columns =~= pane_columns());
        }
        let pane = Pane {
            active,
            field_names: default_field_names(),
            data_source,
            parent: get_path(root),
            page: 20,
        };
        pane
    }

    /// The titles of the pane's columns.
    pub open spec fn columns_view(&self) -> Seq<Seq<char>> {
        self.data_source_view().columns
    }

    /// The model of the pane's listing.
    pub closed spec fn data_source_view(&self) -> DataSourceView {
        self.data_source@
    }

    /// What the list widget reads: the listing, its cursor and the columns.
    pub fn data_source(&self) -> (r: &FilesDataSource)
        ensures
            r@ == self.data_source_view(),
            r@.files == self@.files,
            r@.cursor == self@.cursor,
    {
        &self.data_source
    }

    /// Whether the pane is the active one.
    pub fn is_active(&self) -> (r: bool)
        ensures
            r == self@.active,
    {
        self.active
    }

    /// The directory that the pane shows.
    pub fn parent(&self) -> (r: String)
        ensures
            r@ == self@.parent,
    {
        self.parent.clone()
    }

    /// The schema of the pane's records.
    pub fn field_names(&self) -> (r: Vec<String>)
        ensures
            r@.map_values(|s: String| s@) == self@.field_names,
    {
        let mut r: Vec<String> = Vec::new();
        let mut i: usize = 0;
        while i < self.field_names.len()
            invariant
                i <= self.field_names.len(),
                r.len() == i,
                forall|j: int| 0 <= j < i ==> #[trigger] r@[j]@ == self.field_names@[j]@,
            decreases self.field_names.len() - i,
        {
            r.push(self.field_names[i].clone());
            i = i + 1;
        }
        assert(r@.map_values(|s: String| s@) =~= self@.field_names);
        r
    }

    /// The entry under the cursor lies in the listing whenever the listing
    /// is not empty.
    pub fn cursor(&self) -> (r: usize)
        requires
            self@.cursor_valid(),
        ensures
            r == self@.cursor,
            self@.files.len() == 0 ==> r == 0,
            self@.files.len() > 0 ==> r < self@.files.len(),
    {
        self.data_source.cursor()
    }

    /// Replaces the listing with `listing` and puts the cursor on the first
    /// entry whose path is `selected_path`, else on the first entry. A
    /// listing that failed leaves the pane as it was.
    pub fn update(&mut self, selected_path: Option<&str>, listing: Result<Vec<File>, Error>)
        requires
            old(self)@.cursor_valid(),
        ensures
            final(self)@.cursor_valid(),
            match listing {
                Ok(files) => final(self)@ == old(self)@.updated(
                    match selected_path {
                        Some(p) => Some(p@),
                        None => None,
                    },
                    files_view(files@),
                ),
                Err(_) => final(self)@ == old(self)@,
            },
            final(self).columns_view() == old(self).columns_view(),
    {
        match listing {
            Ok(files) => {
                let ghost fv = files_view(files@);
                let ghost sel = match selected_path {
                    Some(p) => Some(p@),
                    None => None,
                };
                let active_index = match selected_path {
                    Some(p) => find_path(&files, p),
                    None => 0,
                };
                assert(active_index == landing(sel, fv));
                self.data_source.replace(files, active_index);
            },
            Err(_) => {},
        }
    }

    /// The path of the entry under the cursor, if there is one.
    pub fn get_active_path(&self) -> (r: Option<String>)
        requires
            self@.cursor_valid(),
        ensures
            match r {
                Some(p) => self@.files.len() > 0 && p@ == spec_get_path(
                    self@.files[self@.cursor],
                ),
                None => self@.files.len() == 0,
            },
    {
        let c = self.data_source.cursor();
        if c < self.data_source.row_count() {
            Some(self.data_source.path_at(c))
        } else {
            None
        }
    }

    /// Sets the heights of the viewport and of one row, which fix the size
    /// of a page.
    pub fn set_files_height(&mut self, files_height: i32, item_height: i32)
        requires
            files_height >= 0,
            item_height > 0,
            old(self)@.cursor_valid(),
        ensures
            final(self)@.cursor_valid(),
            final(self)@ == (PaneView { page: files_height / item_height, ..old(self)@ }),
            final(self).columns_view() == old(self).columns_view(),
    {
        self.page = (files_height / item_height) as usize;
    }

    /// One entry up, unless at the top.
    pub fn move_up(&mut self)
        requires
            old(self)@.cursor_valid(),
        ensures
            final(self)@.cursor_valid(),
            final(self)@ == old(self)@.moved_up(),
            final(self).columns_view() == old(self).columns_view(),
    {
        let c = self.data_source.cursor();
        if c != 0 {
            self.data_source.set_cursor(c - 1);
        }
    }

    /// One entry down, unless at the bottom; nothing on an empty listing.
    pub fn move_down(&mut self)
        requires
            old(self)@.cursor_valid(),
        ensures
            final(self)@.cursor_valid(),
            final(self)@ == old(self)@.moved_down(),
            final(self).columns_view() == old(self).columns_view(),
    {
        let n = self.data_source.row_count();
        if n > 0 {
            let c = self.data_source.cursor();
            let next = if c + 1 < n {
                c + 1
            } else {
                n - 1
            };
            self.data_source.set_cursor(next);
        }
    }

    /// The first entry.
    pub fn move_home(&mut self)
        requires
            old(self)@.cursor_valid(),
        ensures
            final(self)@.cursor_valid(),
            final(self)@ == old(self)@.moved_home(),
            final(self).columns_view() == old(self).columns_view(),
    {
        self.data_source.set_cursor(0);
    }

    /// The last entry; nothing on an empty listing.
    pub fn move_end(&mut self)
        requires
            old(self)@.cursor_valid(),
        ensures
            final(self)@.cursor_valid(),
            final(self)@ == old(self)@.moved_end(),
            final(self).columns_view() == old(self).columns_view(),
    {
        let n = self.data_source.row_count();
        if n > 0 {
            self.data_source.set_cursor(n - 1);
        }
    }

    /// One page up, stopping at the first entry.
    pub fn page_up(&mut self)
        requires
            old(self)@.cursor_valid(),
        ensures
            final(self)@.cursor_valid(),
            final(self)@ == old(self)@.paged_up(),
            final(self).columns_view() == old(self).columns_view(),
    {
        let n = self.data_source.row_count();
        if n > 0 {
            let page = self.page;
            let c = self.data_source.cursor();
            let next = if c >= page {
                c - page
            } else {
                0
            };
            self.data_source.set_cursor(next);
        }
    }

    /// One page down, stopping at the last entry.
    pub fn page_down(&mut self)
        requires
            old(self)@.cursor_valid(),
        ensures
            final(self)@.cursor_valid(),
            final(self)@ == old(self)@.paged_down(),
            final(self).columns_view() == old(self).columns_view(),
    {
        let n = self.data_source.row_count();
        if n > 0 {
            let page = self.page;
            let c = self.data_source.cursor();
            let next = if page <= n - 1 - c {
                c + page
            } else {
                n - 1
            };
            self.data_source.set_cursor(next);
        }
    }

    /// Flips the selection mark of the entry under the cursor; the cursor
    /// stays.
    pub fn toggle_select(&mut self)
        requires
            old(self)@.cursor_valid(),
        ensures
            final(self)@.cursor_valid(),
            final(self)@ == old(self)@.toggled(),
            final(self).columns_view() == old(self).columns_view(),
    {
        self.data_source.toggle_at_cursor();
    }

    /// Marks the pane active or not; the listing is untouched.
    pub fn activate(&mut self, active: bool)
        requires
            old(self)@.cursor_valid(),
        ensures
            final(self)@.cursor_valid(),
            final(self)@ == (PaneView { active, ..old(self)@ }),
            final(self).columns_view() == old(self).columns_view(),
    {
        self.active = active;
    }

    /// The directory that entering the entry under the cursor leads to, if
    /// that entry can be entered. The pane stays as it is until the listing
    /// of that directory is in: see [`enter`](Self::enter).
    pub fn enter_item(&self) -> (r: Option<String>)
        requires
            self@.cursor_valid(),
        ensures
            self@.can_enter() ==> r is Some && r->0@ == self@.enter_target(),
            !self@.can_enter() ==> r is None,
    {
        let c = self.data_source.cursor();
        if c < self.data_source.row_count() && self.data_source.navigable_at(c) {
            Some(self.data_source.path_at(c))
        } else {
            None
        }
    }

    /// Makes `target` the pane's directory with its listing, the cursor on
    /// the entry of the directory left. A listing that failed leaves the
    /// pane as it was, its directory included.
    pub fn enter(&mut self, target: &str, listing: Result<Vec<File>, Error>)
        requires
            old(self)@.cursor_valid(),
        ensures
            final(self)@.cursor_valid(),
            match listing {
                Ok(files) => final(self)@ == old(self)@.entered(target@, files_view(files@)),
                Err(_) => final(self)@ == old(self)@,
            },
            final(self).columns_view() == old(self).columns_view(),
    {
        match listing {
            Ok(files) => {
                let previous = self.parent.clone();
                self.update(Some(previous.as_str()), Ok(files));
                self.parent = String::from_str(target);
            },
            Err(_) => {},
        }
    }
}

/// The first index of `files` whose path is `path`, else 0.
fn find_path(files: &Vec<File>, path: &str) -> (r: usize)
    ensures
        r == landing(Some(path@), files_view(files@)),
        files.len() > 0 ==> r < files.len(),
        files.len() == 0 ==> r == 0,
{
    let ghost paths = paths_of(files_view(files@));
    let wanted = String::from_str(path);
    let mut i: usize = 0;
    while i < files.len()
        invariant
            i <= files.len(),
            wanted@ == path@,
            paths == paths_of(files_view(files@)),
            paths.len() == files.len(),
            first_index(paths.subrange(0, i as int), path@) is None,
        decreases files.len() - i,
    {
        let p = get_path(&files[i]);
        assert(paths.subrange(0, i + 1).drop_last() =~= paths.subrange(0, i as int));
        assert(paths[i as int] == p@);
        if p == wanted {
            proof {
                lemma_first_index_prefix_full(paths, path@, i as int);
            }
            return i;
        }
        i = i + 1;
    }
    assert(paths.subrange(0, i as int) =~= paths);
    0
}

impl FilesDataSource {
    fn add_column(&mut self, column: Column)
        ensures
            final(self)@ == (DataSourceView {
                columns: old(self)@.columns.push(column.spec_name()),
                ..old(self)@
            }),
    {
        self.columns.push(column);
        assert(self@.columns =~= old(self)@.columns.push(column.spec_name()));
    }

    fn set_cursor(&mut self, c: usize)
        requires
            old(self)@.files.len() == 0 ==> c == 0,
            old(self)@.files.len() > 0 ==> c < old(self)@.files.len(),
        ensures
            final(self)@ == (DataSourceView { cursor: c as int, ..old(self)@ }),
    {
        self.active_index = c;
    }

    /// Replaces the listing and puts the cursor on entry `c`.
    fn replace(&mut self, files: Vec<File>, c: usize)
        requires
            files.len() == 0 ==> c == 0,
            files.len() > 0 ==> c < files.len(),
        ensures
            final(self)@ == (DataSourceView {
                files: files_view(files@),
                cursor: c as int,
                ..old(self)@
            }),
    {
        self.files = files;
        self.active_index = c;
    }

    fn path_at(&self, i: usize) -> (r: String)
        requires
            i < self@.files.len(),
        ensures
            r@ == spec_get_path(self@.files[i as int]),
    {
        get_path(&self.files[i])
    }

    fn navigable_at(&self, i: usize) -> (r: bool)
        requires
            i < self@.files.len(),
        ensures
            r == navigable(self@.files[i as int]),
    {
        let index = self.files[i].get_field_index("path");
        proof {
            reveal_strlit("path");
            assert("path"@ =~= path_key());
        }
        index.is_some()
    }

    fn toggle_at_cursor(&mut self)
        requires
            old(self)@.cursor_valid(),
        ensures
            old(self)@.files.len() == 0 ==> final(self)@ == old(self)@,
            old(self)@.files.len() > 0 ==> final(self)@ == (DataSourceView {
                files: toggle_at(old(self)@.files, old(self)@.cursor),
                ..old(self)@
            }),
    {
        let c = self.active_index;
        if c < self.files.len() {
            self.files[c].toggle_selected();
            assert(self@.files =~= toggle_at(old(self)@.files, old(self)@.cursor));
        }
    }
}

/// Every move keeps the cursor on an entry, or at 0 when there is none.
pub proof fn lemma_moves_keep_cursor_in_range(v: PaneView)
    requires
        v.cursor_valid(),
        v.page >= 0,
    ensures
        v.moved_up().cursor_valid(),
        v.moved_down().cursor_valid(),
        v.moved_home().cursor_valid(),
        v.moved_end().cursor_valid(),
        v.paged_up().cursor_valid(),
        v.paged_down().cursor_valid(),
{
}

/// Toggling the selection twice gives back the listing as it was.
pub proof fn lemma_toggle_twice(v: PaneView)
    requires
        v.cursor_valid(),
    ensures
        v.toggled().toggled() == v,
{
    if v.files.len() > 0 {
        assert(toggle_at(toggle_at(v.files, v.cursor), v.cursor) =~= v.files);
    }
}

/// A row window never reaches past the last row, nor holds more rows than
/// exist from the requested index on.
pub proof fn lemma_window_within(index: int, count: int, len: int)
    requires
        len >= 0,
    ensures
        0 <= window_start(index, len) <= window_end(index, count, len) <= len,
        index >= 0 ==> window_end(index, count, len) - window_start(index, len) <= if len
            >= index {
            len - index
        } else {
            0
        },
        index >= len ==> window_end(index, count, len) == window_start(index, len),
{
}

/// Entering a directory and then leaving it through the entry that leads
/// back puts the pane back in the directory it came from, with the cursor
/// on the directory just left wherever the new listing still holds it.
pub proof fn lemma_return_to_origin(v: PaneView, inside: Seq<FileView>, outside: Seq<FileView>)
    requires
        v.cursor_valid(),
        v.can_enter(),
        first_index(paths_of(inside), v.parent) is Some,
        navigable(inside[first_index(paths_of(inside), v.parent)->0 as int]),
    ensures
        ({
            let left = v.enter_target();
            let w = v.entered(left, inside);
            let back = w.entered(w.enter_target(), outside);
            &&& w.parent == left
            &&& w.cursor_valid()
            &&& w.can_enter()
            &&& w.enter_target() == v.parent
            &&& back.parent == v.parent
            &&& first_index(paths_of(outside), left) is Some ==> back.cursor == first_index(
                paths_of(outside),
                left,
            )->0 && spec_get_path(back.files[back.cursor]) == left
        }),
{
    let left = v.enter_target();
    lemma_first_index(paths_of(inside), v.parent);
    lemma_first_index(paths_of(outside), left);
    let i = first_index(paths_of(inside), v.parent)->0 as int;
    assert(paths_of(inside)[i] == spec_get_path(inside[i]));
    match first_index(paths_of(outside), left) {
        Some(k) => {
            assert(paths_of(outside)[k as int] == spec_get_path(outside[k as int]));
        },
        None => {},
    }
}

} // verus!
