//! The record model shared by every backend: values, icons and files.

use crate::text::{decimal, decimal_string};
use std::rc::Rc;
use vstd::prelude::*;

verus! {

/// An error of a backend.
#[derive(Debug)]
pub enum Error {
    /// An I/O operation failed; the message says why.
    IoError(String),
}

impl Error {
    /// The message of the error.
    pub fn message(&self) -> (r: String)
        ensures
            match self {
                Error::IoError(m) => r@ == m@,
            },
    {
        match self {
            Error::IoError(m) => m.clone(),
        }
    }
}

/// Where the icon of a path value comes from.
#[derive(Debug)]
pub enum Icon {
    /// Looked up from the file at this local path.
    Local(String),
    /// Looked up from the type that this pseudo path stands for; the path
    /// never names a real file.
    Shell(String),
}

/// The model of an [`Icon`].
pub enum IconView {
    Local(Seq<char>),
    Shell(Seq<char>),
}

impl View for Icon {
    type V = IconView;

    open spec fn view(&self) -> IconView {
        match self {
            Icon::Local(p) => IconView::Local(p@),
            Icon::Shell(p) => IconView::Shell(p@),
        }
    }
}

impl Icon {
    /// A copy of the icon.
    pub fn clone_icon(&self) -> (r: Icon)
        ensures
            r@ == self@,
    {
        match self {
            Icon::Local(p) => Icon::Local(p.clone()),
            Icon::Shell(p) => Icon::Shell(p.clone()),
        }
    }
}

/// One field of a file record.
#[derive(Debug)]
pub enum Value {
    String { string: String },
    Path { path: String, name: String, icon: Icon },
    Size { bytes: u64 },
}

/// The model of a [`Value`].
pub enum ValueView {
    Text(Seq<char>),
    Path { path: Seq<char>, name: Seq<char>, icon: IconView },
    Size(u64),
}

impl View for Value {
    type V = ValueView;

    open spec fn view(&self) -> ValueView {
        match self {
            Value::String { string } => ValueView::Text(string@),
            Value::Path { path, name, icon } => ValueView::Path {
                path: path@,
                name: name@,
                icon: icon@,
            },
            Value::Size { bytes } => ValueView::Size(*bytes),
        }
    }
}

/// The text that a value shows: a string as it is, a path by its display
/// name, a size as its decimal digits.
pub open spec fn value_text(v: ValueView) -> Seq<char> {
    match v {
        ValueView::Text(s) => s,
        ValueView::Path { name, .. } => name,
        ValueView::Size(b) => decimal(b as nat),
    }
}

impl Value {
    /// The text that the value shows.
    pub fn text(&self) -> (r: String)
        ensures
            r@ == value_text(self@),
    {
        match self {
            Value::String { string } => string.clone(),
            Value::Path { name, .. } => name.clone(),
            Value::Size { bytes } => decimal_string(*bytes),
        }
    }
}

/// The model of a [`File`]: its schema, its fields and its selection mark.
pub struct FileView {
    pub selected: bool,
    pub names: Seq<Seq<char>>,
    pub fields: Seq<ValueView>,
}

/// One entry of a listing: an ordered record whose fields follow a schema
/// of field names.
pub struct File {
    selected: bool,
    field_names: Rc<Vec<String>>,
    fields: Vec<Value>,
}

/// The views of a list of strings.
pub open spec fn names_view(names: Seq<String>) -> Seq<Seq<char>> {
    names.map_values(|s: String| s@)
}

/// The views of a list of values.
pub open spec fn values_view(values: Seq<Value>) -> Seq<ValueView> {
    values.map_values(|v: Value| v@)
}

/// The first position at which `name` stands in `names`.
pub open spec fn first_index(names: Seq<Seq<char>>, name: Seq<char>) -> Option<nat>
    decreases names.len(),
{
    if names.len() == 0 {
        None
    } else {
        match first_index(names.drop_last(), name) {
            Some(i) => Some(i),
            None => if names.last() == name {
                Some((names.len() - 1) as nat)
            } else {
                None
            },
        }
    }
}

/// `first_index` finds the first match, and only a match.
pub proof fn lemma_first_index(names: Seq<Seq<char>>, name: Seq<char>)
    ensures
        match first_index(names, name) {
            Some(i) => i < names.len() && names[i as int] == name && forall|j: int|
                0 <= j < i ==> names[j] != name,
            None => forall|j: int| 0 <= j < names.len() ==> names[j] != name,
        },
    decreases names.len(),
{
    if names.len() > 0 {
        let shorter = names.drop_last();
        lemma_first_index(shorter, name);
        assert(forall|j: int| 0 <= j < shorter.len() ==> shorter[j] == names[j]);
    }
}

impl View for File {
    type V = FileView;

    closed spec fn view(&self) -> FileView {
        FileView {
            selected: self.selected,
            names: names_view(self.field_names@),
            fields: values_view(self.fields@),
        }
    }
}

impl File {
    /// Every file has exactly one field for each name of its schema.
    #[verifier::type_invariant]
    closed spec fn schema_matches(self) -> bool {
        self.fields.len() == self.field_names.len()
    }

    /// A new, unselected file with the given schema and fields.
    pub fn new(field_names: &Rc<Vec<String>>, fields: Vec<Value>) -> (r: File)
        requires
            fields.len() == field_names.len(),
        ensures
            r@.selected == false,
            r@.names == names_view(field_names@),
            r@.fields == values_view(fields@),
    {
        File { selected: false, field_names: share_names(field_names), fields }
    }

    /// The position of the first field called `name`.
    pub fn get_field_index(&self, name: &str) -> (r: Option<usize>)
        ensures
            match r {
                Some(i) => i < self@.names.len() && first_index(self@.names, name@) == Some(
                    i as nat,
                ),
                None => first_index(self@.names, name@) is None,
            },
    {
        let names: &Vec<String> = &self.field_names;
        let ghost target = name@;
        let wanted = String::from_str(name);
        let mut i: usize = 0;
        while i < names.len()
            invariant
                0 <= i <= names.len(),
                names@ == self.field_names@,
                wanted@ == target,
                target == name@,
                first_index(names_view(names@.subrange(0, i as int)), target) is None,
            decreases names.len() - i,
        {
            proof {
                lemma_names_prefix(names@, i as int);
            }
            if names[i] == wanted {
                proof {
                    assert(names_view(names@).subrange(0, i as int) =~= names_view(
                        names@.subrange(0, i as int),
                    ));
                    lemma_first_index_prefix_full(names_view(names@), target, i as int);
                }
                return Some(i);
            }
            i = i + 1;
        }
        proof {
            assert(names@.subrange(0, i as int) == names@);
        }
        None
    }

    /// Whether the file is selected.
    pub fn selected(&self) -> (r: bool)
        ensures
            r == self@.selected,
    {
        self.selected
    }

    /// Flips the selection mark; nothing else changes.
    pub fn toggle_selected(&mut self)
        ensures
            final(self)@ == (FileView { selected: !old(self)@.selected, ..old(self)@ }),
    {
        proof {
            use_type_invariant(&*self);
        }
        self.selected = !self.selected;
    }

    /// The field at position `index`.
    pub fn field(&self, index: usize) -> (r: &Value)
        requires
            index < self@.names.len(),
        ensures
            r@ == self@.fields[index as int],
    {
        proof {
            use_type_invariant(self);
        }
        &self.fields[index]
    }

    /// The number of fields.
    pub fn field_count(&self) -> (r: usize)
        ensures
            r == self@.fields.len(),
            r == self@.names.len(),
    {
        proof {
            use_type_invariant(self);
        }
        self.fields.len()
    }

    /// The schema of the file.
    pub fn field_names(&self) -> (r: &Vec<String>)
        ensures
            names_view(r@) == self@.names,
    {
        &self.field_names
    }
}

/// Prefixes of a list of strings and of their views agree.
proof fn lemma_names_prefix(names: Seq<String>, i: int)
    requires
        0 <= i < names.len(),
    ensures
        names_view(names.subrange(0, i + 1)).drop_last() == names_view(names.subrange(0, i)),
        names_view(names.subrange(0, i + 1)).last() == names[i]@,
{
    assert(names_view(names.subrange(0, i + 1)).drop_last() =~= names_view(names.subrange(0, i)));
}

/// A first match in a prefix is the first match in the whole list.
pub proof fn lemma_first_index_prefix_full(names: Seq<Seq<char>>, name: Seq<char>, i: int)
    requires
        0 <= i < names.len(),
        names[i] == name,
        first_index(names.subrange(0, i), name) is None,
    ensures
        first_index(names, name) == Some(i as nat),
{
    lemma_first_index(names.subrange(0, i), name);
    lemma_first_index(names, name);
    match first_index(names, name) {
        Some(k) => {
            if k < i {
                assert(names.subrange(0, i)[k as int] == name);
            }
        },
        None => {},
    }
}

/// Relies on `Rc::clone`: the new handle points at the same list.
#[verifier::external_body]
fn share_names(names: &Rc<Vec<String>>) -> (r: Rc<Vec<String>>)
    ensures
        r == *names,
{
    Rc::clone(names)
}

/// A storage backend as the application drives it: it reads the disk or
/// the remote host, and builds its records with the verified rules of
/// [`crate::backend`].
pub trait System {
    /// The record of the backend's root directory.
    fn get_root(&mut self, field_names: &Rc<Vec<String>>) -> Result<File, Error>;

    /// The record of one path.
    fn get_file(&mut self, path: &str, field_names: &Rc<Vec<String>>) -> Result<File, Error>;

    /// The last component of a path, or the path itself.
    fn get_filename(&mut self, path: &str) -> String;

    /// The listing of a directory: the synthetic parent entry, if any, then
    /// every child that could be enumerated.
    fn list_files(&mut self, parent_directory: &File, field_names: &Rc<Vec<String>>) -> Result<
        Vec<File>,
        Error,
    >;
}

/// A source of records that hands them out one at a time.
pub trait Cursor<TFile, TError> {
    fn next() -> Result<TFile, TError>;
}

} // verus!
