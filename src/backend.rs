//! The local and the remote backend: how a path and what is known of it
//! become a record, and how a directory's scan becomes a listing.
//!
//! The backends hold no I/O here. A caller asks [`list_plan`] which paths
//! to look at, reads them, and hands the result back as a [`DirScan`].

use crate::api::{
    first_index, names_view, File, FileView, Icon, IconView, Value, ValueView, values_view, Error,
};
use crate::paths::{
    extension, file_name, file_stem, parent, spec_extension, spec_file_name, spec_file_stem,
    spec_parent, spec_trim_long_path_prefix, trim_long_path_prefix,
};
use std::rc::Rc;
use vstd::prelude::*;

verus! {

/// What a backend could read of a path.
#[derive(Clone, Copy, Debug)]
pub struct Metadata {
    /// The length in bytes.
    pub size: u64,
    /// Whether the path is a directory.
    pub is_dir: bool,
}

/// One child found while enumerating a directory.
#[derive(Debug)]
pub struct DirEntry {
    pub path: String,
    /// None where the child's metadata could not be read.
    pub metadata: Option<Metadata>,
}

/// Which paths a listing needs read.
#[derive(Debug)]
pub struct ListPlan {
    /// The directory whose children are listed.
    pub directory: String,
    /// Its parent, if it has one: the target of the synthetic parent entry.
    pub up: Option<String>,
}

/// What was read for a [`ListPlan`].
pub struct DirScan {
    /// The metadata of the plan's parent directory, if it could be read.
    pub up: Option<Metadata>,
    /// The children of the directory, or why they could not be enumerated.
    /// A child that itself failed is an `Err`.
    pub children: Result<Vec<Result<DirEntry, Error>>, Error>,
}

/// The field name of the path value.
pub open spec fn path_key() -> Seq<char> {
    seq!['p', 'a', 't', 'h']
}

/// The field name of the extension value.
pub open spec fn extension_key() -> Seq<char> {
    seq!['e', 'x', 't', 'e', 'n', 's', 'i', 'o', 'n']
}

/// The field name of the size value.
pub open spec fn size_key() -> Seq<char> {
    seq!['s', 'i', 'z', 'e']
}

/// The display name of the synthetic parent entry.
pub open spec fn up_name() -> Seq<char> {
    seq!['[', '.', '.', ']']
}

/// The size shown for a path: its length for a file, 0 for a directory or
/// where nothing could be read.
pub open spec fn shown_size(meta: Option<Metadata>) -> u64 {
    match meta {
        Some(m) => if m.is_dir {
            0
        } else {
            m.size
        },
        None => 0,
    }
}

/// Whether the path is known to be a directory.
pub open spec fn known_dir(meta: Option<Metadata>) -> bool {
    match meta {
        Some(m) => m.is_dir,
        None => false,
    }
}

/// The display name of a path: the given name if any; a directory's name
/// in brackets; else the file's stem. `..` stands in for a missing name.
pub open spec fn display_name(path: Seq<char>, name: Option<Seq<char>>, is_dir: bool) -> Seq<char> {
    match name {
        Some(n) => n,
        None => if is_dir {
            seq!['['] + (match spec_file_name(path) {
                Some(f) => f,
                None => seq!['.', '.'],
            }) + seq![']']
        } else {
            match spec_file_stem(path) {
                Some(s) => s,
                None => seq!['.', '.'],
            }
        },
    }
}

/// The extension shown for a path: none for a named entry or a directory.
pub open spec fn display_extension(path: Seq<char>, name: Option<Seq<char>>, is_dir: bool) -> Seq<
    char,
> {
    if name is Some || is_dir {
        Seq::empty()
    } else {
        match spec_extension(path) {
            Some(e) => e,
            None => Seq::empty(),
        }
    }
}

/// The value of the field called `key` in a record.
pub open spec fn field_for(
    key: Seq<char>,
    path: Seq<char>,
    name: Seq<char>,
    ext: Seq<char>,
    icon: IconView,
    size: u64,
) -> ValueView {
    if key == path_key() {
        ValueView::Path { path, name, icon }
    } else if key == extension_key() {
        ValueView::Text(ext)
    } else if key == size_key() {
        ValueView::Size(size)
    } else {
        ValueView::Text(Seq::empty())
    }
}

/// The fields of a record, one per name of the schema.
pub open spec fn record_fields(
    names: Seq<Seq<char>>,
    path: Seq<char>,
    name: Seq<char>,
    ext: Seq<char>,
    icon: IconView,
    size: u64,
) -> Seq<ValueView> {
    Seq::new(names.len(), |i: int| field_for(names[i], path, name, ext, icon, size))
}

/// The record of a local path.
pub open spec fn local_record(
    names: Seq<Seq<char>>,
    path: Seq<char>,
    name: Option<Seq<char>>,
    meta: Option<Metadata>,
) -> FileView {
    let full = spec_trim_long_path_prefix(path);
    FileView {
        selected: false,
        names,
        fields: record_fields(
            names,
            full,
            display_name(path, name, known_dir(meta)),
            display_extension(path, name, known_dir(meta)),
            IconView::Local(full),
            shown_size(meta),
        ),
    }
}

/// The pseudo path whose icon stands for a remote entry: `C:\.` for a
/// directory, `C:\*.<ext>` for a file.
pub open spec fn shell_icon_path(is_dir: bool, ext: Seq<char>) -> Seq<char> {
    if is_dir {
        seq!['C', ':', '\\', '.']
    } else {
        seq!['C', ':', '\\', '*', '.'] + ext
    }
}

/// The record of a remote path.
pub open spec fn remote_record(
    names: Seq<Seq<char>>,
    path: Seq<char>,
    name: Option<Seq<char>>,
    meta: Option<Metadata>,
) -> FileView {
    let ext = display_extension(path, name, known_dir(meta));
    FileView {
        selected: false,
        names,
        fields: record_fields(
            names,
            path,
            display_name(path, name, known_dir(meta)),
            ext,
            IconView::Shell(shell_icon_path(known_dir(meta), ext)),
            shown_size(meta),
        ),
    }
}

/// The children that could be enumerated, in order.
pub open spec fn ok_entries(children: Seq<Result<DirEntry, Error>>) -> Seq<DirEntry>
    decreases children.len(),
{
    if children.len() == 0 {
        Seq::empty()
    } else {
        let rest = ok_entries(children.drop_last());
        match children.last() {
            Ok(e) => rest.push(e),
            Err(_) => rest,
        }
    }
}

/// The children of a scan: none where the enumeration failed.
pub open spec fn scanned_entries(scan: DirScan) -> Seq<DirEntry> {
    match scan.children {
        Ok(c) => ok_entries(c@),
        Err(_) => Seq::empty(),
    }
}

/// The path value of a file, found under its first field called `path`.
pub open spec fn path_value(f: FileView) -> Option<Seq<char>> {
    match first_index(f.names, path_key()) {
        Some(i) => match f.fields[i as int] {
            ValueView::Path { path, .. } => Some(path),
            _ => None,
        },
        None => None,
    }
}

/// Which paths must be read to list the children of `parent_directory`:
/// none if it has no path value.
pub fn list_plan(parent_directory: &File) -> (r: Option<ListPlan>)
    ensures
        match path_value(parent_directory@) {
            Some(p) => r is Some && r->0.directory@ == p && match spec_parent(p) {
                Some(u) => r->0.up is Some && r->0.up->0@ == u,
                None => r->0.up is None,
            },
            None => r is None,
        },
{
    let index = parent_directory.get_field_index("path");
    proof {
        reveal_strlit("path");
        assert("path"@ =~= path_key());
    }
    match index {
        Some(i) => match parent_directory.field(i) {
            Value::Path { path, .. } => Some(
                ListPlan { directory: path.clone(), up: parent(path.as_str()) },
            ),
            _ => None,
        },
        None => None,
    }
}

/// The last component of `path`, or the path itself where it has none.
pub fn get_filename(path: &str) -> (r: String)
    ensures
        r@ == (match spec_file_name(path@) {
            Some(n) => n,
            None => path@,
        }),
{
    match file_name(path) {
        Some(n) => n,
        None => String::from_str(path),
    }
}

fn shown_size_of(meta: Option<Metadata>) -> (r: u64)
    ensures
        r == shown_size(meta),
{
    match meta {
        Some(m) => if m.is_dir {
            0
        } else {
            m.size
        },
        None => 0,
    }
}

fn known_dir_of(meta: Option<Metadata>) -> (r: bool)
    ensures
        r == known_dir(meta),
{
    match meta {
        Some(m) => m.is_dir,
        None => false,
    }
}

/// The display name and the extension of a path.
fn naming(path: &str, name: Option<String>, is_dir: bool) -> (r: (String, String))
    ensures
        r.0@ == display_name(path@, match name {
            Some(n) => Some(n@),
            None => None,
        }, is_dir),
        r.1@ == display_extension(path@, match name {
            Some(n) => Some(n@),
            None => None,
        }, is_dir),
{
    match name {
        Some(n) => (n, String::new()),
        None => if is_dir {
            let f = match file_name(path) {
                Some(f) => f,
                None => String::from_str(".."),
            };
            proof {
                reveal_strlit("..");
                reveal_strlit("[");
                reveal_strlit("]");
            }
            let bracketed = String::from_str("[").concat(f.as_str()).concat("]");
            (bracketed, String::new())
        } else {
            let stem = match file_stem(path) {
                Some(s) => s,
                None => String::from_str(".."),
            };
            let ext = match extension(path) {
                Some(e) => e,
                None => String::new(),
            };
            proof {
                reveal_strlit("..");
            }
            (stem, ext)
        },
    }
}

/// The fields of a record, one per name of `names`.
fn make_fields(
    names: &Vec<String>,
    path: &String,
    name: &String,
    ext: &String,
    icon: &Icon,
    size: u64,
) -> (r: Vec<Value>)
    ensures
        r.len() == names.len(),
        values_view(r@) == record_fields(names_view(names@), path@, name@, ext@, icon@, size),
{
    let path_key_s = String::from_str("path");
    let ext_key_s = String::from_str("extension");
    let size_key_s = String::from_str("size");
    proof {
        reveal_strlit("path");
        reveal_strlit("extension");
        reveal_strlit("size");
    }
    let mut fields: Vec<Value> = Vec::new();
    let mut i: usize = 0;
    while i < names.len()
        invariant
            i <= names.len(),
            fields.len() == i,
            path_key_s@ == path_key(),
            ext_key_s@ == extension_key(),
            size_key_s@ == size_key(),
            forall|j: int|
                0 <= j < i ==> #[trigger] fields@[j]@ == field_for(
                    names@[j]@,
                    path@,
                    name@,
                    ext@,
                    icon@,
                    size,
                ),
        decreases names.len() - i,
    {
        let v = if names[i] == path_key_s {
            Value::Path { path: path.clone(), name: name.clone(), icon: icon.clone_icon() }
        } else if names[i] == ext_key_s {
            Value::String { string: ext.clone() }
        } else if names[i] == size_key_s {
            Value::Size { bytes: size }
        } else {
            Value::String { string: String::new() }
        };
        fields.push(v);
        i = i + 1;
    }
    assert(values_view(fields@) =~= record_fields(
        names_view(names@),
        path@,
        name@,
        ext@,
        icon@,
        size,
    ));
    fields
}

/// The view of an optional name.
pub open spec fn opt_view(name: Option<String>) -> Option<Seq<char>> {
    match name {
        Some(n) => Some(n@),
        None => None,
    }
}

/// Every record that a backend builds has one field for each name of its
/// schema, shares that schema, and is not selected.
pub proof fn lemma_records_follow_schema(
    names: Seq<Seq<char>>,
    path: Seq<char>,
    name: Option<Seq<char>>,
    meta: Option<Metadata>,
)
    ensures
        local_record(names, path, name, meta).names == names,
        local_record(names, path, name, meta).fields.len() == names.len(),
        !local_record(names, path, name, meta).selected,
        remote_record(names, path, name, meta).names == names,
        remote_record(names, path, name, meta).fields.len() == names.len(),
        !remote_record(names, path, name, meta).selected,
{
}

/// The backend of the local disk.
#[derive(Default)]
pub struct LocalSystem;

impl LocalSystem {
    /// The record of a local path, from what could be read of it.
    pub fn get_local_file(
        &self,
        path: &str,
        name: Option<String>,
        metadata: Option<Metadata>,
        field_names: &Rc<Vec<String>>,
    ) -> (r: File)
        ensures
            r@ == local_record(names_view(field_names@), path@, opt_view(name), metadata),
    {
        let ghost name_v = opt_view(name);
        let full = String::from_str(trim_long_path_prefix(path));
        let (shown, ext) = naming(path, name, known_dir_of(metadata));
        let icon = Icon::Local(full.clone());
        let names: &Vec<String> = &**field_names;
        let fields = make_fields(names, &full, &shown, &ext, &icon, shown_size_of(metadata));
        let f = File::new(field_names, fields);
        assert(f@ =~= local_record(names_view(field_names@), path@, name_v, metadata));
        f
    }

    /// The listing of a scanned directory: the synthetic parent entry first
    /// if the plan has a parent, then each child that could be enumerated.
    pub fn list_files(&self, plan: &ListPlan, scan: DirScan, field_names: &Rc<Vec<String>>) -> (r:
        Vec<File>)
        ensures
            ({
                let names = names_view(field_names@);
                let entries = scanned_entries(scan);
                let head: int = if plan.up is Some {
                    1
                } else {
                    0
                };
                &&& r.len() == head + entries.len()
                &&& plan.up is Some ==> r@[0]@ == local_record(
                    names,
                    plan.up->0@,
                    Some(up_name()),
                    scan.up,
                )
                &&& forall|k: int|
                    0 <= k < entries.len() ==> #[trigger] r@[head + k]@ == local_record(
                        names,
                        entries[k].path@,
                        None,
                        entries[k].metadata,
                    )
            }),
    {
        let mut files: Vec<File> = Vec::new();
        let ghost names = names_view(field_names@);
        match &plan.up {
            Some(u) => {
                proof {
                    reveal_strlit("[..]");
                    assert("[..]"@ =~= up_name());
                }
                files.push(
                    self.get_local_file(
                        u.as_str(),
                        Some(String::from_str("[..]")),
                        scan.up,
                        field_names,
                    ),
                );
            },
            None => {},
        }
        let ghost head = files.len() as int;
        match scan.children {
            Ok(children) => {
                let mut i: usize = 0;
                while i < children.len()
                    invariant
                        i <= children.len(),
                        files.len() == head + ok_entries(children@.subrange(0, i as int)).len(),
                        head == (if plan.up is Some {
                            1int
                        } else {
                            0int
                        }),
                        names == names_view(field_names@),
                        plan.up is Some ==> files@[0]@ == local_record(
                            names,
                            plan.up->0@,
                            Some(up_name()),
                            scan.up,
                        ),
                        forall|k: int|
                            0 <= k < ok_entries(children@.subrange(0, i as int)).len()
                                ==> #[trigger] files@[head + k]@ == local_record(
                                names,
                                ok_entries(children@.subrange(0, i as int))[k].path@,
                                None,
                                ok_entries(children@.subrange(0, i as int))[k].metadata,
                            ),
                    decreases children.len() - i,
                {
                    let ghost before = ok_entries(children@.subrange(0, i as int));
                    assert(children@.subrange(0, i + 1).drop_last() =~= children@.subrange(
                        0,
                        i as int,
                    ));
                    assert(children@.subrange(0, i + 1).last() == children@[i as int]);
                    match &children[i] {
                        Ok(entry) => {
                            let f = self.get_local_file(
                                entry.path.as_str(),
                                None,
                                entry.metadata,
                                field_names,
                            );
                            let ghost old_files = files@;
                            assert(old_files.len() == head + before.len());
                            files.push(f);
                            assert(files@.len() == old_files.len() + 1);
                            assert(files@[old_files.len() as int] == f);
                            proof {
                                let after = ok_entries(children@.subrange(0, i + 1));
                                assert(after == before.push(*entry));
                                assert forall|k: int| 0 <= k < after.len() implies #[trigger] files@[head
                                    + k]@ == local_record(names, after[k].path@, None, after[k].metadata) by {
                                    if k < before.len() {
                                        assert(after[k] == before[k]);
                                        assert(files@[head + k] == old_files[head + k]);
                                    } else {
                                        assert(after[k] == *entry);
                                    }
                                }
                            }
                        },
                        Err(_) => {
                            assert(ok_entries(children@.subrange(0, i + 1)) == before);
                        },
                    }
                    i = i + 1;
                }
                assert(children@.subrange(0, i as int) =~= children@);
            },
            Err(_) => {},
        }
        files
    }
}

/// The backend of a remote host reached over SFTP. It cannot look at the
/// remote files for icons, so each entry gets a pseudo path that stands
/// for its type.
pub struct SftpSystem;

impl SftpSystem {
    /// The fixed root of the remote host.
    pub fn root_path() -> (r: String)
        ensures
            r@ == seq!['/'],
    {
        proof {
            reveal_strlit("/");
        }
        String::from_str("/")
    }

    /// The icon that stands for a remote entry of this type.
    pub fn get_icon(&self, is_dir: bool, ext: &str) -> (r: Icon)
        ensures
            r@ == IconView::Shell(shell_icon_path(is_dir, ext@)),
    {
        proof {
            reveal_strlit("C:\\.");
            reveal_strlit("C:\\*.");
            assert("C:\\."@ =~= seq!['C', ':', '\\', '.']);
            assert("C:\\*."@ =~= seq!['C', ':', '\\', '*', '.']);
        }
        if is_dir {
            Icon::Shell(String::from_str("C:\\."))
        } else {
            Icon::Shell(String::from_str("C:\\*.").concat(ext))
        }
    }

    /// The record of a remote path, from what could be read of it.
    pub fn get_sftp_file(
        &self,
        path: &str,
        name: Option<String>,
        metadata: Option<Metadata>,
        field_names: &Rc<Vec<String>>,
    ) -> (r: File)
        ensures
            r@ == remote_record(names_view(field_names@), path@, opt_view(name), metadata),
    {
        let ghost name_v = opt_view(name);
        let full = String::from_str(path);
        let is_dir = known_dir_of(metadata);
        let (shown, ext) = naming(path, name, is_dir);
        let icon = self.get_icon(is_dir, ext.as_str());
        let names: &Vec<String> = &**field_names;
        let fields = make_fields(names, &full, &shown, &ext, &icon, shown_size_of(metadata));
        let f = File::new(field_names, fields);
        assert(f@ =~= remote_record(names_view(field_names@), path@, name_v, metadata));
        f
    }

    /// The listing of a scanned remote directory: the synthetic parent
    /// entry first if the plan has a parent, then each child that could be
    /// enumerated.
    pub fn list_files(&self, plan: &ListPlan, scan: DirScan, field_names: &Rc<Vec<String>>) -> (r:
        Vec<File>)
        ensures
            ({
                let names = names_view(field_names@);
                let entries = scanned_entries(scan);
                let head: int = if plan.up is Some {
                    1
                } else {
                    0
                };
                &&& r.len() == head + entries.len()
                &&& plan.up is Some ==> r@[0]@ == remote_record(
                    names,
                    plan.up->0@,
                    Some(up_name()),
                    scan.up,
                )
                &&& forall|k: int|
                    0 <= k < entries.len() ==> #[trigger] r@[head + k]@ == remote_record(
                        names,
                        entries[k].path@,
                        None,
                        entries[k].metadata,
                    )
            }),
    {
        let mut files: Vec<File> = Vec::new();
        let ghost names = names_view(field_names@);
        match &plan.up {
            Some(u) => {
                proof {
                    reveal_strlit("[..]");
                    assert("[..]"@ =~= up_name());
                }
                files.push(
                    self.get_sftp_file(
                        u.as_str(),
                        Some(String::from_str("[..]")),
                        scan.up,
                        field_names,
                    ),
                );
            },
            None => {},
        }
        let ghost head = files.len() as int;
        match scan.children {
            Ok(children) => {
                let mut i: usize = 0;
                while i < children.len()
                    invariant
                        i <= children.len(),
                        files.len() == head + ok_entries(children@.subrange(0, i as int)).len(),
                        head == (if plan.up is Some {
                            1int
                        } else {
                            0int
                        }),
                        names == names_view(field_names@),
                        plan.up is Some ==> files@[0]@ == remote_record(
                            names,
                            plan.up->0@,
                            Some(up_name()),
                            scan.up,
                        ),
                        forall|k: int|
                            0 <= k < ok_entries(children@.subrange(0, i as int)).len()
                                ==> #[trigger] files@[head + k]@ == remote_record(
                                names,
                                ok_entries(children@.subrange(0, i as int))[k].path@,
                                None,
                                ok_entries(children@.subrange(0, i as int))[k].metadata,
                            ),
                    decreases children.len() - i,
                {
                    let ghost before = ok_entries(children@.subrange(0, i as int));
                    assert(children@.subrange(0, i + 1).drop_last() =~= children@.subrange(
                        0,
                        i as int,
                    ));
                    assert(children@.subrange(0, i + 1).last() == children@[i as int]);
                    match &children[i] {
                        Ok(entry) => {
                            let f = self.get_sftp_file(
                                entry.path.as_str(),
                                None,
                                entry.metadata,
                                field_names,
                            );
                            let ghost old_files = files@;
                            assert(old_files.len() == head + before.len());
                            files.push(f);
                            assert(files@.len() == old_files.len() + 1);
                            assert(files@[old_files.len() as int] == f);
                            proof {
                                let after = ok_entries(children@.subrange(0, i + 1));
                                assert(after == before.push(*entry));
                                assert forall|k: int| 0 <= k < after.len() implies #[trigger] files@[head
                                    + k]@ == remote_record(names, after[k].path@, None, after[k].metadata) by {
                                    if k < before.len() {
                                        assert(after[k] == before[k]);
                                        assert(files@[head + k] == old_files[head + k]);
                                    } else {
                                        assert(after[k] == *entry);
                                    }
                                }
                            }
                        },
                        Err(_) => {
                            assert(ok_entries(children@.subrange(0, i + 1)) == before);
                        },
                    }
                    i = i + 1;
                }
                assert(children@.subrange(0, i as int) =~= children@);
            },
            Err(_) => {},
        }
        files
    }
}

} // verus!
