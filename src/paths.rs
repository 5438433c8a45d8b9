//! Splitting of path strings into directory, file name, stem and extension.
//!
//! Both `/` and `\` separate components, so that the same rules serve local
//! paths and the paths of a remote host.

use vstd::prelude::*;
use vstd::string::*;

verus! {

/// Whether `c` separates two path components.
pub open spec fn is_sep(c: char) -> bool {
    c == '/' || c == '\\'
}

/// The length of `s` once trailing separators are removed.
pub open spec fn trim_len(s: Seq<char>) -> nat
    decreases s.len(),
{
    if s.len() > 0 && is_sep(s.last()) {
        trim_len(s.drop_last())
    } else {
        s.len()
    }
}

/// `s` without its trailing separators.
pub open spec fn trim_end_seps(s: Seq<char>) -> Seq<char> {
    s.subrange(0, trim_len(s) as int)
}

/// The position of the last separator in `s`, or -1.
pub open spec fn last_sep(s: Seq<char>) -> int
    decreases s.len(),
{
    if s.len() == 0 {
        -1
    } else if is_sep(s.last()) {
        s.len() - 1
    } else {
        last_sep(s.drop_last())
    }
}

/// The position of the last `.` in `s`, or -1.
pub open spec fn last_dot(s: Seq<char>) -> int
    decreases s.len(),
{
    if s.len() == 0 {
        -1
    } else if s.last() == '.' {
        s.len() - 1
    } else {
        last_dot(s.drop_last())
    }
}

/// Whether `s` is a drive prefix such as `C:`, which names a root.
pub open spec fn is_drive(s: Seq<char>) -> bool {
    s.len() == 2 && s[1] == ':' && (('a' <= s[0] && s[0] <= 'z') || ('A' <= s[0] && s[0] <= 'Z'))
}

/// The last component of a path; none for an empty path, a root (`/` or a
/// drive such as `C:\`), `.` or `..`.
pub open spec fn spec_file_name(p: Seq<char>) -> Option<Seq<char>> {
    let t = trim_end_seps(p);
    let n = t.subrange(last_sep(t) + 1, t.len() as int);
    if t.len() == 0 || is_drive(t) || n == seq!['.'] || n == seq!['.', '.'] {
        None
    } else {
        Some(n)
    }
}

/// The path without its last component; none for an empty path or a root
/// (`/` or a drive such as `C:\`). A path of one component has the empty
/// path as parent; a path right below a drive has the drive's root.
pub open spec fn spec_parent(p: Seq<char>) -> Option<Seq<char>> {
    let t = trim_end_seps(p);
    let k = last_sep(t);
    if t.len() == 0 || is_drive(t) {
        None
    } else if k < 0 {
        Some(Seq::empty())
    } else if trim_len(t.subrange(0, k)) == 0 {
        Some(t.subrange(0, 1))
    } else if is_drive(trim_end_seps(t.subrange(0, k))) {
        Some(t.subrange(0, 3))
    } else {
        Some(trim_end_seps(t.subrange(0, k)))
    }
}

/// The stem of a file name: all before its last `.`, unless that `.` is
/// the first character.
pub open spec fn name_stem(n: Seq<char>) -> Seq<char> {
    if last_dot(n) <= 0 {
        n
    } else {
        n.subrange(0, last_dot(n))
    }
}

/// The extension of a file name: all after its last `.`, unless that `.`
/// is the first character.
pub open spec fn name_extension(n: Seq<char>) -> Option<Seq<char>> {
    if last_dot(n) <= 0 {
        None
    } else {
        Some(n.subrange(last_dot(n) + 1, n.len() as int))
    }
}

/// The stem of the last component of a path.
pub open spec fn spec_file_stem(p: Seq<char>) -> Option<Seq<char>> {
    match spec_file_name(p) {
        Some(n) => Some(name_stem(n)),
        None => None,
    }
}

/// The extension of the last component of a path.
pub open spec fn spec_extension(p: Seq<char>) -> Option<Seq<char>> {
    match spec_file_name(p) {
        Some(n) => name_extension(n),
        None => None,
    }
}

/// The prefix that marks a long Windows path.
pub open spec fn long_prefix() -> Seq<char> {
    seq!['\\', '\\', '?', '\\']
}

/// A path without the long-path prefix, if it starts with one.
pub open spec fn spec_trim_long_path_prefix(p: Seq<char>) -> Seq<char> {
    if p.len() >= 4 && p.subrange(0, 4) == long_prefix() {
        p.subrange(4, p.len() as int)
    } else {
        p
    }
}

/// The characters of a string, in order.
pub(crate) fn chars_of(s: &str) -> (r: Vec<char>)
    ensures
        r@ == s@,
{
    let n = s.unicode_len();
    let mut r: Vec<char> = Vec::new();
    let mut i: usize = 0;
    while i < n
        invariant
            i <= n == s@.len(),
            r@ == s@.subrange(0, i as int),
        decreases n - i,
    {
        r.push(s.get_char(i));
        i = i + 1;
        assert(r@ =~= s@.subrange(0, i as int));
    }
    assert(r@ =~= s@);
    r
}

/// Whether `cs[..len]` is a drive prefix.
fn is_drive_prefix(cs: &Vec<char>, len: usize) -> (r: bool)
    requires
        len <= cs.len(),
    ensures
        r == is_drive(cs@.subrange(0, len as int)),
{
    len == 2 && cs[1] == ':' && (('a' <= cs[0] && cs[0] <= 'z') || ('A' <= cs[0] && cs[0] <= 'Z'))
}

fn is_sep_char(c: char) -> (r: bool)
    ensures
        r == is_sep(c),
{
    c == '/' || c == '\\'
}

/// The length of `cs[..end]` without trailing separators.
fn trimmed_len(cs: &Vec<char>, end: usize) -> (r: usize)
    requires
        end <= cs.len(),
    ensures
        r == trim_len(cs@.subrange(0, end as int)),
        r <= end,
{
    let mut j: usize = end;
    while j > 0 && is_sep_char(cs[j - 1])
        invariant
            j <= end <= cs.len(),
            trim_len(cs@.subrange(0, end as int)) == trim_len(cs@.subrange(0, j as int)),
        decreases j,
    {
        assert(cs@.subrange(0, j as int).drop_last() =~= cs@.subrange(0, j - 1));
        j = j - 1;
    }
    j
}

/// The position of the last separator in `cs[..end]`.
fn find_last_sep(cs: &Vec<char>, end: usize) -> (r: Option<usize>)
    requires
        end <= cs.len(),
    ensures
        match r {
            Some(k) => k < end && last_sep(cs@.subrange(0, end as int)) == k,
            None => last_sep(cs@.subrange(0, end as int)) == -1,
        },
{
    let mut k: usize = end;
    while k > 0 && !is_sep_char(cs[k - 1])
        invariant
            k <= end <= cs.len(),
            last_sep(cs@.subrange(0, end as int)) == last_sep(cs@.subrange(0, k as int)),
        decreases k,
    {
        assert(cs@.subrange(0, k as int).drop_last() =~= cs@.subrange(0, k - 1));
        k = k - 1;
    }
    if k == 0 {
        None
    } else {
        Some(k - 1)
    }
}

/// The position of the last `.` in `cs[start..end]`, counted from `start`.
fn find_last_dot(cs: &Vec<char>, start: usize, end: usize) -> (r: Option<usize>)
    requires
        start <= end <= cs.len(),
    ensures
        match r {
            Some(k) => k < end - start && last_dot(cs@.subrange(start as int, end as int)) == k,
            None => last_dot(cs@.subrange(start as int, end as int)) == -1,
        },
{
    let mut k: usize = end;
    while k > start && cs[k - 1] != '.'
        invariant
            start <= k <= end <= cs.len(),
            last_dot(cs@.subrange(start as int, end as int)) == last_dot(
                cs@.subrange(start as int, k as int),
            ),
        decreases k,
    {
        assert(cs@.subrange(start as int, k as int).drop_last() =~= cs@.subrange(
            start as int,
            k - 1,
        ));
        k = k - 1;
    }
    if k == start {
        None
    } else {
        Some(k - 1 - start)
    }
}

/// The bounds `[start, end)` of the last component of `path`, if it has one.
fn file_name_bounds(path: &str, cs: &Vec<char>) -> (r: Option<(usize, usize)>)
    requires
        cs@ == path@,
    ensures
        match r {
            Some((a, b)) => a <= b <= cs.len() && spec_file_name(path@) == Some(
                path@.subrange(a as int, b as int),
            ),
            None => spec_file_name(path@) is None,
        },
{
    let t = trimmed_len(cs, cs.len());
    let ghost ts = trim_end_seps(path@);
    assert(cs@.subrange(0, cs.len() as int) == cs@);
    assert(ts == cs@.subrange(0, t as int));
    if t == 0 || is_drive_prefix(cs, t) {
        return None;
    }
    let start: usize = match find_last_sep(cs, t) {
        Some(k) => k + 1,
        None => 0,
    };
    let ghost n = ts.subrange(last_sep(ts) + 1, ts.len() as int);
    assert(n =~= path@.subrange(start as int, t as int));
    if t - start == 1 && cs[start] == '.' {
        assert(n =~= seq!['.']);
        return None;
    }
    if t - start == 2 && cs[start] == '.' && cs[start + 1] == '.' {
        assert(n =~= seq!['.', '.']);
        return None;
    }
    assert(n != seq!['.']) by {
        if n == seq!['.'] {
            assert(n[0] == cs[start as int]);
        }
    }
    assert(n != seq!['.', '.']) by {
        if n == seq!['.', '.'] {
            assert(n[0] == cs[start as int]);
            assert(n[1] == cs[start + 1]);
        }
    }
    Some((start, t))
}

/// The last component of `path`.
pub fn file_name(path: &str) -> (r: Option<String>)
    ensures
        match r {
            Some(s) => spec_file_name(path@) == Some(s@),
            None => spec_file_name(path@) is None,
        },
{
    let cs = chars_of(path);
    match file_name_bounds(path, &cs) {
        Some((a, b)) => Some(String::from_str(path.substring_char(a, b))),
        None => None,
    }
}

/// `path` without its last component.
pub fn parent(path: &str) -> (r: Option<String>)
    ensures
        match r {
            Some(s) => spec_parent(path@) == Some(s@),
            None => spec_parent(path@) is None,
        },
{
    let cs = chars_of(path);
    let t = trimmed_len(&cs, cs.len());
    let ghost ts = trim_end_seps(path@);
    assert(cs@.subrange(0, cs.len() as int) == cs@);
    assert(ts == cs@.subrange(0, t as int));
    if t == 0 || is_drive_prefix(&cs, t) {
        return None;
    }
    match find_last_sep(&cs, t) {
        None => Some(String::new()),
        Some(k) => {
            let h = trimmed_len(&cs, k);
            assert(ts.subrange(0, k as int) =~= cs@.subrange(0, k as int));
            if h == 0 {
                assert(ts.subrange(0, 1) =~= path@.subrange(0, 1));
                Some(String::from_str(path.substring_char(0, 1)))
            } else if is_drive_prefix(&cs, h) {
                assert(trim_end_seps(ts.subrange(0, k as int)) =~= cs@.subrange(0, h as int));
                assert(ts.subrange(0, 3) =~= path@.subrange(0, 3));
                Some(String::from_str(path.substring_char(0, 3)))
            } else {
                assert(trim_end_seps(ts.subrange(0, k as int)) =~= cs@.subrange(0, h as int));
                assert(trim_end_seps(ts.subrange(0, k as int)) =~= path@.subrange(0, h as int));
                Some(String::from_str(path.substring_char(0, h)))
            }
        },
    }
}

/// The stem of the last component of `path`.
pub fn file_stem(path: &str) -> (r: Option<String>)
    ensures
        match r {
            Some(s) => spec_file_stem(path@) == Some(s@),
            None => spec_file_stem(path@) is None,
        },
{
    let cs = chars_of(path);
    match file_name_bounds(path, &cs) {
        None => None,
        Some((a, b)) => {
            let ghost n = path@.subrange(a as int, b as int);
            assert(cs@.subrange(a as int, b as int) == n);
            match find_last_dot(&cs, a, b) {
                Some(d) if d > 0 => {
                    assert(n.subrange(0, d as int) =~= path@.subrange(a as int, a + d));
                    Some(String::from_str(path.substring_char(a, a + d)))
                },
                _ => Some(String::from_str(path.substring_char(a, b))),
            }
        },
    }
}

/// The extension of the last component of `path`.
pub fn extension(path: &str) -> (r: Option<String>)
    ensures
        match r {
            Some(s) => spec_extension(path@) == Some(s@),
            None => spec_extension(path@) is None,
        },
{
    let cs = chars_of(path);
    match file_name_bounds(path, &cs) {
        None => None,
        Some((a, b)) => {
            let ghost n = path@.subrange(a as int, b as int);
            assert(cs@.subrange(a as int, b as int) == n);
            match find_last_dot(&cs, a, b) {
                Some(d) if d > 0 => {
                    assert(n.subrange(d + 1, n.len() as int) =~= path@.subrange(
                        a + d + 1,
                        b as int,
                    ));
                    Some(String::from_str(path.substring_char(a + d + 1, b)))
                },
                _ => None,
            }
        },
    }
}

/// `path` without the long-path prefix `\\?\`, if it starts with one.
pub fn trim_long_path_prefix(path: &str) -> (r: &str)
    ensures
        r@ == spec_trim_long_path_prefix(path@),
{
    let cs = chars_of(path);
    if cs.len() >= 4 && cs[0] == '\\' && cs[1] == '\\' && cs[2] == '?' && cs[3] == '\\' {
        assert(path@.subrange(0, 4) =~= long_prefix());
        path.substring_char(4, cs.len())
    } else {
        assert(path@.len() >= 4 ==> path@.subrange(0, 4) != long_prefix()) by {
            if path@.len() >= 4 && path@.subrange(0, 4) == long_prefix() {
                assert(path@.subrange(0, 4)[0] == path@[0]);
                assert(path@.subrange(0, 4)[1] == path@[1]);
                assert(path@.subrange(0, 4)[2] == path@[2]);
                assert(path@.subrange(0, 4)[3] == path@[3]);
            }
        }
        path
    }
}

} // verus!
