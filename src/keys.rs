//! The key resolver: from a platform key code and modifier flags to the
//! name of a bound command.
//!
//! Two tables drive it. The platform table maps raw key codes to logical
//! key names; each distinct name gets the next logical key index. The
//! binding table maps a combined key (modifier bits OR'ed with a logical
//! key index) to a command name.

use crate::api::{first_index, lemma_first_index, lemma_first_index_prefix_full, names_view};
use crate::errors::AppError;
use crate::paths::chars_of;
use std::collections::BTreeMap;
use std::collections::HashMap;
use vstd::prelude::*;
use vstd::string::*;

verus! {

broadcast use vstd::std_specs::hash::group_hash_axioms;

/// The modifier bit of the Alt key.
pub const ALT: i32 = 0x1000_0000;

/// The modifier bit of the Ctrl key.
pub const CTRL: i32 = 0x0100_0000;

/// The modifier bit of the Shift key; logical key indices stay below it.
pub const SHIFT: i32 = 0x0010_0000;

/// The token that marks the Alt modifier in a binding.
pub open spec fn alt_token() -> Seq<char> {
    seq!['a', 'l', 't', '+']
}

/// The token that marks the Shift modifier in a binding.
pub open spec fn shift_token() -> Seq<char> {
    seq!['s', 'h', 'i', 'f', 't', '+']
}

/// The token that marks the Ctrl modifier in a binding.
pub open spec fn ctrl_token() -> Seq<char> {
    seq!['c', 't', 'r', 'l', '+']
}

/// Whether `s` starts with `p`.
pub open spec fn starts_with(s: Seq<char>, p: Seq<char>) -> bool {
    p.len() <= s.len() && s.subrange(0, p.len() as int) == p
}

/// The modifier bits named at the front of a binding, in any order and
/// combination, and the key name that follows them.
pub open spec fn strip_modifiers(s: Seq<char>) -> (i32, Seq<char>)
    decreases s.len(),
{
    if starts_with(s, alt_token()) {
        let r = strip_modifiers(s.subrange(4, s.len() as int));
        (r.0 | ALT, r.1)
    } else if starts_with(s, shift_token()) {
        let r = strip_modifiers(s.subrange(6, s.len() as int));
        (r.0 | SHIFT, r.1)
    } else if starts_with(s, ctrl_token()) {
        let r = strip_modifiers(s.subrange(5, s.len() as int));
        (r.0 | CTRL, r.1)
    } else {
        (0, s)
    }
}

/// The combined key that a binding names, given the logical key names:
/// none if its key name is unknown.
pub open spec fn spec_parse_key(names: Seq<Seq<char>>, key: Seq<char>) -> Option<i32> {
    let (mods, rest) = strip_modifiers(key);
    match first_index(names, rest) {
        Some(i) => Some(mods | (i as i32)),
        None => None,
    }
}

/// The modifier bits of the flags of a key event.
pub open spec fn modifier_bits(alt: bool, ctrl: bool, shift: bool) -> i32 {
    (if alt {
        ALT
    } else {
        0
    }) | (if ctrl {
        CTRL
    } else {
        0
    }) | (if shift {
        SHIFT
    } else {
        0
    })
}

/// Whether `c` is an ASCII decimal digit.
pub open spec fn is_digit(c: char) -> bool {
    '0' <= c <= '9'
}

/// The value of a decimal digit.
pub open spec fn digit_value(c: char) -> int {
    c as int - '0' as int
}

/// Whether `s` is one or more decimal digits.
pub open spec fn all_digits(s: Seq<char>) -> bool {
    s.len() > 0 && forall|i: int| 0 <= i < s.len() ==> is_digit(#[trigger] s[i])
}

/// The value of a string of decimal digits.
pub open spec fn digits_value(s: Seq<char>) -> int
    decreases s.len(),
{
    if s.len() == 0 {
        0
    } else {
        digits_value(s.drop_last()) * 10 + digit_value(s.last())
    }
}

/// A key code as an `i32` in decimal: an optional sign, then one or more
/// digits, within the range of `i32`.
pub open spec fn parse_code(s: Seq<char>) -> Option<i32> {
    let neg = s.len() > 0 && s[0] == '-';
    let signed = s.len() > 0 && (s[0] == '-' || s[0] == '+');
    let digits = if signed {
        s.subrange(1, s.len() as int)
    } else {
        s
    };
    let v = if neg {
        -digits_value(digits)
    } else {
        digits_value(digits)
    };
    if all_digits(digits) && i32::MIN <= v <= i32::MAX {
        Some(v as i32)
    } else {
        None
    }
}

/// The model of a [`KeyResolver`].
pub struct KeyResolverView {
    /// Platform key code to logical key index.
    pub codes: Map<i32, i32>,
    /// Logical key index to key name.
    pub names: Seq<Seq<char>>,
    /// Combined key to command name.
    pub bindings: Map<i32, Seq<char>>,
}

impl KeyResolverView {
    /// Key names are distinct, their indices stay below the lowest modifier
    /// bit, and every code maps to a known index.
    pub open spec fn wf(self) -> bool {
        &&& self.names.len() <= SHIFT
        &&& forall|i: int, j: int|
            0 <= i < j < self.names.len() ==> self.names[i] != self.names[j]
        &&& forall|c: i32| #[trigger]
            self.codes.contains_key(c) ==> 0 <= self.codes[c] < self.names.len()
    }

    /// The table after one entry of the platform key map is loaded: the
    /// key name gets its index, a new one if the name is new.
    pub open spec fn load_entry(self, code: Seq<char>, name: Seq<char>) -> Option<KeyResolverView> {
        match parse_code(code) {
            None => None,
            Some(c) => match first_index(self.names, name) {
                Some(i) => Some(KeyResolverView { codes: self.codes.insert(c, i as i32), ..self }),
                None => if self.names.len() >= SHIFT {
                    None
                } else {
                    Some(
                        KeyResolverView {
                            codes: self.codes.insert(c, self.names.len() as i32),
                            names: self.names.push(name),
                            ..self
                        },
                    )
                },
            },
        }
    }

    /// The table after the entries of a platform key map are loaded in
    /// order; none if one of them is malformed or would exhaust the indices.
    pub open spec fn load_entries(self, entries: Seq<(Seq<char>, Seq<char>)>) -> Option<
        KeyResolverView,
    >
        decreases entries.len(),
    {
        if entries.len() == 0 {
            Some(self)
        } else {
            match self.load_entries(entries.drop_last()) {
                Some(v) => v.load_entry(entries.last().0, entries.last().1),
                None => None,
            }
        }
    }

    /// The table after the bindings are added in order; a binding whose
    /// key name is unknown is dropped.
    pub open spec fn bind_all(self, bindings: Seq<(Seq<char>, Seq<char>)>) -> KeyResolverView
        decreases bindings.len(),
    {
        if bindings.len() == 0 {
            self
        } else {
            let v = self.bind_all(bindings.drop_last());
            match spec_parse_key(v.names, bindings.last().0) {
                Some(k) => KeyResolverView {
                    bindings: v.bindings.insert(k, bindings.last().1),
                    ..v
                },
                None => v,
            }
        }
    }

    /// The keys of the bindings that `bind_all` drops, in order.
    pub open spec fn dropped(self, bindings: Seq<(Seq<char>, Seq<char>)>) -> Seq<Seq<char>>
        decreases bindings.len(),
    {
        if bindings.len() == 0 {
            Seq::empty()
        } else {
            let v = self.bind_all(bindings.drop_last());
            let d = self.dropped(bindings.drop_last());
            match spec_parse_key(v.names, bindings.last().0) {
                Some(_) => d,
                None => d.push(bindings.last().0),
            }
        }
    }
}

/// What a key event resolves to.
#[derive(Debug)]
pub enum KeyDispatch {
    /// The key code is not in the platform table: the event is not handled.
    Unhandled,
    /// The key is known but nothing is bound to the combination: the event
    /// is handled with no effect.
    Unbound,
    /// The name of the command bound to the combination.
    Command(String),
}

/// The views of pairs of strings.
pub open spec fn pairs_view(pairs: Seq<(String, String)>) -> Seq<(Seq<char>, Seq<char>)> {
    pairs.map_values(|p: (String, String)| (p.0@, p.1@))
}

/// The string table that a TOML document holds, its keys in ascending
/// order; none if the text is not such a document.
pub uninterp spec fn toml_string_table(text: Seq<char>) -> Option<Seq<(Seq<char>, Seq<char>)>>;

/// Relies on toml's `from_str` into a `BTreeMap<String, String>`: the
/// top-level string entries of the document, which the map hands out in
/// ascending key order; an error where the text is no TOML table of strings.
#[verifier::external_body]
fn parse_toml_table(text: &str) -> (r: Option<Vec<(String, String)>>)
    ensures
        match r {
            Some(v) => toml_string_table(text@) == Some(pairs_view(v@)),
            None => toml_string_table(text@) is None,
        },
{
    toml::from_str::<BTreeMap<String, String>>(text).ok().map(|m| m.into_iter().collect())
}

/// The key and command tables of a window.
pub struct KeyResolver {
    key_map: HashMap<i32, i32>,
    key_names: Vec<String>,
    key_handlers: HashMap<i32, String>,
}

impl View for KeyResolver {
    type V = KeyResolverView;

    closed spec fn view(&self) -> KeyResolverView {
        KeyResolverView {
            codes: self.key_map@,
            names: names_view(self.key_names@),
            bindings: self.key_handlers@.map_values(|s: String| s@),
        }
    }
}

/// The value of one decimal digit.
fn digit_of(c: char) -> (r: i64)
    requires
        is_digit(c),
    ensures
        r == digit_value(c),
        0 <= r <= 9,
{
    (c as u32 - '0' as u32) as i64
}

/// A limit above every magnitude that `i32` holds.
const CAP: i64 = 2147483649;

/// Parses a key code of the platform table: see [`parse_code`].
pub fn parse_key_code(s: &str) -> (r: Option<i32>)
    ensures
        r == parse_code(s@),
{
    let cs = chars_of(s);
    let n = cs.len();
    let neg = n > 0 && cs[0] == '-';
    let signed = n > 0 && (cs[0] == '-' || cs[0] == '+');
    let start: usize = if signed {
        1
    } else {
        0
    };
    let ghost digits = if signed {
        s@.subrange(1, s@.len() as int)
    } else {
        s@
    };
    assert(digits =~= cs@.subrange(start as int, n as int));
    if start == n {
        assert(digits.len() == 0);
        return None;
    }
    let mut value: i64 = 0;
    let mut i: usize = start;
    while i < n
        invariant
            start <= i <= n == cs.len(),
            cs@ == s@,
            digits == cs@.subrange(start as int, n as int),
            digits == (if s@.len() > 0 && (s@[0] == '-' || s@[0] == '+') {
                s@.subrange(1, s@.len() as int)
            } else {
                s@
            }),
            neg == (s@.len() > 0 && s@[0] == '-'),
            forall|j: int| start <= j < i ==> is_digit(#[trigger] cs@[j]),
            value == if digits_value(cs@.subrange(start as int, i as int)) < CAP {
                digits_value(cs@.subrange(start as int, i as int))
            } else {
                CAP as int
            },
            0 <= value <= CAP,
        decreases n - i,
    {
        let c = cs[i];
        if !('0' <= c && c <= '9') {
            assert(!is_digit(digits[i - start]));
            return None;
        }
        let ghost before = digits_value(cs@.subrange(start as int, i as int));
        assert(cs@.subrange(start as int, i + 1).drop_last() =~= cs@.subrange(
            start as int,
            i as int,
        ));
        let d = digit_of(c);
        let next = value * 10 + d;
        proof {
            lemma_digits_nonneg(cs@.subrange(start as int, i as int));
            assert(digits_value(cs@.subrange(start as int, i + 1)) == before * 10 + d);
            if before >= CAP {
                assert(before * 10 + d >= CAP) by (nonlinear_arith)
                    requires
                        before >= CAP,
                        d >= 0,
                ;
            }
        }
        value = if next < CAP {
            next
        } else {
            CAP
        };
        i = i + 1;
    }
    assert(cs@.subrange(start as int, n as int) == digits);
    proof {
        lemma_digits_nonneg(digits);
    }
    if neg {
        if value <= 2147483648 {
            Some((-value) as i32)
        } else {
            None
        }
    } else {
        if value <= 2147483647 {
            Some(value as i32)
        } else {
            None
        }
    }
}

/// Once a prefix of a key map fails to load, the whole key map fails.
proof fn lemma_load_stops(v: KeyResolverView, entries: Seq<(Seq<char>, Seq<char>)>, i: int)
    requires
        0 <= i <= entries.len(),
        v.load_entries(entries.subrange(0, i)) is None,
    ensures
        v.load_entries(entries) is None,
    decreases entries.len(),
{
    if i < entries.len() {
        assert(entries.drop_last().subrange(0, i) =~= entries.subrange(0, i));
        lemma_load_stops(v, entries.drop_last(), i);
    } else {
        assert(entries.subrange(0, i) =~= entries);
    }
}

/// Digits have a value of no less than zero.
proof fn lemma_digits_nonneg(s: Seq<char>)
    requires
        forall|i: int| 0 <= i < s.len() ==> is_digit(#[trigger] s[i]),
    ensures
        digits_value(s) >= 0,
    decreases s.len(),
{
    if s.len() > 0 {
        assert(is_digit(s[s.len() - 1]));
        lemma_digits_nonneg(s.drop_last());
    }
}

/// Which modifier token `cs[start..]` begins with: its bit and length.
fn modifier_at(cs: &Vec<char>, start: usize) -> (r: Option<(i32, usize)>)
    requires
        start <= cs.len(),
    ensures
        ({
            let s = cs@.subrange(start as int, cs.len() as int);
            if starts_with(s, alt_token()) {
                r == Some((ALT, 4usize))
            } else if starts_with(s, shift_token()) {
                r == Some((SHIFT, 6usize))
            } else if starts_with(s, ctrl_token()) {
                r == Some((CTRL, 5usize))
            } else {
                r is None
            }
        }),
        match r {
            Some((bit, len)) => start + len <= cs.len() && strip_modifiers(
                cs@.subrange(start as int, cs.len() as int),
            ) == (strip_modifiers(cs@.subrange(start + len, cs.len() as int)).0 | bit,
            strip_modifiers(cs@.subrange(start + len, cs.len() as int)).1),
            None => strip_modifiers(cs@.subrange(start as int, cs.len() as int)) == (
                0i32,
                cs@.subrange(start as int, cs.len() as int),
            ),
        },
{
    let ghost s = cs@.subrange(start as int, cs.len() as int);
    let n = cs.len() - start;
    if n >= 4 && cs[start] == 'a' && cs[start + 1] == 'l' && cs[start + 2] == 't' && cs[start
        + 3] == '+' {
        assert(s.subrange(0, 4) =~= alt_token());
        assert(s.subrange(4, s.len() as int) =~= cs@.subrange(start + 4, cs.len() as int));
        return Some((ALT, 4));
    }
    assert(!starts_with(s, alt_token())) by {
        if starts_with(s, alt_token()) {
            assert(s.subrange(0, 4)[0] == s[0]);
            assert(s.subrange(0, 4)[1] == s[1]);
            assert(s.subrange(0, 4)[2] == s[2]);
            assert(s.subrange(0, 4)[3] == s[3]);
        }
    }
    if n >= 6 && cs[start] == 's' && cs[start + 1] == 'h' && cs[start + 2] == 'i' && cs[start
        + 3] == 'f' && cs[start + 4] == 't' && cs[start + 5] == '+' {
        assert(s.subrange(0, 6) =~= shift_token());
        assert(s.subrange(6, s.len() as int) =~= cs@.subrange(start + 6, cs.len() as int));
        return Some((SHIFT, 6));
    }
    assert(!starts_with(s, shift_token())) by {
        if starts_with(s, shift_token()) {
            assert(s.subrange(0, 6)[0] == s[0]);
            assert(s.subrange(0, 6)[1] == s[1]);
            assert(s.subrange(0, 6)[2] == s[2]);
            assert(s.subrange(0, 6)[3] == s[3]);
            assert(s.subrange(0, 6)[4] == s[4]);
            assert(s.subrange(0, 6)[5] == s[5]);
        }
    }
    if n >= 5 && cs[start] == 'c' && cs[start + 1] == 't' && cs[start + 2] == 'r' && cs[start
        + 3] == 'l' && cs[start + 4] == '+' {
        assert(s.subrange(0, 5) =~= ctrl_token());
        assert(s.subrange(5, s.len() as int) =~= cs@.subrange(start + 5, cs.len() as int));
        return Some((CTRL, 5));
    }
    assert(!starts_with(s, ctrl_token())) by {
        if starts_with(s, ctrl_token()) {
            assert(s.subrange(0, 5)[0] == s[0]);
            assert(s.subrange(0, 5)[1] == s[1]);
            assert(s.subrange(0, 5)[2] == s[2]);
            assert(s.subrange(0, 5)[3] == s[3]);
            assert(s.subrange(0, 5)[4] == s[4]);
        }
    }
    None
}

impl KeyResolver {
    /// Empty tables.
    pub fn new() -> (r: KeyResolver)
        ensures
            r@.codes == Map::<i32, i32>::empty(),
            r@.names.len() == 0,
            r@.bindings == Map::<i32, Seq<char>>::empty(),
            r@.wf(),
    {
        let r = KeyResolver {
            key_map: HashMap::new(),
            key_names: Vec::new(),
            key_handlers: HashMap::new(),
        };
        assert(r@.bindings =~= Map::<i32, Seq<char>>::empty());
        r
    }

    /// The logical index of a key name.
    fn find_name(&self, name: &String) -> (r: Option<usize>)
        ensures
            match r {
                Some(i) => i < self@.names.len() && first_index(self@.names, name@) == Some(
                    i as nat,
                ),
                None => first_index(self@.names, name@) is None,
            },
    {
        let ghost names = self@.names;
        let mut i: usize = 0;
        while i < self.key_names.len()
            invariant
                i <= self.key_names.len(),
                names == names_view(self.key_names@),
                first_index(names.subrange(0, i as int), name@) is None,
            decreases self.key_names.len() - i,
        {
            assert(names.subrange(0, i + 1).drop_last() =~= names.subrange(0, i as int));
            if self.key_names[i] == *name {
                proof {
                    lemma_first_index_prefix_full(names, name@, i as int);
                }
                return Some(i);
            }
            i = i + 1;
        }
        assert(names.subrange(0, i as int) =~= names);
        None
    }

    /// The combined key that a binding names: see [`spec_parse_key`].
    pub fn parse_key(&self, key: &str) -> (r: Option<i32>)
        requires
            self@.wf(),
        ensures
            r == spec_parse_key(self@.names, key@),
    {
        let cs = chars_of(key);
        let mut start: usize = 0;
        let mut mods: i32 = 0;
        assert(cs@.subrange(0, cs.len() as int) =~= key@);
        let ghost full = strip_modifiers(key@);
        assert(full.0 == 0 | full.0) by (bit_vector);
        let mut done = false;
        while !done
            invariant
                start <= cs.len(),
                cs@ == key@,
                full == strip_modifiers(key@),
                full.0 == mods | strip_modifiers(cs@.subrange(start as int, cs.len() as int)).0,
                full.1 == strip_modifiers(cs@.subrange(start as int, cs.len() as int)).1,
                done ==> strip_modifiers(cs@.subrange(start as int, cs.len() as int)) == (
                    0i32,
                    cs@.subrange(start as int, cs.len() as int),
                ),
            decreases cs.len() - start + (if done {
                0int
            } else {
                1int
            }),
        {
            match modifier_at(&cs, start) {
                Some((bit, len)) => {
                    let ghost x = strip_modifiers(cs@.subrange(start + len, cs.len() as int)).0;
                    assert(mods | (x | bit) == (mods | bit) | x) by (bit_vector);
                    mods = mods | bit;
                    start = start + len;
                },
                None => {
                    done = true;
                },
            }
        }
        proof {
            assert(mods | 0 == mods) by (bit_vector);
        }
        let rest = String::from_str(key.substring_char(start, cs.len()));
        assert(rest@ == full.1);
        match self.find_name(&rest) {
            Some(i) => Some(mods | (i as i32)),
            None => None,
        }
    }

    /// Loads the platform table: each entry maps a key code, in decimal, to
    /// a key name. A new name gets the next logical index. Fails on a
    /// malformed code, or once the indices would reach the lowest modifier
    /// bit; the tables are then left part-loaded.
    pub fn initialize_key_map(&mut self, entries: &Vec<(String, String)>) -> (r: Result<
        (),
        AppError,
    >)
        requires
            old(self)@.wf(),
        ensures
            final(self)@.wf(),
            match old(self)@.load_entries(pairs_view(entries@)) {
                Some(v) => r is Ok && final(self)@ == v,
                None => r is Err,
            },
    {
        let ghost all = pairs_view(entries@);
        let mut i: usize = 0;
        while i < entries.len()
            invariant
                i <= entries.len(),
                all == pairs_view(entries@),
                self@.wf(),
                old(self)@.load_entries(all.subrange(0, i as int)) == Some(self@),
            decreases entries.len() - i,
        {
            assert(all.subrange(0, i + 1).drop_last() =~= all.subrange(0, i as int));
            let (code_s, name) = &entries[i];
            assert(all.subrange(0, i + 1).last() == (code_s@, name@));
            let code = match parse_key_code(code_s.as_str()) {
                Some(c) => c,
                None => {
                    proof {
                        lemma_load_stops(old(self)@, all, i + 1);
                    }
                    return Err(AppError::StringError(String::from_str("malformed key code")));
                },
            };
            let ghost before = self@;
            let index: i32 = match self.find_name(name) {
                Some(k) => k as i32,
                None => {
                    if self.key_names.len() >= SHIFT as usize {
                        proof {
                            lemma_load_stops(old(self)@, all, i + 1);
                        }
                        return Err(AppError::StringError(String::from_str("too many key names")));
                    }
                    let k = self.key_names.len() as i32;
                    self.key_names.push(name.clone());
                    proof {
                        lemma_first_index(before.names, name@);
                        assert(names_view(self.key_names@) =~= before.names.push(name@));
                    }
                    k
                },
            };
            self.key_map.insert(code, index);
            proof {
                assert(self@ == before.load_entry(code_s@, name@)->0);
            }
            i = i + 1;
        }
        assert(all.subrange(0, i as int) =~= all);
        Ok(())
    }

    /// Loads the platform table from its TOML text, a table of key codes to
    /// key names: see [`initialize_key_map`](Self::initialize_key_map).
    pub fn load_key_map(&mut self, text: &str) -> (r: Result<(), AppError>)
        requires
            old(self)@.wf(),
        ensures
            final(self)@.wf(),
            match toml_string_table(text@) {
                None => r is Err && final(self)@ == old(self)@,
                Some(entries) => match old(self)@.load_entries(entries) {
                    Some(v) => r is Ok && final(self)@ == v,
                    None => r is Err,
                },
            },
    {
        match parse_toml_table(text) {
            Some(entries) => self.initialize_key_map(&entries),
            None => Err(AppError::StringError(String::from_str("malformed key map"))),
        }
    }

    /// Adds the bindings in order, each a key such as `ctrl+shift+a` and a
    /// command name. A binding whose key name is unknown is dropped; the
    /// keys of those are returned, in order.
    pub fn bind_keys(&mut self, bindings: &Vec<(String, String)>) -> (r: Vec<String>)
        requires
            old(self)@.wf(),
        ensures
            final(self)@.wf(),
            final(self)@ == old(self)@.bind_all(pairs_view(bindings@)),
            r@.map_values(|s: String| s@) == old(self)@.dropped(pairs_view(bindings@)),
    {
        let ghost all = pairs_view(bindings@);
        let mut dropped: Vec<String> = Vec::new();
        let mut i: usize = 0;
        while i < bindings.len()
            invariant
                i <= bindings.len(),
                all == pairs_view(bindings@),
                self@.wf(),
                old(self)@.bind_all(all.subrange(0, i as int)) == self@,
                dropped@.map_values(|s: String| s@) == old(self)@.dropped(
                    all.subrange(0, i as int),
                ),
            decreases bindings.len() - i,
        {
            assert(all.subrange(0, i + 1).drop_last() =~= all.subrange(0, i as int));
            let (key, command) = &bindings[i];
            assert(all.subrange(0, i + 1).last() == (key@, command@));
            let ghost before = self@;
            match self.parse_key(key.as_str()) {
                Some(k) => {
                    self.key_handlers.insert(k, command.clone());
                    assert(self@.bindings =~= old(self)@.bind_all(
                        all.subrange(0, i as int),
                    ).bindings.insert(k, command@));
                    assert(self@.codes == before.codes);
                    assert(self@.names == before.names);
                },
                None => {
                    let ghost d = dropped@.map_values(|s: String| s@);
                    dropped.push(key.clone());
                    assert(dropped@.map_values(|s: String| s@) =~= d.push(key@));
                },
            }
            i = i + 1;
        }
        assert(all.subrange(0, i as int) =~= all);
        dropped
    }

    /// Resolves a key event: a code outside the platform table is not
    /// handled; a known key with nothing bound is handled with no effect.
    pub fn on_key(&self, key_code: i32, alt: bool, ctrl: bool, shift: bool) -> (r: KeyDispatch)
        ensures
            match self@.codes.get(key_code) {
                None => r is Unhandled,
                Some(index) => match self@.bindings.get(modifier_bits(alt, ctrl, shift) | index) {
                    None => r is Unbound,
                    Some(c) => r is Command && r->Command_0@ == c,
                },
            },
    {
        match self.key_map.get(&key_code) {
            None => KeyDispatch::Unhandled,
            Some(index) => {
                let key = (if alt {
                    ALT
                } else {
                    0
                }) | (if ctrl {
                    CTRL
                } else {
                    0
                }) | (if shift {
                    SHIFT
                } else {
                    0
                }) | *index;
                match self.key_handlers.get(&key) {
                    None => KeyDispatch::Unbound,
                    Some(c) => KeyDispatch::Command(c.clone()),
                }
            },
        }
    }
}

/// Whether `t` is one of the modifier tokens.
pub open spec fn is_modifier_token(t: Seq<char>) -> bool {
    t == alt_token() || t == shift_token() || t == ctrl_token()
}

/// The modifier bit that a token names.
pub open spec fn token_bit(t: Seq<char>) -> i32 {
    if t == alt_token() {
        ALT
    } else if t == shift_token() {
        SHIFT
    } else {
        CTRL
    }
}

/// A modifier token in front of a binding adds its bit.
pub proof fn lemma_strip_token(t: Seq<char>, rest: Seq<char>)
    requires
        is_modifier_token(t),
    ensures
        strip_modifiers(t + rest) == (strip_modifiers(rest).0 | token_bit(t), strip_modifiers(
            rest,
        ).1),
{
    let s = t + rest;
    assert(s.subrange(t.len() as int, s.len() as int) =~= rest);
    assert(s.subrange(0, t.len() as int) =~= t);
    assert(s[0] == t[0]);
    if t != alt_token() {
        assert(!starts_with(s, alt_token())) by {
            if starts_with(s, alt_token()) {
                assert(s.subrange(0, 4)[0] == s[0]);
            }
        }
    }
    if t == ctrl_token() {
        assert(!starts_with(s, shift_token())) by {
            if starts_with(s, shift_token()) {
                assert(s.subrange(0, 6)[0] == s[0]);
            }
        }
    }
}

/// Modifier tokens written one after another.
pub open spec fn join_tokens(ts: Seq<Seq<char>>) -> Seq<char>
    decreases ts.len(),
{
    if ts.len() == 0 {
        Seq::empty()
    } else {
        ts[0] + join_tokens(ts.drop_first())
    }
}

/// The modifier bits of a list of tokens: those of the modifiers it names,
/// whatever their order and however often each is named.
pub open spec fn token_mask(ts: Seq<Seq<char>>) -> i32 {
    modifier_bits(ts.contains(alt_token()), ts.contains(ctrl_token()), ts.contains(shift_token()))
}

/// Adding the bit of a token to the bits of a set of modifiers.
proof fn lemma_mask_add(alt: bool, ctrl: bool, shift: bool, t: Seq<char>)
    requires
        is_modifier_token(t),
    ensures
        modifier_bits(alt, ctrl, shift) | token_bit(t) == modifier_bits(
            alt || t == alt_token(),
            ctrl || t == ctrl_token(),
            shift || t == shift_token(),
        ),
{
    let a: i32 = if alt {
        ALT
    } else {
        0
    };
    let c: i32 = if ctrl {
        CTRL
    } else {
        0
    };
    let s: i32 = if shift {
        SHIFT
    } else {
        0
    };
    assert(alt_token() != shift_token());
    assert(alt_token() != ctrl_token()) by {
        assert(alt_token()[0] != ctrl_token()[0]);
    }
    assert(shift_token() != ctrl_token()) by {
        assert(shift_token()[0] != ctrl_token()[0]);
    }
    assert(a == 0 || a == 0x1000_0000i32);
    assert(c == 0 || c == 0x0100_0000i32);
    assert(s == 0 || s == 0x0010_0000i32);
    if t == alt_token() {
        assert(((a | c) | s) | 0x1000_0000i32 == ((0x1000_0000i32 | c) | s)) by (bit_vector)
            requires
                a == 0 || a == 0x1000_0000i32,
        ;
    } else if t == ctrl_token() {
        assert(((a | c) | s) | 0x0100_0000i32 == ((a | 0x0100_0000i32) | s)) by (bit_vector)
            requires
                c == 0 || c == 0x0100_0000i32,
        ;
    } else {
        assert(((a | c) | s) | 0x0010_0000i32 == ((a | c) | 0x0010_0000i32)) by (bit_vector)
            requires
                s == 0 || s == 0x0010_0000i32,
        ;
    }
}

/// Modifier tokens in front of a binding add the bits of the modifiers
/// they name, in whatever order they stand.
pub proof fn lemma_strip_tokens(ts: Seq<Seq<char>>, rest: Seq<char>)
    requires
        forall|i: int| 0 <= i < ts.len() ==> is_modifier_token(#[trigger] ts[i]),
    ensures
        strip_modifiers(join_tokens(ts) + rest) == (strip_modifiers(rest).0 | token_mask(ts),
        strip_modifiers(rest).1),
    decreases ts.len(),
{
    let x = strip_modifiers(rest).0;
    if ts.len() == 0 {
        assert(join_tokens(ts) + rest =~= rest);
        assert(!ts.contains(alt_token()) && !ts.contains(ctrl_token()) && !ts.contains(
            shift_token(),
        ));
        assert(x | ((0i32 | 0i32) | 0i32) == x) by (bit_vector);
    } else {
        let t = ts[0];
        let tail = ts.drop_first();
        assert(forall|i: int| 0 <= i < tail.len() ==> tail[i] == ts[i + 1]);
        lemma_strip_tokens(tail, rest);
        assert(join_tokens(ts) + rest =~= t + (join_tokens(tail) + rest));
        lemma_strip_token(t, join_tokens(tail) + rest);
        let m = token_mask(tail);
        let b = token_bit(t);
        assert((x | m) | b == x | (m | b)) by (bit_vector);
        lemma_mask_add(
            tail.contains(alt_token()),
            tail.contains(ctrl_token()),
            tail.contains(shift_token()),
            t,
        );
        assert forall|u: Seq<char>| ts.contains(u) <==> (u == t || tail.contains(u)) by {
            if ts.contains(u) {
                let k = choose|k: int| 0 <= k < ts.len() && ts[k] == u;
                if k > 0 {
                    assert(tail[k - 1] == u);
                }
            }
            if tail.contains(u) {
                let k = choose|k: int| 0 <= k < tail.len() && tail[k] == u;
                assert(ts[k + 1] == u);
            }
            if u == t {
                assert(ts[0] == u);
            }
        }
    }
}

/// The order of the modifiers in a binding does not matter: two bindings
/// that name the same modifiers, in any order, before the same key name
/// give the same combined key. Where the key name is a known key, that is
/// the bits of the modifiers OR'ed with its index.
pub proof fn lemma_modifier_order(
    names: Seq<Seq<char>>,
    first: Seq<Seq<char>>,
    second: Seq<Seq<char>>,
    rest: Seq<char>,
)
    requires
        forall|i: int| 0 <= i < first.len() ==> is_modifier_token(#[trigger] first[i]),
        forall|i: int| 0 <= i < second.len() ==> is_modifier_token(#[trigger] second[i]),
        forall|u: Seq<char>| first.contains(u) <==> second.contains(u),
    ensures
        strip_modifiers(join_tokens(first) + rest) == strip_modifiers(join_tokens(second) + rest),
        spec_parse_key(names, join_tokens(first) + rest) == spec_parse_key(
            names,
            join_tokens(second) + rest,
        ),
        strip_modifiers(rest) == (0i32, rest) && first_index(names, rest) is Some ==> spec_parse_key(
            names,
            join_tokens(first) + rest,
        ) == Some(token_mask(first) | (first_index(names, rest)->0 as i32)),
{
    lemma_strip_tokens(first, rest);
    lemma_strip_tokens(second, rest);
    assert(token_mask(first) == token_mask(second)) by {
        assert(first.contains(alt_token()) == second.contains(alt_token()));
        assert(first.contains(ctrl_token()) == second.contains(ctrl_token()));
        assert(first.contains(shift_token()) == second.contains(shift_token()));
    }
    let m = token_mask(first);
    assert(0i32 | m == m) by (bit_vector);
}

} // verus!
