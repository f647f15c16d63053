//! The `MatchData` class: the result of a successful pattern match,
//! carried as plain data — the matched byte string, the pattern
//! source, the capture-group regions and the named groups.
//!
//! The pattern engine that produces a match lives outside this
//! interpreter; everything that reads a match — group positions,
//! captured substrings, the pre- and post-match context — is the logic
//! here, stated exactly over the stored regions.

use vstd::prelude::*;
use vstd::string::StringSliceAdditionalSpecFns;
use vstd::utf8::is_ascii_chars;

use crate::bstr;
use crate::class;
use crate::def::{box_unbox_free, name_has_no_nul, Free, Method};
use crate::exception::{BadArgumentError, Exception, IndexError, TypeError};
use crate::interp::{
    find_scope, lemma_literal_bytes, lemma_reg_find_push, method_bound, reg_find, Artichoke,
    MethodBinding, KEY_MATCH_DATA,
};
use crate::method;
use crate::value::Value;

verus! {

/// The result of one successful pattern match.
pub struct MatchData {
    /// The haystack the match ran over.
    pub string: Vec<u8>,
    /// Source of the pattern that produced the match.
    pub pattern: Vec<u8>,
    /// One region per capture group; group 0 is the whole match. An
    /// absent region is a group that did not participate.
    pub regions: Vec<Option<(usize, usize)>>,
    /// Named groups, each naming a region index.
    pub names: Vec<(Vec<u8>, usize)>,
}

impl MatchData {
    /// A match is well formed when group 0 exists and matched, every
    /// region lies inside the haystack, and every name points at a
    /// region.
    pub open spec fn wf(&self) -> bool {
        &&& self.regions@.len() >= 1
        &&& self.regions@[0] is Some
        &&& forall|i: int|
            0 <= i < self.regions@.len() ==> (match #[trigger] self.regions@[i] {
                Option::Some(r) => r.0 <= r.1 <= self.string@.len(),
                Option::None => true,
            })
        &&& forall|i: int|
            0 <= i < self.names@.len() ==> (#[trigger] self.names@[i]).1 < self.regions@.len()
    }

    /// Record a match over `string` against `pattern` with the given
    /// regions and names.
    ///
    /// Fails exactly when the regions or names do not describe a well
    /// formed match.
    pub fn new(
        string: Vec<u8>,
        pattern: Vec<u8>,
        regions: Vec<Option<(usize, usize)>>,
        names: Vec<(Vec<u8>, usize)>,
    ) -> (r: Result<Self, Exception>)
        ensures
            ({
                let m = MatchData { string, pattern, regions, names };
                if m.wf() {
                    r matches Ok(o) && o == m
                } else {
                    r matches Err(e) && e is BadArgument
                }
            }),
    {
        let m = MatchData { string, pattern, regions, names };
        if matchdata_wf_check(&m) {
            Ok(m)
        } else {
            Err(
                Exception::BadArgument(
                    BadArgumentError::from_message(
                        bstr::bytes_of("regions and names do not describe a match"),
                    ),
                ),
            )
        }
    }
}

/// Whether the stored regions and names describe a well formed match.
fn matchdata_wf_check(m: &MatchData) -> (r: bool)
    ensures
        r == m.wf(),
{
    if m.regions.len() < 1 {
        return false;
    }
    let whole_matched = match m.regions[0] {
        Option::Some(_) => true,
        Option::None => false,
    };
    if !whole_matched {
        return false;
    }
    let n = m.regions.len();
    let mut i: usize = 0;
    while i < n
        invariant
            i <= n,
            n == m.regions@.len(),
            forall|k: int|
                0 <= k < i ==> (match #[trigger] m.regions@[k] {
                    Option::Some(reg) => reg.0 <= reg.1 <= m.string@.len(),
                    Option::None => true,
                }),
        decreases n - i,
    {
        match m.regions[i] {
            Option::Some(reg) => {
                if !(reg.0 <= reg.1 && reg.1 <= m.string.len()) {
                    return false;
                }
            },
            Option::None => {},
        }
        i = i + 1;
    }
    let nn = m.names.len();
    let mut j: usize = 0;
    while j < nn
        invariant
            j <= nn,
            nn == m.names@.len(),
            forall|k: int| 0 <= k < j ==> (#[trigger] m.names@[k]).1 < m.regions@.len(),
        decreases nn - j,
    {
        if !(m.names[j].1 < m.regions.len()) {
            return false;
        }
        j = j + 1;
    }
    true
}

/// The region index a named group refers to, if the name is known.
pub open spec fn spec_name_index(names: Seq<(Vec<u8>, usize)>, name: Seq<u8>, i: int) -> Option<
    usize,
>
    decreases names.len() - i,
{
    if i < 0 || i >= names.len() {
        Option::None
    } else if names[i].0@ == name {
        Option::Some(names[i].1)
    } else {
        spec_name_index(names, name, i + 1)
    }
}

/// Look a group name up.
fn name_index(names: &Vec<(Vec<u8>, usize)>, name: &Vec<u8>) -> (r: Option<usize>)
    ensures
        r == spec_name_index(names@, name@, 0),
{
    let n = names.len();
    let mut i: usize = 0;
    while i < n
        invariant
            i <= n,
            n == names@.len(),
            spec_name_index(names@, name@, 0) == spec_name_index(names@, name@, i as int),
        decreases n - i,
    {
        if bstr::bytes_eq(&names[i].0, name) {
            return Option::Some(names[i].1);
        }
        i = i + 1;
    }
    Option::None
}

/// The bytes captured by group `idx`, when the group exists and
/// participated.
pub open spec fn spec_group(data: MatchData, idx: int) -> Option<Seq<u8>> {
    if 0 <= idx < data.regions@.len() {
        match data.regions@[idx] {
            Option::Some(r) => Option::Some(data.string@.subrange(r.0 as int, r.1 as int)),
            Option::None => Option::None,
        }
    } else {
        Option::None
    }
}

/// Copy the bytes captured by group `idx`.
fn group_bytes(data: &MatchData, idx: usize) -> (r: Option<Vec<u8>>)
    requires
        data.wf(),
        idx < data.regions@.len(),
    ensures
        match spec_group(*data, idx as int) {
            Option::Some(s) => r matches Some(v) && v@ == s,
            Option::None => r is None,
        },
{
    match data.regions[idx] {
        Option::Some(r) => Option::Some(bstr::slice_range(&data.string, r.0, r.1)),
        Option::None => Option::None,
    }
}

/// Resolve a capture selector — group index, group name as a string,
/// or group name as a symbol — to a region index.
fn resolve_capture(data: &MatchData, at: &Value) -> (r: Result<usize, Exception>)
    requires
        data.wf(),
    ensures
        match *at {
            Value::Fixnum(i) => if 0 <= i < data.regions@.len() {
                r matches Ok(o) && o == i
            } else {
                r matches Err(e) && e is Index
            },
            Value::Str(s) | Value::Sym(s) => (match spec_name_index(data.names@, s@, 0) {
                Option::Some(g) => r matches Ok(o) && o == g,
                Option::None => r matches Err(e) && e is Index,
            }),
            _ => r matches Err(e) && e is TypeErr,
        },
        r matches Ok(o) ==> o < data.regions@.len(),
{
    match at {
        Value::Fixnum(i) => {
            if *i >= 0 && (*i as u64) < (data.regions.len() as u64) {
                Ok(*i as usize)
            } else {
                Err(
                    Exception::Index(
                        IndexError::from_message(bstr::bytes_of("index out of matches")),
                    ),
                )
            }
        },
        Value::Str(s) | Value::Sym(s) => {
            match name_index(&data.names, s) {
                Option::Some(g) => {
                    proof {
                        lemma_name_index_in_range(data.names@, s@, 0, data.regions@.len() as int);
                    }
                    Ok(g)
                },
                Option::None => Err(
                    Exception::Index(
                        IndexError::from_message(
                            bstr::bytes_of("undefined group name reference"),
                        ),
                    ),
                ),
            }
        },
        _ => Err(
            Exception::TypeErr(
                TypeError::from_message(bstr::bytes_of("no implicit conversion into Integer")),
            ),
        ),
    }
}

/// A found name refers to a region inside the match.
proof fn lemma_name_index_in_range(names: Seq<(Vec<u8>, usize)>, name: Seq<u8>, i: int, bound: int)
    requires
        forall|k: int| 0 <= k < names.len() ==> (#[trigger] names[k]).1 < bound,
    ensures
        match spec_name_index(names, name, i) {
            Option::Some(g) => g < bound,
            Option::None => true,
        },
    decreases names.len() - i,
{
    if 0 <= i < names.len() && !(names[i].0@ == name) {
        lemma_name_index_in_range(names, name, i + 1, bound);
    }
}

/// Where the selected group begins, as an integer value; nil when the
/// group did not participate.
pub fn begin(interp: &mut Artichoke, data: &MatchData, at: &Value) -> (r: Result<Value, Exception>)
    requires
        old(interp).wf(),
        data.wf(),
    ensures
        *final(interp) == *old(interp),
        match *at {
            Value::Fixnum(i) => if 0 <= i < data.regions@.len() {
                match data.regions@[i as int] {
                    Option::Some(reg) => r matches Ok(v) && v == Value::Fixnum(reg.0 as i64),
                    Option::None => r matches Ok(v) && v is Nil,
                }
            } else {
                r matches Err(e) && e is Index
            },
            Value::Str(s) | Value::Sym(s) => (match spec_name_index(data.names@, s@, 0) {
                Option::Some(g) => match data.regions@[g as int] {
                    Option::Some(reg) => r matches Ok(v) && v == Value::Fixnum(reg.0 as i64),
                    Option::None => r matches Ok(v) && v is Nil,
                },
                Option::None => r matches Err(e) && e is Index,
            }),
            _ => r matches Err(e) && e is TypeErr,
        },
{
    let idx = match resolve_capture(data, at) {
        Ok(idx) => idx,
        Err(e) => {
            return Err(e);
        },
    };
    match data.regions[idx] {
        Option::Some(reg) => Ok(Value::Fixnum(reg.0 as i64)),
        Option::None => Ok(Value::Nil),
    }
}

/// Where the selected group ends, as an integer value; nil when the
/// group did not participate.
pub fn end(interp: &mut Artichoke, data: &MatchData, at: &Value) -> (r: Result<Value, Exception>)
    requires
        old(interp).wf(),
        data.wf(),
    ensures
        *final(interp) == *old(interp),
        match *at {
            Value::Fixnum(i) => if 0 <= i < data.regions@.len() {
                match data.regions@[i as int] {
                    Option::Some(reg) => r matches Ok(v) && v == Value::Fixnum(reg.1 as i64),
                    Option::None => r matches Ok(v) && v is Nil,
                }
            } else {
                r matches Err(e) && e is Index
            },
            Value::Str(s) | Value::Sym(s) => (match spec_name_index(data.names@, s@, 0) {
                Option::Some(g) => match data.regions@[g as int] {
                    Option::Some(reg) => r matches Ok(v) && v == Value::Fixnum(reg.1 as i64),
                    Option::None => r matches Ok(v) && v is Nil,
                },
                Option::None => r matches Err(e) && e is Index,
            }),
            _ => r matches Err(e) && e is TypeErr,
        },
{
    let idx = match resolve_capture(data, at) {
        Ok(idx) => idx,
        Err(e) => {
            return Err(e);
        },
    };
    match data.regions[idx] {
        Option::Some(reg) => Ok(Value::Fixnum(reg.1 as i64)),
        Option::None => Ok(Value::Nil),
    }
}

/// Both ends of the selected group as a two-element array, or a pair
/// of nils when the group did not participate.
pub fn offset(interp: &mut Artichoke, data: &MatchData, at: &Value) -> (r: Result<Value, Exception>)
    requires
        old(interp).wf(),
        data.wf(),
    ensures
        *final(interp) == *old(interp),
        match *at {
            Value::Fixnum(i) => if 0 <= i < data.regions@.len() {
                r matches Ok(v) && v matches Value::Array(items) && offset_pair(
                    items@,
                    data.regions@[i as int],
                )
            } else {
                r matches Err(e) && e is Index
            },
            Value::Str(s) | Value::Sym(s) => (match spec_name_index(data.names@, s@, 0) {
                Option::Some(g) => r matches Ok(v) && v matches Value::Array(items) && offset_pair(
                    items@,
                    data.regions@[g as int],
                ),
                Option::None => r matches Err(e) && e is Index,
            }),
            _ => r matches Err(e) && e is TypeErr,
        },
{
    let idx = match resolve_capture(data, at) {
        Ok(idx) => idx,
        Err(e) => {
            return Err(e);
        },
    };
    let mut items: Vec<Value> = Vec::new();
    match data.regions[idx] {
        Option::Some(reg) => {
            items.push(Value::Fixnum(reg.0 as i64));
            items.push(Value::Fixnum(reg.1 as i64));
        },
        Option::None => {
            items.push(Value::Nil);
            items.push(Value::Nil);
        },
    }
    Ok(Value::Array(items))
}

/// Whether a two-element sequence carries a region's two ends, or two
/// nils for an absent region.
pub open spec fn offset_pair(items: Seq<Value>, region: Option<(usize, usize)>) -> bool {
    items.len() == 2 && match region {
        Option::Some(reg) => items[0] == Value::Fixnum(reg.0 as i64) && items[1] == Value::Fixnum(
            reg.1 as i64,
        ),
        Option::None => items[0] is Nil && items[1] is Nil,
    }
}

/// Number of capture groups, counting the whole match.
pub fn length(interp: &mut Artichoke, data: &MatchData) -> (r: Result<Value, Exception>)
    requires
        old(interp).wf(),
        data.wf(),
    ensures
        *final(interp) == *old(interp),
        r matches Ok(v) && v == Value::Fixnum(data.regions@.len() as i64),
    {
    Ok(Value::Fixnum(data.regions.len() as i64))
}

/// The captured substrings of groups one onward, a nil for each group
/// that did not participate.
pub fn captures(interp: &mut Artichoke, data: &MatchData) -> (r: Result<Value, Exception>)
    requires
        old(interp).wf(),
        data.wf(),
    ensures
        *final(interp) == *old(interp),
        r matches Ok(v) && v matches Value::Array(items) && {
            &&& items@.len() == data.regions@.len() - 1
            &&& forall|i: int|
                1 <= i < data.regions@.len() ==> group_value(#[trigger] items@[i - 1], *data, i)
        },
{
    let mut items: Vec<Value> = Vec::new();
    let n = data.regions.len();
    let mut i: usize = 1;
    while i < n
        invariant
            1 <= i <= n,
            n == data.regions@.len(),
            data.wf(),
            items@.len() == i - 1,
            forall|k: int| 1 <= k < i ==> group_value(#[trigger] items@[k - 1], *data, k),
        decreases n - i,
    {
        match group_bytes(data, i) {
            Option::Some(bytes) => items.push(Value::Str(bytes)),
            Option::None => items.push(Value::Nil),
        }
        i = i + 1;
    }
    Ok(Value::Array(items))
}

/// Whether `v` carries the captured bytes of group `idx`, or nil when
/// the group did not participate.
pub open spec fn group_value(v: Value, data: MatchData, idx: int) -> bool {
    match spec_group(data, idx) {
        Option::Some(s) => v matches Value::Str(b) && b@ == s,
        Option::None => v is Nil,
    }
}

/// All captured substrings including the whole match.
pub fn to_a(interp: &mut Artichoke, data: &MatchData) -> (r: Result<Value, Exception>)
    requires
        old(interp).wf(),
        data.wf(),
    ensures
        *final(interp) == *old(interp),
        r matches Ok(v) && v matches Value::Array(items) && {
            &&& items@.len() == data.regions@.len()
            &&& forall|i: int|
                0 <= i < data.regions@.len() ==> group_value(#[trigger] items@[i], *data, i)
        },
{
    let mut items: Vec<Value> = Vec::new();
    let n = data.regions.len();
    let mut i: usize = 0;
    while i < n
        invariant
            i <= n,
            n == data.regions@.len(),
            data.wf(),
            items@.len() == i,
            forall|k: int| 0 <= k < i ==> group_value(#[trigger] items@[k], *data, k),
        decreases n - i,
    {
        match group_bytes(data, i) {
            Option::Some(bytes) => items.push(Value::Str(bytes)),
            Option::None => items.push(Value::Nil),
        }
        i = i + 1;
    }
    Ok(Value::Array(items))
}

/// The names of the named groups, in declaration order.
pub fn names(interp: &mut Artichoke, data: &MatchData) -> (r: Result<Value, Exception>)
    requires
        old(interp).wf(),
        data.wf(),
    ensures
        *final(interp) == *old(interp),
        r matches Ok(v) && v matches Value::Array(items) && {
            &&& items@.len() == data.names@.len()
            &&& forall|i: int|
                0 <= i < data.names@.len() ==> ((#[trigger] items@[i]) matches Value::Str(b) && b@
                    == data.names@[i].0@)
        },
{
    let mut items: Vec<Value> = Vec::new();
    let n = data.names.len();
    let mut i: usize = 0;
    while i < n
        invariant
            i <= n,
            n == data.names@.len(),
            items@.len() == i,
            forall|k: int|
                0 <= k < i ==> ((#[trigger] items@[k]) matches Value::Str(b) && b@
                    == data.names@[k].0@),
        decreases n - i,
    {
        items.push(Value::Str(bstr::clone_bytes(&data.names[i].0)));
        i = i + 1;
    }
    Ok(Value::Array(items))
}

/// The named groups as a hash from name to captured substring, nil for
/// a group that did not participate.
pub fn named_captures(interp: &mut Artichoke, data: &MatchData) -> (r: Result<Value, Exception>)
    requires
        old(interp).wf(),
        data.wf(),
    ensures
        *final(interp) == *old(interp),
        r matches Ok(v) && v matches Value::Hash(pairs) && {
            &&& pairs@.len() == data.names@.len()
            &&& forall|i: int|
                0 <= i < data.names@.len() ==> ((#[trigger] pairs@[i]).0 matches Value::Str(k)
                    && k@ == data.names@[i].0@) && group_value(
                    pairs@[i].1,
                    *data,
                    data.names@[i].1 as int,
                )
        },
{
    let mut pairs: Vec<(Value, Value)> = Vec::new();
    let n = data.names.len();
    let mut i: usize = 0;
    while i < n
        invariant
            i <= n,
            n == data.names@.len(),
            data.wf(),
            pairs@.len() == i,
            forall|k: int|
                0 <= k < i ==> ((#[trigger] pairs@[k]).0 matches Value::Str(key) && key@
                    == data.names@[k].0@) && group_value(pairs@[k].1, *data, data.names@[k].1 as int),
        decreases n - i,
    {
        let key = Value::Str(bstr::clone_bytes(&data.names[i].0));
        let val = match group_bytes(data, data.names[i].1) {
            Option::Some(bytes) => Value::Str(bytes),
            Option::None => Value::Nil,
        };
        pairs.push((key, val));
        i = i + 1;
    }
    Ok(Value::Hash(pairs))
}

/// The region of the whole match.
pub open spec fn spec_whole_region(data: MatchData) -> (usize, usize) {
    match data.regions@[0] {
        Option::Some(r) => r,
        Option::None => (0usize, 0usize),
    }
}

/// The part of the haystack before the whole match.
pub fn pre_match(interp: &mut Artichoke, data: &MatchData) -> (r: Result<Value, Exception>)
    requires
        old(interp).wf(),
        data.wf(),
    ensures
        *final(interp) == *old(interp),
        r matches Ok(v) && v matches Value::Str(s) && s@ == data.string@.subrange(
            0,
            spec_whole_region(*data).0 as int,
        ),
{
    let reg = match data.regions[0] {
        Option::Some(reg) => reg,
        Option::None => (0, 0),
    };
    Ok(Value::Str(bstr::slice_range(&data.string, 0, reg.0)))
}

/// The part of the haystack after the whole match.
pub fn post_match(interp: &mut Artichoke, data: &MatchData) -> (r: Result<Value, Exception>)
    requires
        old(interp).wf(),
        data.wf(),
    ensures
        *final(interp) == *old(interp),
        r matches Ok(v) && v matches Value::Str(s) && s@ == data.string@.subrange(
            spec_whole_region(*data).1 as int,
            data.string@.len() as int,
        ),
{
    let reg = match data.regions[0] {
        Option::Some(reg) => reg,
        Option::None => (0, 0),
    };
    Ok(Value::Str(bstr::slice_range(&data.string, reg.1, data.string.len())))
}

/// The source of the pattern that produced this match.
///
/// The pattern engine lives outside this interpreter, so the pattern
/// is handed back as its source text rather than as a live pattern
/// object.
pub fn regexp(interp: &mut Artichoke, data: &MatchData) -> (r: Result<Value, Exception>)
    requires
        old(interp).wf(),
    ensures
        *final(interp) == *old(interp),
        r matches Ok(v) && v matches Value::Str(s) && s@ == data.pattern@,
{
    Ok(Value::Str(bstr::clone_bytes(&data.pattern)))
}

/// The haystack the match ran over.
pub fn string(interp: &mut Artichoke, data: &MatchData) -> (r: Result<Value, Exception>)
    requires
        old(interp).wf(),
    ensures
        *final(interp) == *old(interp),
        r matches Ok(v) && v matches Value::Str(s) && s@ == data.string@,
{
    Ok(Value::Str(bstr::clone_bytes(&data.string)))
}

/// The whole matched substring.
pub fn to_s(interp: &mut Artichoke, data: &MatchData) -> (r: Result<Value, Exception>)
    requires
        old(interp).wf(),
        data.wf(),
    ensures
        *final(interp) == *old(interp),
        r matches Ok(v) && v matches Value::Str(s) && s@ == data.string@.subrange(
            spec_whole_region(*data).0 as int,
            spec_whole_region(*data).1 as int,
        ),
{
    let reg = match data.regions[0] {
        Option::Some(reg) => reg,
        Option::None => (0, 0),
    };
    Ok(Value::Str(bstr::slice_range(&data.string, reg.0, reg.1)))
}

/// Whether `r` is the sub-array of all captured substrings selected by
/// `start` and `count`: a negative start counts from the end, the
/// selection is truncated at the capture list's end, and a selection
/// that falls outside the list is nil.
pub open spec fn slice_selection(
    data: MatchData,
    start: int,
    count: int,
    r: Result<Value, Exception>,
) -> bool {
    let total = data.regions@.len() as int;
    let b = if start < 0 {
        start + total
    } else {
        start
    };
    if b < 0 || b > total || count < 0 {
        r matches Ok(v) && v is Nil
    } else {
        let e = if b + count > total {
            total
        } else {
            b + count
        };
        r matches Ok(v) && v matches Value::Array(items) && items@.len() == e - b && (forall|
            k: int,
        |
            0 <= k < e - b ==> group_value(#[trigger] items@[k], data, b + k))
    }
}

/// Select from the match by group index, group name, or a slice of the
/// capture list: an integer selects a group (negative counts from the
/// end), a string or symbol selects a named group, an explicit start
/// and length or a range selects a sub-array of all captured
/// substrings, and any other selector yields nil.
pub fn element_reference(
    interp: &mut Artichoke,
    data: &MatchData,
    elem: &Value,
    len: Option<&Value>,
) -> (r: Result<Value, Exception>)
    requires
        old(interp).wf(),
        data.wf(),
    ensures
        final(interp).wf(),
        *final(interp) == *old(interp),
        match len {
            Option::Some(l) => match (*elem, *l) {
                (Value::Fixnum(start), Value::Fixnum(count)) => slice_selection(
                    *data,
                    start as int,
                    count as int,
                    r,
                ),
                _ => r is Err,
            },
            Option::None => match *elem {
                Value::Fixnum(i) => ({
                    let total = data.regions@.len() as int;
                    let idx = if i < 0 {
                        i + total
                    } else {
                        i as int
                    };
                    if 0 <= idx < total {
                        r matches Ok(v) && group_value(v, *data, idx)
                    } else {
                        r matches Ok(v) && v is Nil
                    }
                }),
                Value::Str(n) | Value::Sym(n) => (match spec_name_index(data.names@, n@, 0) {
                    Option::Some(g) => r matches Ok(v) && group_value(v, *data, g as int),
                    Option::None => r matches Err(e) && e is Index,
                }),
                Value::Range { .. } => if data.regions@.len() > i64::MAX {
                    r is Err
                } else {
                    match crate::value::spec_range_norm(*elem, data.regions@.len() as int) {
                        Option::Some(sel) => slice_selection(*data, sel.0 as int, sel.1 as int, r),
                        Option::None => r matches Ok(v) && v is Nil,
                    }
                },
                _ => r matches Ok(v) && v is Nil,
            },
        },
{
    match len {
        Option::Some(l) => {
            let start = match elem.implicitly_convert_to_int(interp) {
                Ok(s) => s,
                Err(e) => {
                    return Err(Exception::TypeErr(e));
                },
            };
            let count = match l.implicitly_convert_to_int(interp) {
                Ok(c) => c,
                Err(e) => {
                    return Err(Exception::TypeErr(e));
                },
            };
            slice_captures(interp, data, start, count)
        },
        Option::None => {
            match elem {
                Value::Fixnum(i) => {
                    let count = data.regions.len();
                    let idx: i128 = if *i < 0 {
                        (*i as i128) + (count as i128)
                    } else {
                        *i as i128
                    };
                    if idx < 0 || idx >= (count as i128) {
                        return Ok(Value::Nil);
                    }
                    match group_bytes(data, idx as usize) {
                        Option::Some(bytes) => Ok(Value::Str(bytes)),
                        Option::None => Ok(Value::Nil),
                    }
                },
                Value::Str(_) | Value::Sym(_) => {
                    let idx = match resolve_capture(data, elem) {
                        Ok(idx) => idx,
                        Err(e) => {
                            return Err(e);
                        },
                    };
                    match group_bytes(data, idx) {
                        Option::Some(bytes) => Ok(Value::Str(bytes)),
                        Option::None => Ok(Value::Nil),
                    }
                },
                Value::Range { .. } => {
                    let count = data.regions.len();
                    if (count as u64) > (i64::MAX as u64) {
                        return Err(
                            Exception::BadArgument(
                                BadArgumentError::from_message(
                                    bstr::bytes_of("input string too long"),
                                ),
                            ),
                        );
                    }
                    match elem.is_range(interp, count as i64) {
                        Ok(Option::Some((start, slice_len))) => slice_captures(
                            interp,
                            data,
                            start,
                            slice_len,
                        ),
                        Ok(Option::None) => Ok(Value::Nil),
                        Err(e) => Err(e),
                    }
                },
                _ => Ok(Value::Nil),
            }
        },
    }
}

/// A sub-array of all captured substrings, selected by start and
/// count; a negative start counts from the end, and a selection that
/// falls outside the capture list is nil.
fn slice_captures(interp: &mut Artichoke, data: &MatchData, start: i64, count: i64) -> (r: Result<
    Value,
    Exception,
>)
    requires
        old(interp).wf(),
        data.wf(),
    ensures
        final(interp).wf(),
        *final(interp) == *old(interp),
        slice_selection(*data, start as int, count as int, r),
{
    let total = data.regions.len();
    let begin_at: i128 = if start < 0 {
        (start as i128) + (total as i128)
    } else {
        start as i128
    };
    if begin_at < 0 || begin_at > (total as i128) || count < 0 {
        return Ok(Value::Nil);
    }
    let mut end_at: i128 = begin_at + (count as i128);
    if end_at > (total as i128) {
        end_at = total as i128;
    }
    let mut items: Vec<Value> = Vec::new();
    let begin_idx: usize = begin_at as usize;
    let mut i: usize = begin_idx;
    let stop: usize = end_at as usize;
    while i < stop
        invariant
            begin_idx <= i <= stop,
            stop <= data.regions@.len(),
            data.wf(),
            items@.len() == i - begin_idx,
            forall|k: int|
                0 <= k < i - begin_idx ==> group_value(
                    #[trigger] items@[k],
                    *data,
                    begin_idx + k,
                ),
        decreases stop - i,
    {
        match group_bytes(data, i) {
            Option::Some(bytes) => items.push(Value::Str(bytes)),
            Option::None => items.push(Value::Nil),
        }
        i = i + 1;
    }
    Ok(Value::Array(items))
}


/// Byte facts about the `MatchData` constant and method names: each
/// name's length, leading byte — and for the two names that agree on
/// both, a later byte — and freedom from NUL bytes. Together these
/// tell every pair of the method names apart.
pub proof fn lemma_matchdata_name_bytes()
    ensures
        "MatchData".spec_bytes().len() == 9,
        "MatchData".spec_bytes()[0] == 77u8,
        name_has_no_nul("MatchData".spec_bytes()),
        "begin".spec_bytes().len() == 5,
        "begin".spec_bytes()[0] == 98u8,
        name_has_no_nul("begin".spec_bytes()),
        "captures".spec_bytes().len() == 8,
        "captures".spec_bytes()[0] == 99u8,
        name_has_no_nul("captures".spec_bytes()),
        "[]".spec_bytes().len() == 2,
        "[]".spec_bytes()[0] == 91u8,
        name_has_no_nul("[]".spec_bytes()),
        "length".spec_bytes().len() == 6,
        "length".spec_bytes()[0] == 108u8,
        name_has_no_nul("length".spec_bytes()),
        "named_captures".spec_bytes().len() == 14,
        "named_captures".spec_bytes()[0] == 110u8,
        name_has_no_nul("named_captures".spec_bytes()),
        "names".spec_bytes().len() == 5,
        "names".spec_bytes()[0] == 110u8,
        name_has_no_nul("names".spec_bytes()),
        "offset".spec_bytes().len() == 6,
        "offset".spec_bytes()[0] == 111u8,
        name_has_no_nul("offset".spec_bytes()),
        "post_match".spec_bytes().len() == 10,
        "post_match".spec_bytes()[0] == 112u8,
        name_has_no_nul("post_match".spec_bytes()),
        "pre_match".spec_bytes().len() == 9,
        "pre_match".spec_bytes()[0] == 112u8,
        name_has_no_nul("pre_match".spec_bytes()),
        "regexp".spec_bytes().len() == 6,
        "regexp".spec_bytes()[0] == 114u8,
        name_has_no_nul("regexp".spec_bytes()),
        "size".spec_bytes().len() == 4,
        "size".spec_bytes()[0] == 115u8,
        name_has_no_nul("size".spec_bytes()),
        "string".spec_bytes().len() == 6,
        "string".spec_bytes()[0] == 115u8,
        name_has_no_nul("string".spec_bytes()),
        "to_a".spec_bytes().len() == 4,
        "to_a".spec_bytes()[0] == 116u8,
        "to_a".spec_bytes()[3] == 97u8,
        name_has_no_nul("to_a".spec_bytes()),
        "to_s".spec_bytes().len() == 4,
        "to_s".spec_bytes()[0] == 116u8,
        "to_s".spec_bytes()[3] == 115u8,
        name_has_no_nul("to_s".spec_bytes()),
        "end".spec_bytes().len() == 3,
        "end".spec_bytes()[0] == 101u8,
        name_has_no_nul("end".spec_bytes()),
{
    reveal_strlit("MatchData");
    assert(is_ascii_chars("MatchData"@));
    lemma_literal_bytes("MatchData");
    reveal_strlit("begin");
    assert(is_ascii_chars("begin"@));
    lemma_literal_bytes("begin");
    reveal_strlit("captures");
    assert(is_ascii_chars("captures"@));
    lemma_literal_bytes("captures");
    reveal_strlit("[]");
    assert(is_ascii_chars("[]"@));
    lemma_literal_bytes("[]");
    reveal_strlit("length");
    assert(is_ascii_chars("length"@));
    lemma_literal_bytes("length");
    reveal_strlit("named_captures");
    assert(is_ascii_chars("named_captures"@));
    lemma_literal_bytes("named_captures");
    reveal_strlit("names");
    assert(is_ascii_chars("names"@));
    lemma_literal_bytes("names");
    reveal_strlit("offset");
    assert(is_ascii_chars("offset"@));
    lemma_literal_bytes("offset");
    reveal_strlit("post_match");
    assert(is_ascii_chars("post_match"@));
    lemma_literal_bytes("post_match");
    reveal_strlit("pre_match");
    assert(is_ascii_chars("pre_match"@));
    lemma_literal_bytes("pre_match");
    reveal_strlit("regexp");
    assert(is_ascii_chars("regexp"@));
    lemma_literal_bytes("regexp");
    reveal_strlit("size");
    assert(is_ascii_chars("size"@));
    lemma_literal_bytes("size");
    reveal_strlit("string");
    assert(is_ascii_chars("string"@));
    lemma_literal_bytes("string");
    reveal_strlit("to_a");
    assert(is_ascii_chars("to_a"@));
    lemma_literal_bytes("to_a");
    assert("to_a".spec_bytes()[3] == "to_a"@[3] as u8);
    reveal_strlit("to_s");
    assert(is_ascii_chars("to_s"@));
    lemma_literal_bytes("to_s");
    assert("to_s".spec_bytes()[3] == "to_s"@[3] as u8);
    reveal_strlit("end");
    assert(is_ascii_chars("end"@));
    lemma_literal_bytes("end");
}

/// Whether a method table carries the whole `MatchData` method set:
/// each of the fifteen instance methods bound to its native entry
/// point with its declared arity.
pub open spec fn matchdata_methods_bound(methods: Seq<MethodBinding>) -> bool {
    &&& method_bound(methods, method::Type::Instance, "begin".spec_bytes(), Method::MatchDataBegin, 1, 0)
    &&& method_bound(methods, method::Type::Instance, "captures".spec_bytes(), Method::MatchDataCaptures, 0, 0)
    &&& method_bound(methods, method::Type::Instance, "[]".spec_bytes(), Method::MatchDataElementReference, 1, 1)
    &&& method_bound(methods, method::Type::Instance, "length".spec_bytes(), Method::MatchDataLength, 0, 0)
    &&& method_bound(methods, method::Type::Instance, "named_captures".spec_bytes(), Method::MatchDataNamedCaptures, 0, 0)
    &&& method_bound(methods, method::Type::Instance, "names".spec_bytes(), Method::MatchDataNames, 0, 0)
    &&& method_bound(methods, method::Type::Instance, "offset".spec_bytes(), Method::MatchDataOffset, 1, 0)
    &&& method_bound(methods, method::Type::Instance, "post_match".spec_bytes(), Method::MatchDataPostMatch, 0, 0)
    &&& method_bound(methods, method::Type::Instance, "pre_match".spec_bytes(), Method::MatchDataPreMatch, 0, 0)
    &&& method_bound(methods, method::Type::Instance, "regexp".spec_bytes(), Method::MatchDataRegexp, 0, 0)
    &&& method_bound(methods, method::Type::Instance, "size".spec_bytes(), Method::MatchDataLength, 0, 0)
    &&& method_bound(methods, method::Type::Instance, "string".spec_bytes(), Method::MatchDataString, 0, 0)
    &&& method_bound(methods, method::Type::Instance, "to_a".spec_bytes(), Method::MatchDataToA, 0, 0)
    &&& method_bound(methods, method::Type::Instance, "to_s".spec_bytes(), Method::MatchDataToS, 0, 0)
    &&& method_bound(methods, method::Type::Instance, "end".spec_bytes(), Method::MatchDataEnd, 1, 0)
}

/// Whether one accumulated method entry is an instance binding with
/// the given name, native entry point and arity.
pub open spec fn spec_entry_is(
    entry: method::Spec,
    name: Seq<u8>,
    native: Method,
    required: u32,
    optional: u32,
) -> bool {
    entry.kind == method::Type::Instance && entry.name@ == name && entry.method == native
        && entry.args == (method::Arity { required, optional })
}

/// Whether a builder's accumulated method list is exactly the
/// `MatchData` method set, in binding order.
pub open spec fn matchdata_method_list(specs: Seq<method::Spec>) -> bool {
    &&& specs.len() == 15
    &&& spec_entry_is(specs[0], "begin".spec_bytes(), Method::MatchDataBegin, 1, 0)
    &&& spec_entry_is(specs[1], "captures".spec_bytes(), Method::MatchDataCaptures, 0, 0)
    &&& spec_entry_is(specs[2], "[]".spec_bytes(), Method::MatchDataElementReference, 1, 1)
    &&& spec_entry_is(specs[3], "length".spec_bytes(), Method::MatchDataLength, 0, 0)
    &&& spec_entry_is(specs[4], "named_captures".spec_bytes(), Method::MatchDataNamedCaptures, 0, 0)
    &&& spec_entry_is(specs[5], "names".spec_bytes(), Method::MatchDataNames, 0, 0)
    &&& spec_entry_is(specs[6], "offset".spec_bytes(), Method::MatchDataOffset, 1, 0)
    &&& spec_entry_is(specs[7], "post_match".spec_bytes(), Method::MatchDataPostMatch, 0, 0)
    &&& spec_entry_is(specs[8], "pre_match".spec_bytes(), Method::MatchDataPreMatch, 0, 0)
    &&& spec_entry_is(specs[9], "regexp".spec_bytes(), Method::MatchDataRegexp, 0, 0)
    &&& spec_entry_is(specs[10], "size".spec_bytes(), Method::MatchDataLength, 0, 0)
    &&& spec_entry_is(specs[11], "string".spec_bytes(), Method::MatchDataString, 0, 0)
    &&& spec_entry_is(specs[12], "to_a".spec_bytes(), Method::MatchDataToA, 0, 0)
    &&& spec_entry_is(specs[13], "to_s".spec_bytes(), Method::MatchDataToS, 0, 0)
    &&& spec_entry_is(specs[14], "end".spec_bytes(), Method::MatchDataEnd, 1, 0)
}

/// Binding the `MatchData` method list into a table, later bindings
/// replacing earlier slots, leaves every one of the fifteen methods
/// bound: the names are pairwise distinct, so no binding shadows
/// another.
proof fn lemma_matchdata_table(specs: Seq<method::Spec>, table: Seq<MethodBinding>)
    requires
        matchdata_method_list(specs),
        crate::class::methods_all_bound(specs, table),
    ensures
        matchdata_methods_bound(table),
{
    lemma_matchdata_name_bytes();
    assert forall|i: int, k: int| 0 <= i < k < 15 implies !crate::class::same_slot(
        #[trigger] specs[k],
        #[trigger] specs[i],
    ) by {}
}

/// Define the `MatchData` class — foreign-backed, with its method set —
/// and register it under its host type key.
///
/// Initializing twice defines the class once: an existing registration
/// short-circuits with nothing changed. On the fresh path — the type
/// not yet registered, the root `Object` class in place — success is
/// owed: the class is defined at the root (created, or reused if a
/// class of that name already resolves), marked foreign-backed with
/// the box/unbox free routine, all fifteen instance methods are bound,
/// and the defined descriptor is registered under the key.
pub fn init(interp: &mut Artichoke) -> (r: Result<(), Exception>)
    requires
        old(interp).wf(),
    ensures
        final(interp).wf(),
        *final(interp) == (Artichoke {
            scopes: final(interp).scopes,
            classes: final(interp).classes,
            ..*old(interp)
        }),
        reg_find(old(interp).classes@, KEY_MATCH_DATA) is Some ==> *final(interp) == *old(interp)
            && r is Ok,
        r is Ok ==> reg_find(final(interp).classes@, KEY_MATCH_DATA) is Some,
        reg_find(old(interp).classes@, KEY_MATCH_DATA) is None && find_scope(
            old(interp).scopes@,
            Option::None,
            "Object".spec_bytes(),
        ) is Some ==> {
            &&& r is Ok
            &&& final(interp).classes@.len() == old(interp).classes@.len() + 1
            &&& forall|i: int|
                0 <= i < old(interp).classes@.len()
                    ==> final(interp).classes@[i] == old(interp).classes@[i]
            &&& final(interp).classes@.last().0 == KEY_MATCH_DATA
            &&& final(interp).classes@.last().1.spec_path() == seq!["MatchData".spec_bytes()]
            &&& final(interp).classes@.last().1.spec_free() == Option::Some(Free::BoxUnbox)
            &&& (match reg_find(final(interp).classes@, KEY_MATCH_DATA) {
                Option::Some(j) => {
                    &&& final(interp).classes@[j].1.spec_path() == seq!["MatchData".spec_bytes()]
                    &&& final(interp).classes@[j].1.spec_free() == Option::Some(Free::BoxUnbox)
                },
                Option::None => false,
            })
            &&& (match find_scope(old(interp).scopes@, Option::None, "MatchData".spec_bytes()) {
                Option::None => {
                    &&& final(interp).scopes@.len() == old(interp).scopes@.len() + 1
                    &&& forall|i: int|
                        0 <= i < old(interp).scopes@.len()
                            ==> final(interp).scopes@[i] == old(interp).scopes@[i]
                    &&& final(interp).scopes@.last().kind == crate::interp::ScopeKind::Class
                    &&& final(interp).scopes@.last().name@ == "MatchData".spec_bytes()
                    &&& final(interp).scopes@.last().parent is None
                    &&& final(interp).scopes@.last().superclass == find_scope(
                        old(interp).scopes@,
                        Option::None,
                        "Object".spec_bytes(),
                    )
                    &&& final(interp).scopes@.last().holds_data
                    &&& matchdata_methods_bound(final(interp).scopes@.last().methods@)
                },
                Option::Some(sid) => {
                    &&& final(interp).scopes@.len() == old(interp).scopes@.len()
                    &&& forall|i: int|
                        0 <= i < old(interp).scopes@.len() && i != sid
                            ==> final(interp).scopes@[i] == old(interp).scopes@[i]
                    &&& final(interp).scopes@[sid as int].name@
                        == old(interp).scopes@[sid as int].name@
                    &&& final(interp).scopes@[sid as int].parent
                        == old(interp).scopes@[sid as int].parent
                    &&& final(interp).scopes@[sid as int].holds_data
                    &&& matchdata_methods_bound(final(interp).scopes@[sid as int].methods@)
                },
            })
        },
{
    proof {
        lemma_matchdata_name_bytes();
    }
    if interp.is_class_defined(KEY_MATCH_DATA) {
        return Ok(());
    }
    let spec = match class::Spec::new(
        bstr::bytes_of("MatchData"),
        Option::None,
        Option::Some(box_unbox_free()),
    ) {
        Ok(spec) => spec,
        Err(e) => {
            return Err(Exception::ConstantName(e));
        },
    };
    let builder = class::Builder::for_spec(&spec).value_is_rust_object();
    let builder = match add_matchdata_methods(builder) {
        Ok(b) => b,
        Err(e) => {
            return Err(Exception::ConstantName(e));
        },
    };
    let ghost builder_methods = builder.methods@;
    let ghost pre_scopes = interp.scopes@;
    match builder.define(interp) {
        Ok(()) => {},
        Err(e) => {
            return Err(Exception::NotDefined(e));
        },
    }
    proof {
        assert(spec.spec_path() =~= seq!["MatchData".spec_bytes()]);
        if find_scope(pre_scopes, Option::None, "Object".spec_bytes()) is Some {
            match crate::interp::resolve_path(pre_scopes, spec.spec_path()) {
                Option::Some(sid) => {
                    lemma_matchdata_table(
                        builder_methods,
                        interp.scopes@[sid as int].methods@,
                    );
                },
                Option::None => {
                    lemma_matchdata_table(builder_methods, interp.scopes@.last().methods@);
                },
            }
        }
    }
    let ghost pre = interp.classes@;
    match interp.def_class(KEY_MATCH_DATA, spec) {
        Ok(()) => {
            proof {
                match reg_find(pre, KEY_MATCH_DATA) {
                    Option::Some(j) => {
                        crate::interp::lemma_reg_find_found(pre, KEY_MATCH_DATA, 0);
                        crate::interp::lemma_reg_find_present(
                            interp.classes@,
                            KEY_MATCH_DATA,
                            j,
                        );
                    },
                    Option::None => {
                        crate::interp::lemma_reg_find_present(
                            interp.classes@,
                            KEY_MATCH_DATA,
                            pre.len() as int,
                        );
                        lemma_reg_find_push(
                            pre,
                            (KEY_MATCH_DATA, interp.classes@.last().1),
                            KEY_MATCH_DATA,
                        );
                    },
                }
            }
            Ok(())
        },
        Err(e) => Err(e),
    }
}

/// Accumulate the whole `MatchData` method set onto a fresh builder.
fn add_matchdata_methods<'a>(builder: class::Builder<'a>) -> (r: Result<
    class::Builder<'a>,
    crate::def::ConstantNameError,
>)
    requires
        builder.wf(),
        builder.methods@.len() == 0,
    ensures
        r matches Ok(b) && b.wf() && b.spec == builder.spec && b.is_mrb_tt_data
            == builder.is_mrb_tt_data && b.super_class == builder.super_class
            && matchdata_method_list(b.methods@),
{
    proof {
        lemma_matchdata_name_bytes();
    }
    let builder = match builder.add_method(
        bstr::bytes_of("begin"),
        Method::MatchDataBegin,
        method::args_req(1),
    ) {
        Ok(b) => b,
        Err(e) => {
            return Err(e);
        },
    };
    let builder = match builder.add_method(
        bstr::bytes_of("captures"),
        Method::MatchDataCaptures,
        method::args_none(),
    ) {
        Ok(b) => b,
        Err(e) => {
            return Err(e);
        },
    };
    let builder = match builder.add_method(
        bstr::bytes_of("[]"),
        Method::MatchDataElementReference,
        method::args_req_and_opt(1, 1),
    ) {
        Ok(b) => b,
        Err(e) => {
            return Err(e);
        },
    };
    let builder = match builder.add_method(
        bstr::bytes_of("length"),
        Method::MatchDataLength,
        method::args_none(),
    ) {
        Ok(b) => b,
        Err(e) => {
            return Err(e);
        },
    };
    let builder = match builder.add_method(
        bstr::bytes_of("named_captures"),
        Method::MatchDataNamedCaptures,
        method::args_none(),
    ) {
        Ok(b) => b,
        Err(e) => {
            return Err(e);
        },
    };
    let builder = match builder.add_method(
        bstr::bytes_of("names"),
        Method::MatchDataNames,
        method::args_none(),
    ) {
        Ok(b) => b,
        Err(e) => {
            return Err(e);
        },
    };
    let builder = match builder.add_method(
        bstr::bytes_of("offset"),
        Method::MatchDataOffset,
        method::args_req(1),
    ) {
        Ok(b) => b,
        Err(e) => {
            return Err(e);
        },
    };
    let builder = match builder.add_method(
        bstr::bytes_of("post_match"),
        Method::MatchDataPostMatch,
        method::args_none(),
    ) {
        Ok(b) => b,
        Err(e) => {
            return Err(e);
        },
    };
    let builder = match builder.add_method(
        bstr::bytes_of("pre_match"),
        Method::MatchDataPreMatch,
        method::args_none(),
    ) {
        Ok(b) => b,
        Err(e) => {
            return Err(e);
        },
    };
    let builder = match builder.add_method(
        bstr::bytes_of("regexp"),
        Method::MatchDataRegexp,
        method::args_none(),
    ) {
        Ok(b) => b,
        Err(e) => {
            return Err(e);
        },
    };
    let builder = match builder.add_method(
        bstr::bytes_of("size"),
        Method::MatchDataLength,
        method::args_none(),
    ) {
        Ok(b) => b,
        Err(e) => {
            return Err(e);
        },
    };
    let builder = match builder.add_method(
        bstr::bytes_of("string"),
        Method::MatchDataString,
        method::args_none(),
    ) {
        Ok(b) => b,
        Err(e) => {
            return Err(e);
        },
    };
    let builder = match builder.add_method(
        bstr::bytes_of("to_a"),
        Method::MatchDataToA,
        method::args_none(),
    ) {
        Ok(b) => b,
        Err(e) => {
            return Err(e);
        },
    };
    let builder = match builder.add_method(
        bstr::bytes_of("to_s"),
        Method::MatchDataToS,
        method::args_none(),
    ) {
        Ok(b) => b,
        Err(e) => {
            return Err(e);
        },
    };
    let builder = match builder.add_method(
        bstr::bytes_of("end"),
        Method::MatchDataEnd,
        method::args_req(1),
    ) {
        Ok(b) => b,
        Err(e) => {
            return Err(e);
        },
    };
    Ok(builder)
}

} // verus!
