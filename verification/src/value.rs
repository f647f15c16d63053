//! Interpreter values and the call boundary.
//!
//! A [`Value`] models one slot of the interpreter's value
//! representation: immediates (`nil`, booleans, integers), byte strings
//! and symbols, composites (arrays, hashes, ranges), references into
//! the instance heap, and the interpreter-internal `Unreachable`
//! variant that must never be handled as ordinary data.
//!
//! [`Value::funcall`] is the call boundary: it validates the argument
//! count before any dispatch, dispatches the interpreter's built-in
//! methods, converts an `Unreachable` result into a fatal error instead
//! of handing it to the host, and returns every failure as a typed
//! error — nothing unwinds.

use vstd::prelude::*;
use vstd::string::StringSliceAdditionalSpecFns;
use vstd::utf8::{is_ascii_chars, is_ascii_chars_encode_utf8};

use crate::bstr;
use crate::exception::{BadArgumentError, Exception, FatalError, NoMethodError, TypeError};
use crate::interp::{
    chain_contains, find_method, scope_fqname_at, Artichoke, DataState, Instance, ScopeObj,
};
use crate::method;
use crate::types::Ruby;

verus! {

/// Max argument count for function calls including initialize and
/// yield.
pub const MRB_FUNCALL_ARGC_MAX: usize = 16;

/// One interpreter value.
#[derive(Debug)]
pub enum Value {
    /// The nil value.
    Nil,
    /// A boolean.
    Bool(bool),
    /// A signed integer.
    Fixnum(i64),
    /// A byte string.
    Str(Vec<u8>),
    /// A symbol, carried by its name.
    Sym(Vec<u8>),
    /// An array of values.
    Array(Vec<Value>),
    /// A hash, kept as insertion-ordered key/value pairs.
    Hash(Vec<(Value, Value)>),
    /// An integer range.
    Range { start: i64, end: i64, exclusive: bool },
    /// A plain instance: a reference into the instance heap.
    ObjectRef(usize),
    /// A data-backed instance: a reference into the instance heap whose
    /// slot may box a foreign payload.
    DataRef(usize),
    /// A class object: a reference into the object space.
    ClassRef(usize),
    /// A module object: a reference into the object space.
    ModuleRef(usize),
    /// Interpreter-internal variant; must never be handled as data.
    Unreachable,
}

/// How one byte appears inside an inspected string literal.
pub open spec fn spec_esc_byte(b: u8) -> Seq<u8> {
    if b == 34 {
        seq![92u8, 34u8]
    } else if b == 92 {
        seq![92u8, 92u8]
    } else {
        seq![b]
    }
}

/// A string's bytes with quotes and backslashes escaped.
pub open spec fn spec_escape(s: Seq<u8>) -> Seq<u8>
    decreases s.len(),
{
    if s.len() == 0 {
        Seq::empty()
    } else {
        spec_escape(s.drop_last()) + spec_esc_byte(s.last())
    }
}

/// What `to_s` renders for a value: the empty string for nil, `true` /
/// `false` for booleans, decimal digits for integers, the raw bytes of
/// strings and symbols, the inspected form for arrays and hashes, the
/// endpoints of ranges, and class-derived display forms for heap and
/// object-space references.
pub open spec fn spec_to_s(scopes: Seq<ScopeObj>, heap: Seq<Instance>, v: Value) -> Seq<u8>
    decreases v, 1int, 0int,
{
    match v {
        Value::Nil => Seq::empty(),
        Value::Bool(b) => if b {
            "true".spec_bytes()
        } else {
            "false".spec_bytes()
        },
        Value::Fixnum(n) => bstr::spec_dec_int(n as int),
        Value::Str(s) => s@,
        Value::Sym(s) => s@,
        Value::Array(_) => spec_inspect(scopes, heap, v),
        Value::Hash(_) => spec_inspect(scopes, heap, v),
        Value::Range { start, end, exclusive } => bstr::spec_dec_int(start as int) + (if exclusive {
            "...".spec_bytes()
        } else {
            "..".spec_bytes()
        }) + bstr::spec_dec_int(end as int),
        Value::ObjectRef(i) => spec_instance_display(scopes, heap, i as int),
        Value::DataRef(i) => spec_instance_display(scopes, heap, i as int),
        Value::ClassRef(i) => scope_fqname_at(scopes, i as int),
        Value::ModuleRef(i) => scope_fqname_at(scopes, i as int),
        Value::Unreachable => Seq::empty(),
    }
}

/// `#<ClassName>` for an instance on the heap.
pub open spec fn spec_instance_display(scopes: Seq<ScopeObj>, heap: Seq<Instance>, i: int) -> Seq<
    u8,
> {
    if 0 <= i < heap.len() {
        "#<".spec_bytes() + scope_fqname_at(scopes, heap[i].class as int) + ">".spec_bytes()
    } else {
        "#<>".spec_bytes()
    }
}

/// What `inspect` renders for a value: `nil` spelled out, strings
/// quoted and escaped, symbols with a leading colon, arrays and hashes
/// with inspected elements, and the `to_s` form for the rest.
pub open spec fn spec_inspect(scopes: Seq<ScopeObj>, heap: Seq<Instance>, v: Value) -> Seq<u8>
    decreases v, 0int, 0int,
{
    match v {
        Value::Nil => "nil".spec_bytes(),
        Value::Str(s) => "\"".spec_bytes() + spec_escape(s@) + "\"".spec_bytes(),
        Value::Sym(s) => ":".spec_bytes() + s@,
        Value::Array(items) => "[".spec_bytes() + spec_join_inspect(
            scopes,
            heap,
            items@,
            items@.len() as int,
        ) + "]".spec_bytes(),
        Value::Hash(pairs) => "{".spec_bytes() + spec_join_pairs(
            scopes,
            heap,
            pairs@,
            pairs@.len() as int,
        ) + "}".spec_bytes(),
        Value::Bool(b) => if b {
            "true".spec_bytes()
        } else {
            "false".spec_bytes()
        },
        Value::Fixnum(n) => bstr::spec_dec_int(n as int),
        Value::Range { start, end, exclusive } => bstr::spec_dec_int(start as int) + (if exclusive {
            "...".spec_bytes()
        } else {
            "..".spec_bytes()
        }) + bstr::spec_dec_int(end as int),
        Value::ObjectRef(i) => spec_instance_display(scopes, heap, i as int),
        Value::DataRef(i) => spec_instance_display(scopes, heap, i as int),
        Value::ClassRef(i) => scope_fqname_at(scopes, i as int),
        Value::ModuleRef(i) => scope_fqname_at(scopes, i as int),
        Value::Unreachable => Seq::empty(),
    }
}

/// The first `n` elements inspected and joined with `, `.
pub open spec fn spec_join_inspect(
    scopes: Seq<ScopeObj>,
    heap: Seq<Instance>,
    items: Seq<Value>,
    n: int,
) -> Seq<u8>
    decreases items, 0int, n,
{
    if n <= 0 || n > items.len() {
        Seq::empty()
    } else {
        spec_join_inspect(scopes, heap, items, n - 1) + (if n >= 2 {
            ", ".spec_bytes()
        } else {
            Seq::empty()
        }) + spec_inspect(scopes, heap, items[n - 1])
    }
}

/// The first `n` pairs inspected as `key => value` and joined with
/// `, `.
pub open spec fn spec_join_pairs(
    scopes: Seq<ScopeObj>,
    heap: Seq<Instance>,
    pairs: Seq<(Value, Value)>,
    n: int,
) -> Seq<u8>
    decreases pairs, 0int, n,
{
    if n <= 0 || n > pairs.len() {
        Seq::empty()
    } else {
        spec_join_pairs(scopes, heap, pairs, n - 1) + (if n >= 2 {
            ", ".spec_bytes()
        } else {
            Seq::empty()
        }) + spec_inspect(scopes, heap, pairs[n - 1].0) + " => ".spec_bytes() + spec_inspect(
            scopes,
            heap,
            pairs[n - 1].1,
        )
    }
}

/// Structural equality of two values: immediates compare by content,
/// strings and symbols byte for byte, composites element by element,
/// and heap or object-space references by identity of the referenced
/// slot.
pub open spec fn spec_val_eq(a: Value, b: Value) -> bool
    decreases a, 0int, 0int,
{
    match (a, b) {
        (Value::Nil, Value::Nil) => true,
        (Value::Bool(x), Value::Bool(y)) => x == y,
        (Value::Fixnum(x), Value::Fixnum(y)) => x == y,
        (Value::Str(x), Value::Str(y)) => x@ == y@,
        (Value::Sym(x), Value::Sym(y)) => x@ == y@,
        (Value::Array(x), Value::Array(y)) => x@.len() == y@.len() && spec_val_eq_list(
            x@,
            y@,
            x@.len() as int,
        ),
        (Value::Hash(x), Value::Hash(y)) => x@.len() == y@.len() && spec_val_eq_pairs(
            x@,
            y@,
            x@.len() as int,
        ),
        (
            Value::Range { start: a1, end: a2, exclusive: a3 },
            Value::Range { start: b1, end: b2, exclusive: b3 },
        ) => a1 == b1 && a2 == b2 && a3 == b3,
        (Value::ObjectRef(x), Value::ObjectRef(y)) => x == y,
        (Value::DataRef(x), Value::DataRef(y)) => x == y,
        (Value::ClassRef(x), Value::ClassRef(y)) => x == y,
        (Value::ModuleRef(x), Value::ModuleRef(y)) => x == y,
        (Value::Unreachable, Value::Unreachable) => true,
        _ => false,
    }
}

/// Elementwise structural equality of the first `n` elements.
pub open spec fn spec_val_eq_list(xs: Seq<Value>, ys: Seq<Value>, n: int) -> bool
    decreases xs, 0int, n,
{
    if n <= 0 || n > xs.len() || n > ys.len() {
        true
    } else {
        spec_val_eq_list(xs, ys, n - 1) && spec_val_eq(xs[n - 1], ys[n - 1])
    }
}

/// Pairwise structural equality of the first `n` pairs.
pub open spec fn spec_val_eq_pairs(xs: Seq<(Value, Value)>, ys: Seq<(Value, Value)>, n: int) -> bool
    decreases xs, 0int, n,
{
    if n <= 0 || n > xs.len() || n > ys.len() {
        true
    } else {
        spec_val_eq_pairs(xs, ys, n - 1) && spec_val_eq(xs[n - 1].0, ys[n - 1].0) && spec_val_eq(
            xs[n - 1].1,
            ys[n - 1].1,
        )
    }
}

/// Whether an instance method named `name` is bound anywhere on the
/// superclass chain starting at entry `cid`.
pub open spec fn chain_has_method(scopes: Seq<ScopeObj>, cid: int, name: Seq<u8>) -> bool
    decreases cid,
{
    if 0 <= cid < scopes.len() {
        find_method(scopes[cid].methods@, method::Type::Instance, name) is Some || (
        match scopes[cid].superclass {
            Option::Some(s) => s < cid && chain_has_method(scopes, s as int, name),
            Option::None => false,
        })
    } else {
        false
    }
}

/// Whether the call boundary dispatches a method named `name` on
/// receiver `v`: the built-in methods every value answers, the
/// per-type built-ins, and the native methods bound on the receiver's
/// class or module.
pub open spec fn spec_responds(
    scopes: Seq<ScopeObj>,
    heap: Seq<Instance>,
    v: Value,
    name: Seq<u8>,
) -> bool {
    ||| name == "to_s".spec_bytes()
    ||| name == "inspect".spec_bytes()
    ||| name == "nil?".spec_bytes()
    ||| name == "==".spec_bytes()
    ||| name == "respond_to?".spec_bytes()
    ||| name == "frozen?".spec_bytes()
    ||| name == "freeze".spec_bytes()
    ||| name == "is_a?".spec_bytes()
    ||| name == "kind_of?".spec_bytes()
    ||| ((name == "length".spec_bytes() || name == "size".spec_bytes()) && (v is Str || v is Array
        || v is Hash))
    ||| (name == "class".spec_bytes() && (v is ObjectRef || v is DataRef))
    ||| (name == "name".spec_bytes() && (v is ClassRef || v is ModuleRef))
    ||| (match v {
        Value::ObjectRef(i) | Value::DataRef(i) => i < heap.len() && chain_has_method(
            scopes,
            heap[i as int].class as int,
            name,
        ),
        Value::ClassRef(i) | Value::ModuleRef(i) => i < scopes.len() && (find_method(
            scopes[i as int].methods@,
            method::Type::Class,
            name,
        ) is Some || find_method(scopes[i as int].methods@, method::Type::Module, name) is Some),
        _ => false,
    })
}

/// The display name `pretty_name` reports for a value.
pub open spec fn spec_pretty_name(scopes: Seq<ScopeObj>, heap: Seq<Instance>, v: Value) -> Seq<u8> {
    match v {
        Value::Bool(b) => if b {
            "true".spec_bytes()
        } else {
            "false".spec_bytes()
        },
        Value::Nil => "nil".spec_bytes(),
        Value::ObjectRef(i) | Value::DataRef(i) => if i < heap.len() {
            scope_fqname_at(scopes, heap[i as int].class as int)
        } else {
            v.spec_ruby_type().spec_class_name()
        },
        _ => v.spec_ruby_type().spec_class_name(),
    }
}

impl Value {
    /// The type tag of this value.
    pub open spec fn spec_ruby_type(&self) -> Ruby {
        match self {
            Value::Nil => Ruby::Nil,
            Value::Bool(_) => Ruby::Bool,
            Value::Fixnum(_) => Ruby::Fixnum,
            Value::Str(_) => Ruby::String,
            Value::Sym(_) => Ruby::Symbol,
            Value::Array(_) => Ruby::Array,
            Value::Hash(_) => Ruby::Hash,
            Value::Range { .. } => Ruby::Range,
            Value::ObjectRef(_) => Ruby::Object,
            Value::DataRef(_) => Ruby::Data,
            Value::ClassRef(_) => Ruby::Class,
            Value::ModuleRef(_) => Ruby::Module,
            Value::Unreachable => Ruby::Unreachable,
        }
    }

    /// Create a new, empty value.
    ///
    /// Alias for [`Value::nil`].
    pub fn new() -> (r: Self)
        ensures
            r is Nil,
    {
        Value::Nil
    }

    /// Create the nil value.
    pub fn nil() -> (r: Self)
        ensures
            r is Nil,
    {
        Value::Nil
    }

    /// The underlying value representation this handle wraps.
    pub fn inner(&self) -> (r: &Value)
        ensures
            r == self,
    {
        self
    }

    /// Return this value's type tag.
    pub fn ruby_type(&self) -> (r: Ruby)
        ensures
            r == self.spec_ruby_type(),
    {
        match self {
            Value::Nil => Ruby::Nil,
            Value::Bool(_) => Ruby::Bool,
            Value::Fixnum(_) => Ruby::Fixnum,
            Value::Str(_) => Ruby::String,
            Value::Sym(_) => Ruby::Symbol,
            Value::Array(_) => Ruby::Array,
            Value::Hash(_) => Ruby::Hash,
            Value::Range { .. } => Ruby::Range,
            Value::ObjectRef(_) => Ruby::Object,
            Value::DataRef(_) => Ruby::Data,
            Value::ClassRef(_) => Ruby::Class,
            Value::ModuleRef(_) => Ruby::Module,
            Value::Unreachable => Ruby::Unreachable,
        }
    }

    /// Whether this value is the interpreter-internal variant not
    /// exposed to scripts; handling one as ordinary data is unsafe, so
    /// the call boundary converts it to a fatal error.
    pub fn is_unreachable(&self) -> (r: bool)
        ensures
            r == (self.spec_ruby_type() == Ruby::Unreachable),
    {
        match self {
            Value::Unreachable => true,
            _ => false,
        }
    }

    /// Whether this value is nil.
    pub fn is_nil(&self) -> (r: bool)
        ensures
            r == (self is Nil),
    {
        match self {
            Value::Nil => true,
            _ => false,
        }
    }

    /// A structurally equal copy of this value.
    pub fn duplicate(&self) -> (r: Self)
        ensures
            spec_val_eq(r, *self),
            r.spec_ruby_type() == self.spec_ruby_type(),
        decreases *self, 1int, 0int,
    {
        match self {
            Value::Nil => Value::Nil,
            Value::Bool(b) => Value::Bool(*b),
            Value::Fixnum(n) => Value::Fixnum(*n),
            Value::Str(s) => Value::Str(bstr::clone_bytes(s)),
            Value::Sym(s) => Value::Sym(bstr::clone_bytes(s)),
            Value::Array(items) => {
                let mut out: Vec<Value> = Vec::new();
                let n = items.len();
                let mut i: usize = 0;
                while i < n
                    invariant
                        i <= n,
                        n == items@.len(),
                        out@.len() == i,
                        *self == Value::Array(*items),
                        forall|k: int| 0 <= k < i ==> spec_val_eq(#[trigger] out@[k], items@[k]),
                    decreases n - i,
                {
                    proof {
                        assert(decreases_to!(*self => self->Array_0));
                        assert(decreases_to!(self->Array_0 => self->Array_0@));
                        assert(decreases_to!(self->Array_0@ => self->Array_0@[i as int]));
                        assert(self->Array_0@ == items@);
                        assert(decreases_to!(*self => items@[i as int]));
                    }
                    let d = items[i].duplicate();
                    out.push(d);
                    i = i + 1;
                }
                proof {
                    lemma_val_eq_list_from_pointwise(out@, items@, n as int);
                }
                Value::Array(out)
            },
            Value::Hash(pairs) => {
                let mut out: Vec<(Value, Value)> = Vec::new();
                let n = pairs.len();
                let mut i: usize = 0;
                while i < n
                    invariant
                        i <= n,
                        n == pairs@.len(),
                        out@.len() == i,
                        *self == Value::Hash(*pairs),
                        forall|k: int|
                            0 <= k < i ==> spec_val_eq(#[trigger] out@[k].0, pairs@[k].0)
                                && spec_val_eq(out@[k].1, pairs@[k].1),
                    decreases n - i,
                {
                    proof {
                        assert(decreases_to!(*self => self->Hash_0));
                        assert(decreases_to!(self->Hash_0 => self->Hash_0@));
                        assert(decreases_to!(self->Hash_0@ => self->Hash_0@[i as int]));
                        assert(self->Hash_0@ == pairs@);
                        assert(decreases_to!(pairs@[i as int] => pairs@[i as int].0));
                        assert(decreases_to!(pairs@[i as int] => pairs@[i as int].1));
                        assert(decreases_to!(*self => pairs@[i as int].0));
                        assert(decreases_to!(*self => pairs@[i as int].1));
                    }
                    let k = pairs[i].0.duplicate();
                    let v = pairs[i].1.duplicate();
                    let ghost gk = k;
                    let ghost gv = v;
                    out.push((k, v));
                    proof {
                        assert(out@.last() == (gk, gv));
                        assert(out@.last().0 == gk && out@.last().1 == gv);
                    }
                    i = i + 1;
                }
                proof {
                    assert forall|q: int| 0 <= q < n implies spec_val_eq(
                        #[trigger] out@[q].0,
                        pairs@[q].0,
                    ) && spec_val_eq(out@[q].1, pairs@[q].1) by {}
                    lemma_val_eq_pairs_from_pointwise(out@, pairs@, n as int);
                }
                Value::Hash(out)
            },
            Value::Range { start, end, exclusive } => Value::Range {
                start: *start,
                end: *end,
                exclusive: *exclusive,
            },
            Value::ObjectRef(i) => Value::ObjectRef(*i),
            Value::DataRef(i) => Value::DataRef(*i),
            Value::ClassRef(i) => Value::ClassRef(*i),
            Value::ModuleRef(i) => Value::ModuleRef(*i),
            Value::Unreachable => Value::Unreachable,
        }
    }
}

/// Pointwise equality up to `n` gives the prefix list equality.
proof fn lemma_val_eq_list_from_pointwise(xs: Seq<Value>, ys: Seq<Value>, n: int)
    requires
        n <= xs.len(),
        n <= ys.len(),
        forall|k: int| 0 <= k < n ==> spec_val_eq(#[trigger] xs[k], ys[k]),
    ensures
        spec_val_eq_list(xs, ys, n),
    decreases n,
{
    if n > 0 {
        lemma_val_eq_list_from_pointwise(xs, ys, n - 1);
    }
}

/// Pointwise pair equality up to `n` gives the pairwise-prefix
/// equality.
proof fn lemma_val_eq_pairs_from_pointwise(xs: Seq<(Value, Value)>, ys: Seq<(Value, Value)>, n: int)
    requires
        n <= xs.len(),
        n <= ys.len(),
        forall|k: int|
            0 <= k < n ==> spec_val_eq(#[trigger] xs[k].0, ys[k].0) && spec_val_eq(xs[k].1, ys[k].1),
    ensures
        spec_val_eq_pairs(xs, ys, n),
    decreases n,
{
    if n > 0 {
        lemma_val_eq_pairs_from_pointwise(xs, ys, n - 1);
    }
}

/// The qualified name of the object-space entry at `i`, following the
/// parent links; entries out of range display as an empty name.
pub fn scope_fqname_vec(scopes: &Vec<ScopeObj>, i: usize) -> (r: Vec<u8>)
    ensures
        r@ == scope_fqname_at(scopes@, i as int),
    decreases i,
{
    if i >= scopes.len() {
        Vec::new()
    } else {
        let sc = &scopes[i];
        match sc.parent {
            Option::None => bstr::clone_bytes(&sc.name),
            Option::Some(p) => {
                if p < i {
                    let mut out = scope_fqname_vec(scopes, p);
                    bstr::append_str(&mut out, "::");
                    bstr::append_bytes(&mut out, &sc.name);
                    out
                } else {
                    bstr::clone_bytes(&sc.name)
                }
            },
        }
    }
}

/// Whether an instance method named `name` is bound anywhere on the
/// superclass chain starting at `cid`.
pub fn chain_method_exists(scopes: &Vec<ScopeObj>, cid: usize, name: &Vec<u8>) -> (r: bool)
    ensures
        r == chain_has_method(scopes@, cid as int, name@),
    decreases cid,
{
    if cid >= scopes.len() {
        false
    } else {
        if crate::interp::find_binding(
            &scopes[cid].methods,
            method::Type::Instance,
            name,
        ).is_some() {
            true
        } else {
            match scopes[cid].superclass {
                Option::Some(s) => {
                    if s < cid {
                        chain_method_exists(scopes, s, name)
                    } else {
                        false
                    }
                },
                Option::None => false,
            }
        }
    }
}

/// Render the `inspect` form of a value.
pub fn inspect_bytes(scopes: &Vec<ScopeObj>, heap: &Vec<Instance>, v: &Value) -> (r: Vec<u8>)
    ensures
        r@ == spec_inspect(scopes@, heap@, *v),
    decreases *v, 0int, 0int,
{
    match v {
        Value::Nil => bstr::bytes_of("nil"),
        Value::Bool(b) => if *b {
            bstr::bytes_of("true")
        } else {
            bstr::bytes_of("false")
        },
        Value::Fixnum(n) => bstr::dec_i64(*n),
        Value::Str(s) => {
            let mut out = bstr::bytes_of("\"");
            let n = s.len();
            let mut i: usize = 0;
            while i < n
                invariant
                    i <= n,
                    n == s@.len(),
                    out@ == "\"".spec_bytes() + spec_escape(s@.subrange(0, i as int)),
                decreases n - i,
            {
                let b = s[i];
                proof {
                    assert(s@.subrange(0, i + 1).drop_last() =~= s@.subrange(0, i as int));
                    assert(s@.subrange(0, i + 1).last() == s@[i as int]);
                }
                if b == 34 {
                    out.push(92);
                    out.push(34);
                } else if b == 92 {
                    out.push(92);
                    out.push(92);
                } else {
                    out.push(b);
                }
                i = i + 1;
                proof {
                    assert(out@ =~= "\"".spec_bytes() + spec_escape(s@.subrange(0, i as int)));
                }
            }
            bstr::append_str(&mut out, "\"");
            proof {
                assert(s@.subrange(0, n as int) =~= s@);
            }
            out
        },
        Value::Sym(s) => {
            let mut out = bstr::bytes_of(":");
            bstr::append_bytes(&mut out, s);
            out
        },
        Value::Array(items) => {
            let mut out = bstr::bytes_of("[");
            let n = items.len();
            let mut i: usize = 0;
            while i < n
                invariant
                    i <= n,
                    n == items@.len(),
                    *v == Value::Array(*items),
                    out@ == "[".spec_bytes() + spec_join_inspect(scopes@, heap@, items@, i as int),
                decreases n - i,
            {
                if i > 0 {
                    bstr::append_str(&mut out, ", ");
                }
                proof {
                    assert(decreases_to!(*v => v->Array_0));
                    assert(decreases_to!(v->Array_0 => v->Array_0@));
                    assert(decreases_to!(v->Array_0@ => v->Array_0@[i as int]));
                    assert(v->Array_0@ == items@);
                    assert(decreases_to!(*v => items@[i as int]));
                }
                let piece = inspect_bytes(scopes, heap, &items[i]);
                bstr::append_bytes(&mut out, &piece);
                i = i + 1;
                proof {
                    assert(out@ =~= "[".spec_bytes() + spec_join_inspect(
                        scopes@,
                        heap@,
                        items@,
                        i as int,
                    ));
                }
            }
            bstr::append_str(&mut out, "]");
            out
        },
        Value::Hash(pairs) => {
            let mut out = bstr::bytes_of("{");
            let n = pairs.len();
            let mut i: usize = 0;
            while i < n
                invariant
                    i <= n,
                    n == pairs@.len(),
                    *v == Value::Hash(*pairs),
                    out@ == "{".spec_bytes() + spec_join_pairs(scopes@, heap@, pairs@, i as int),
                decreases n - i,
            {
                if i > 0 {
                    bstr::append_str(&mut out, ", ");
                }
                proof {
                    assert(decreases_to!(*v => v->Hash_0));
                    assert(decreases_to!(v->Hash_0 => v->Hash_0@));
                    assert(decreases_to!(v->Hash_0@ => v->Hash_0@[i as int]));
                    assert(v->Hash_0@ == pairs@);
                    assert(decreases_to!(pairs@[i as int] => pairs@[i as int].0));
                    assert(decreases_to!(pairs@[i as int] => pairs@[i as int].1));
                    assert(decreases_to!(*v => pairs@[i as int].0));
                    assert(decreases_to!(*v => pairs@[i as int].1));
                }
                let piece = inspect_bytes(scopes, heap, &pairs[i].0);
                bstr::append_bytes(&mut out, &piece);
                bstr::append_str(&mut out, " => ");
                let piece = inspect_bytes(scopes, heap, &pairs[i].1);
                bstr::append_bytes(&mut out, &piece);
                i = i + 1;
                proof {
                    assert(out@ =~= "{".spec_bytes() + spec_join_pairs(
                        scopes@,
                        heap@,
                        pairs@,
                        i as int,
                    ));
                }
            }
            bstr::append_str(&mut out, "}");
            out
        },
        Value::Range { start, end, exclusive } => {
            let mut out = bstr::dec_i64(*start);
            if *exclusive {
                bstr::append_str(&mut out, "...");
            } else {
                bstr::append_str(&mut out, "..");
            }
            let tail = bstr::dec_i64(*end);
            bstr::append_bytes(&mut out, &tail);
            out
        },
        Value::ObjectRef(i) => instance_display(scopes, heap, *i),
        Value::DataRef(i) => instance_display(scopes, heap, *i),
        Value::ClassRef(i) => scope_fqname_vec(scopes, *i),
        Value::ModuleRef(i) => scope_fqname_vec(scopes, *i),
        Value::Unreachable => Vec::new(),
    }
}

/// Render `#<ClassName>` for an instance on the heap.
pub fn instance_display(scopes: &Vec<ScopeObj>, heap: &Vec<Instance>, i: usize) -> (r: Vec<u8>)
    ensures
        r@ == spec_instance_display(scopes@, heap@, i as int),
{
    if i < heap.len() {
        let mut out = bstr::bytes_of("#<");
        let name = scope_fqname_vec(scopes, heap[i].class);
        bstr::append_bytes(&mut out, &name);
        bstr::append_str(&mut out, ">");
        out
    } else {
        bstr::bytes_of("#<>")
    }
}

/// Render the `to_s` form of a value.
pub fn to_s_bytes(scopes: &Vec<ScopeObj>, heap: &Vec<Instance>, v: &Value) -> (r: Vec<u8>)
    ensures
        r@ == spec_to_s(scopes@, heap@, *v),
    decreases *v, 1int, 0int,
{
    match v {
        Value::Nil => Vec::new(),
        Value::Bool(b) => if *b {
            bstr::bytes_of("true")
        } else {
            bstr::bytes_of("false")
        },
        Value::Fixnum(n) => bstr::dec_i64(*n),
        Value::Str(s) => bstr::clone_bytes(s),
        Value::Sym(s) => bstr::clone_bytes(s),
        Value::Array(_) => inspect_bytes(scopes, heap, v),
        Value::Hash(_) => inspect_bytes(scopes, heap, v),
        Value::Range { start, end, exclusive } => {
            let mut out = bstr::dec_i64(*start);
            if *exclusive {
                bstr::append_str(&mut out, "...");
            } else {
                bstr::append_str(&mut out, "..");
            }
            let tail = bstr::dec_i64(*end);
            bstr::append_bytes(&mut out, &tail);
            out
        },
        Value::ObjectRef(i) => instance_display(scopes, heap, *i),
        Value::DataRef(i) => instance_display(scopes, heap, *i),
        Value::ClassRef(i) => scope_fqname_vec(scopes, *i),
        Value::ModuleRef(i) => scope_fqname_vec(scopes, *i),
        Value::Unreachable => Vec::new(),
    }
}

/// Structural equality of two values.
pub fn value_eq(a: &Value, b: &Value) -> (r: bool)
    ensures
        r == spec_val_eq(*a, *b),
    decreases *a, 0int, 0int,
{
    match (a, b) {
        (Value::Nil, Value::Nil) => true,
        (Value::Bool(x), Value::Bool(y)) => *x == *y,
        (Value::Fixnum(x), Value::Fixnum(y)) => *x == *y,
        (Value::Str(x), Value::Str(y)) => bstr::bytes_eq(x, y),
        (Value::Sym(x), Value::Sym(y)) => bstr::bytes_eq(x, y),
        (Value::Array(x), Value::Array(y)) => {
            if x.len() != y.len() {
                return false;
            }
            let n = x.len();
            let mut i: usize = 0;
            while i < n
                invariant
                    i <= n,
                    n == x@.len(),
                    n == y@.len(),
                    *a == Value::Array(*x),
                    *b == Value::Array(*y),
                    forall|k: int| 0 <= k < i ==> spec_val_eq(#[trigger] x@[k], y@[k]),
                decreases n - i,
            {
                proof {
                    assert(decreases_to!(*a => a->Array_0));
                    assert(decreases_to!(a->Array_0 => a->Array_0@));
                    assert(decreases_to!(a->Array_0@ => a->Array_0@[i as int]));
                    assert(a->Array_0@ == x@);
                    assert(decreases_to!(*a => x@[i as int]));
                }
                if !value_eq(&x[i], &y[i]) {
                    proof {
                        lemma_val_eq_list_break(x@, y@, n as int, i as int);
                    }
                    return false;
                }
                i = i + 1;
            }
            proof {
                lemma_val_eq_list_from_pointwise(x@, y@, n as int);
            }
            true
        },
        (Value::Hash(x), Value::Hash(y)) => {
            if x.len() != y.len() {
                return false;
            }
            let n = x.len();
            let mut i: usize = 0;
            while i < n
                invariant
                    i <= n,
                    n == x@.len(),
                    n == y@.len(),
                    *a == Value::Hash(*x),
                    *b == Value::Hash(*y),
                    forall|k: int|
                        0 <= k < i ==> spec_val_eq(#[trigger] x@[k].0, y@[k].0) && spec_val_eq(
                            x@[k].1,
                            y@[k].1,
                        ),
                decreases n - i,
            {
                proof {
                    assert(decreases_to!(*a => a->Hash_0));
                    assert(decreases_to!(a->Hash_0 => a->Hash_0@));
                    assert(decreases_to!(a->Hash_0@ => a->Hash_0@[i as int]));
                    assert(a->Hash_0@ == x@);
                    assert(decreases_to!(x@[i as int] => x@[i as int].0));
                    assert(decreases_to!(x@[i as int] => x@[i as int].1));
                    assert(decreases_to!(*a => x@[i as int].0));
                    assert(decreases_to!(*a => x@[i as int].1));
                }
                let keys_eq = value_eq(&x[i].0, &y[i].0);
                let vals_eq = value_eq(&x[i].1, &y[i].1);
                if !keys_eq || !vals_eq {
                    proof {
                        lemma_val_eq_pairs_break(x@, y@, n as int, i as int);
                    }
                    return false;
                }
                proof {
                    assert(spec_val_eq(x@[i as int].0, y@[i as int].0));
                    assert(spec_val_eq(x@[i as int].1, y@[i as int].1));
                    assert forall|k: int| 0 <= k < i + 1 implies spec_val_eq(
                        #[trigger] x@[k].0,
                        y@[k].0,
                    ) && spec_val_eq(x@[k].1, y@[k].1) by {}
                }
                i = i + 1;
            }
            proof {
                assert forall|q: int| 0 <= q < n implies spec_val_eq(#[trigger] x@[q].0, y@[q].0)
                    && spec_val_eq(x@[q].1, y@[q].1) by {}
                lemma_val_eq_pairs_from_pointwise(x@, y@, n as int);
            }
            true
        },
        (
            Value::Range { start: a1, end: a2, exclusive: a3 },
            Value::Range { start: b1, end: b2, exclusive: b3 },
        ) => *a1 == *b1 && *a2 == *b2 && *a3 == *b3,
        (Value::ObjectRef(x), Value::ObjectRef(y)) => *x == *y,
        (Value::DataRef(x), Value::DataRef(y)) => *x == *y,
        (Value::ClassRef(x), Value::ClassRef(y)) => *x == *y,
        (Value::ModuleRef(x), Value::ModuleRef(y)) => *x == *y,
        (Value::Unreachable, Value::Unreachable) => true,
        _ => false,
    }
}

/// A structural mismatch at any index refutes the prefix equality.
proof fn lemma_val_eq_list_break(xs: Seq<Value>, ys: Seq<Value>, n: int, i: int)
    requires
        0 <= i < n <= xs.len(),
        n <= ys.len(),
        !spec_val_eq(xs[i], ys[i]),
    ensures
        !spec_val_eq_list(xs, ys, n),
    decreases n,
{
    if i < n - 1 {
        lemma_val_eq_list_break(xs, ys, n - 1, i);
    }
}

/// A structural mismatch in any pair refutes the prefix equality.
proof fn lemma_val_eq_pairs_break(xs: Seq<(Value, Value)>, ys: Seq<(Value, Value)>, n: int, i: int)
    requires
        0 <= i < n <= xs.len(),
        n <= ys.len(),
        !(spec_val_eq(xs[i].0, ys[i].0) && spec_val_eq(xs[i].1, ys[i].1)),
    ensures
        !spec_val_eq_pairs(xs, ys, n),
    decreases n,
{
    if i < n - 1 {
        lemma_val_eq_pairs_break(xs, ys, n - 1, i);
    }
}

/// Whether a name spelled as a literal equals the called method's name.
fn name_is(func: &str, lit: &str) -> (r: bool)
    ensures
        r == (func.spec_bytes() == lit.spec_bytes()),
{
    let a = bstr::bytes_of(func);
    let b = bstr::bytes_of(lit);
    bstr::bytes_eq(&a, &b)
}

/// The byte lengths of the earliest boundary method names; these pin
/// the names apart so that callers of the boundary can pick their
/// dispatch branch.
pub proof fn lemma_boundary_name_lengths()
    ensures
        "to_s".spec_bytes().len() == 4,
        "inspect".spec_bytes().len() == 7,
        "respond_to?".spec_bytes().len() == 11,
        "freeze".spec_bytes().len() == 6,
{
    reveal_strlit("to_s");
    reveal_strlit("inspect");
    reveal_strlit("respond_to?");
    reveal_strlit("freeze");
    assert(is_ascii_chars("to_s"@));
    assert(is_ascii_chars("inspect"@));
    assert(is_ascii_chars("respond_to?"@));
    assert(is_ascii_chars("freeze"@));
    is_ascii_chars_encode_utf8("to_s"@);
    is_ascii_chars_encode_utf8("inspect"@);
    is_ascii_chars_encode_utf8("respond_to?"@);
    is_ascii_chars_encode_utf8("freeze"@);
}

impl Value {
    /// Call a method on this value through the call boundary.
    ///
    /// The boundary first validates the argument count against
    /// [`MRB_FUNCALL_ARGC_MAX`]: when it is exceeded, the call fails
    /// with an argument-count error before any dispatch is attempted
    /// and the dispatch counter is untouched. Otherwise the counter is
    /// bumped and the built-in method set is dispatched; a method the
    /// receiver does not answer yields a `NoMethodError`, and a native
    /// method bound on the receiver's class is reported as routed
    /// through its own entry point rather than run here. A result
    /// carrying the interpreter-internal `Unreachable` variant would be
    /// converted to a fatal error instead of being handed out. The
    /// optional block is accepted for signature compatibility; no
    /// built-in method yields to it.
    pub fn funcall(
        &self,
        interp: &mut Artichoke,
        func: &str,
        args: &Vec<Value>,
        block: Option<&Value>,
    ) -> (r: Result<Value, Exception>)
        requires
            old(interp).wf(),
        ensures
            final(interp).wf(),
            args@.len() > MRB_FUNCALL_ARGC_MAX ==> *final(interp) == *old(interp) && (
            r matches Err(e) && e matches Exception::ArgCount(a) && a == (ArgCountError {
                given: args@.len() as usize,
                max: MRB_FUNCALL_ARGC_MAX,
            })),
            args@.len() <= MRB_FUNCALL_ARGC_MAX ==> {
                &&& *final(interp) == (Artichoke {
                    vm_calls: final(interp).vm_calls,
                    heap: final(interp).heap,
                    ..*old(interp)
                })
                &&& final(interp).vm_calls == (if old(interp).vm_calls < u64::MAX {
                    old(interp).vm_calls + 1
                } else {
                    u64::MAX as int
                })
                &&& spec_dispatch(
                    old(interp).scopes@,
                    old(interp).heap@,
                    final(interp).heap@,
                    *self,
                    func.spec_bytes(),
                    args@,
                    r,
                )
            },
            r matches Ok(v) ==> !(v is Unreachable),
    {
        let _ = block;
        if args.len() > MRB_FUNCALL_ARGC_MAX {
            return Err(
                Exception::ArgCount(ArgCountError { given: args.len(), max: MRB_FUNCALL_ARGC_MAX }),
            );
        }
        if interp.vm_calls < u64::MAX {
            interp.vm_calls = interp.vm_calls + 1;
        }
        let result: Result<Value, Exception> = if name_is(func, "to_s") {
            Ok(Value::Str(to_s_bytes(&interp.scopes, &interp.heap, self)))
        } else if name_is(func, "inspect") {
            Ok(Value::Str(inspect_bytes(&interp.scopes, &interp.heap, self)))
        } else if name_is(func, "respond_to?") {
            if args.len() != 1 {
                Err(
                    Exception::BadArgument(
                        BadArgumentError::from_message(bstr::bytes_of("wrong number of arguments")),
                    ),
                )
            } else {
                match &args[0] {
                    Value::Sym(s) | Value::Str(s) => Ok(
                        Value::Bool(responds_exec(&interp.scopes, &interp.heap, self, s)),
                    ),
                    _ => Err(
                        Exception::TypeErr(
                            TypeError::from_message(
                                bstr::bytes_of("no implicit conversion into Symbol"),
                            ),
                        ),
                    ),
                }
            }
        } else if name_is(func, "freeze") {
            match self {
                Value::ObjectRef(i) | Value::DataRef(i) => {
                    if *i < interp.heap.len() {
                        let mut slot = Instance {
                            class: 0,
                            state: DataState::Plain,
                            frozen: false,
                        };
                        vstd::pervasive::VecAdditionalExecFns::set_and_swap(
                            &mut interp.heap,
                            *i,
                            &mut slot,
                        );
                        slot.frozen = true;
                        vstd::pervasive::VecAdditionalExecFns::set_and_swap(
                            &mut interp.heap,
                            *i,
                            &mut slot,
                        );
                        proof {
                            assert(interp.heap@ =~= old(interp).heap@.update(
                                *i as int,
                                Instance { frozen: true, ..old(interp).heap@[*i as int] },
                            ));
                        }
                    }
                    Ok(self.duplicate())
                },
                _ => Ok(self.duplicate()),
            }
        } else if name_is(func, "nil?") {
            Ok(Value::Bool(self.is_nil()))
        } else if name_is(func, "==") {
            if args.len() != 1 {
                Err(
                    Exception::BadArgument(
                        BadArgumentError::from_message(bstr::bytes_of("wrong number of arguments")),
                    ),
                )
            } else {
                Ok(Value::Bool(value_eq(self, &args[0])))
            }
        } else if name_is(func, "is_a?") || name_is(func, "kind_of?") {
            if args.len() != 1 {
                Err(
                    Exception::BadArgument(
                        BadArgumentError::from_message(bstr::bytes_of("wrong number of arguments")),
                    ),
                )
            } else {
                match &args[0] {
                    Value::ClassRef(c) | Value::ModuleRef(c) => {
                        let target: usize = *c;
                        let answer = match self {
                            Value::ObjectRef(i) | Value::DataRef(i) => {
                                if *i < interp.heap.len() {
                                    let cid = interp.heap[*i].class;
                                    interp.class_chain_contains(cid, target)
                                } else {
                                    false
                                }
                            },
                            _ => false,
                        };
                        Ok(Value::Bool(answer))
                    },
                    _ => Err(
                        Exception::TypeErr(
                            TypeError::from_message(bstr::bytes_of("class or module required")),
                        ),
                    ),
                }
            }
        } else if name_is(func, "frozen?") {
            match self {
                Value::ObjectRef(i) | Value::DataRef(i) => {
                    if *i < interp.heap.len() {
                        Ok(Value::Bool(interp.heap[*i].frozen))
                    } else {
                        Ok(Value::Bool(true))
                    }
                },
                _ => Ok(Value::Bool(true)),
            }
        } else if name_is(func, "length") || name_is(func, "size") {
            let len: Option<usize> = match self {
                Value::Str(s) => Option::Some(s.len()),
                Value::Array(items) => Option::Some(items.len()),
                Value::Hash(pairs) => Option::Some(pairs.len()),
                _ => Option::None,
            };
            match len {
                Option::Some(n) => {
                    if (n as u64) <= (i64::MAX as u64) {
                        Ok(Value::Fixnum(n as i64))
                    } else {
                        Err(
                            Exception::Fatal(
                                FatalError::from_message(bstr::bytes_of("length overflow")),
                            ),
                        )
                    }
                },
                Option::None => Err(
                    Exception::NoMethod(NoMethodError::new(bstr::bytes_of(func))),
                ),
            }
        } else if name_is(func, "class") {
            match self {
                Value::ObjectRef(i) | Value::DataRef(i) => {
                    if *i < interp.heap.len() {
                        Ok(Value::ClassRef(interp.heap[*i].class))
                    } else {
                        Err(
                            Exception::Fatal(
                                FatalError::from_message(bstr::bytes_of("stale instance")),
                            ),
                        )
                    }
                },
                _ => Err(Exception::NoMethod(NoMethodError::new(bstr::bytes_of(func)))),
            }
        } else if name_is(func, "name") {
            match self {
                Value::ClassRef(i) | Value::ModuleRef(i) => Ok(
                    Value::Str(scope_fqname_vec(&interp.scopes, *i)),
                ),
                _ => Err(Exception::NoMethod(NoMethodError::new(bstr::bytes_of(func)))),
            }
        } else {
            let fname = bstr::bytes_of(func);
            let bound = match self {
                Value::ObjectRef(i) | Value::DataRef(i) => {
                    if *i < interp.heap.len() {
                        chain_method_exists(&interp.scopes, interp.heap[*i].class, &fname)
                    } else {
                        false
                    }
                },
                Value::ClassRef(i) | Value::ModuleRef(i) => {
                    if *i < interp.scopes.len() {
                        let class_bound = crate::interp::find_binding(
                            &interp.scopes[*i].methods,
                            method::Type::Class,
                            &fname,
                        ).is_some();
                        let module_bound = crate::interp::find_binding(
                            &interp.scopes[*i].methods,
                            method::Type::Module,
                            &fname,
                        ).is_some();
                        class_bound || module_bound
                    } else {
                        false
                    }
                },
                _ => false,
            };
            if bound {
                Err(
                    Exception::NotImplemented(
                        crate::exception::NotImplementedError::from_message(
                            bstr::bytes_of("native methods are invoked through their entry points"),
                        ),
                    ),
                )
            } else {
                Err(Exception::NoMethod(NoMethodError::new(fname)))
            }
        };
        match result {
            Ok(value) => {
                if value.is_unreachable() {
                    // Interpreter-internal variants must never be
                    // handed to the host as ordinary data.
                    Err(
                        Exception::Fatal(
                            FatalError::from_message(bstr::bytes_of("Unreachable Ruby value")),
                        ),
                    )
                } else {
                    Ok(value)
                }
            },
            Err(e) => Err(e),
        }
    }
}

impl Value {
    /// Render this value with `to_s` through the call boundary,
    /// falling back to the empty string if the call fails.
    pub fn to_s(&self, interp: &mut Artichoke) -> (r: Vec<u8>)
        requires
            old(interp).wf(),
        ensures
            final(interp).wf(),
            *final(interp) == (Artichoke {
                vm_calls: final(interp).vm_calls,
                heap: final(interp).heap,
                ..*old(interp)
            }),
            final(interp).heap@ == old(interp).heap@,
            r@ == spec_to_s(old(interp).scopes@, old(interp).heap@, *self),
    {
        let args: Vec<Value> = Vec::new();
        match self.funcall(interp, "to_s", &args, Option::None) {
            Ok(Value::Str(s)) => s,
            _ => Vec::new(),
        }
    }

    /// Render this value with `inspect` through the call boundary,
    /// falling back to the empty string if the call fails.
    pub fn inspect(&self, interp: &mut Artichoke) -> (r: Vec<u8>)
        requires
            old(interp).wf(),
        ensures
            final(interp).wf(),
            *final(interp) == (Artichoke {
                vm_calls: final(interp).vm_calls,
                heap: final(interp).heap,
                ..*old(interp)
            }),
            final(interp).heap@ == old(interp).heap@,
            r@ == spec_inspect(old(interp).scopes@, old(interp).heap@, *self),
    {
        let args: Vec<Value> = Vec::new();
        proof {
            lemma_boundary_name_lengths();
        }
        match self.funcall(interp, "inspect", &args, Option::None) {
            Ok(Value::Str(s)) => s,
            _ => Vec::new(),
        }
    }

    /// The display name used in diagnostics: `true`, `false` and `nil`
    /// spelled out, the class name for instances, and the type tag's
    /// class name otherwise.
    pub fn pretty_name(&self, interp: &mut Artichoke) -> (r: Vec<u8>)
        requires
            old(interp).wf(),
        ensures
            *final(interp) == *old(interp),
            r@ == spec_pretty_name(old(interp).scopes@, old(interp).heap@, *self),
    {
        match self {
            Value::Bool(b) => if *b {
                bstr::bytes_of("true")
            } else {
                bstr::bytes_of("false")
            },
            Value::Nil => bstr::bytes_of("nil"),
            Value::ObjectRef(i) | Value::DataRef(i) => {
                if *i < interp.heap.len() {
                    scope_fqname_vec(&interp.scopes, interp.heap[*i].class)
                } else {
                    self.ruby_type().class_name()
                }
            },
            _ => self.ruby_type().class_name(),
        }
    }

    /// Whether this value's instance was reclaimed by the collector.
    ///
    /// Immediates are never dead; an instance is dead once its heap
    /// slot was collected.
    pub fn is_dead(&self, interp: &mut Artichoke) -> (r: bool)
        requires
            old(interp).wf(),
        ensures
            *final(interp) == *old(interp),
            r == (match *self {
                Value::ObjectRef(i) | Value::DataRef(i) => i < old(interp).heap@.len() && old(
                    interp,
                ).heap@[i as int].state is Collected,
                _ => false,
            }),
    {
        match self {
            Value::ObjectRef(i) | Value::DataRef(i) => {
                if *i < interp.heap.len() {
                    match &interp.heap[*i].state {
                        DataState::Collected => true,
                        _ => false,
                    }
                } else {
                    false
                }
            },
            _ => false,
        }
    }

    /// Whether this value's instance is frozen; immediates always are.
    pub fn is_frozen(&self, interp: &mut Artichoke) -> (r: bool)
        requires
            old(interp).wf(),
        ensures
            *final(interp) == *old(interp),
            r == (match *self {
                Value::ObjectRef(i) | Value::DataRef(i) => !(i < old(interp).heap@.len())
                    || old(interp).heap@[i as int].frozen,
                _ => true,
            }),
    {
        match self {
            Value::ObjectRef(i) | Value::DataRef(i) => {
                if *i < interp.heap.len() {
                    interp.heap[*i].frozen
                } else {
                    true
                }
            },
            _ => true,
        }
    }

    /// Freeze this value's instance through the call boundary.
    pub fn freeze(&mut self, interp: &mut Artichoke) -> (r: Result<(), Exception>)
        requires
            old(interp).wf(),
        ensures
            final(interp).wf(),
            *final(self) == *old(self),
            r is Ok,
            *final(interp) == (Artichoke {
                vm_calls: final(interp).vm_calls,
                heap: final(interp).heap,
                ..*old(interp)
            }),
            match *old(self) {
                Value::ObjectRef(i) | Value::DataRef(i) => if i < old(interp).heap@.len() {
                    final(interp).heap@ == old(interp).heap@.update(
                        i as int,
                        Instance { frozen: true, ..old(interp).heap@[i as int] },
                    )
                } else {
                    final(interp).heap@ == old(interp).heap@
                },
                _ => final(interp).heap@ == old(interp).heap@,
            },
    {
        let args: Vec<Value> = Vec::new();
        proof {
            lemma_boundary_name_lengths();
        }
        let _ = self.funcall(interp, "freeze", &args, Option::None);
        Ok(())
    }

    /// Whether the call boundary dispatches `method` on this value.
    pub fn respond_to(&self, interp: &mut Artichoke, method: &str) -> (r: Result<bool, Exception>)
        requires
            old(interp).wf(),
        ensures
            final(interp).wf(),
            *final(interp) == (Artichoke {
                vm_calls: final(interp).vm_calls,
                heap: final(interp).heap,
                ..*old(interp)
            }),
            final(interp).heap@ == old(interp).heap@,
            r matches Ok(b) && b == spec_responds(
                old(interp).scopes@,
                old(interp).heap@,
                *self,
                method.spec_bytes(),
            ),
    {
        let mut args: Vec<Value> = Vec::new();
        args.push(Value::Sym(bstr::bytes_of(method)));
        proof {
            lemma_boundary_name_lengths();
        }
        match self.funcall(interp, "respond_to?", &args, Option::None) {
            Ok(Value::Bool(b)) => Ok(b),
            _ => Ok(false),
        }
    }

    /// Interpret this value as an index range over a collection of
    /// length `len`: negative endpoints count from the end, the end is
    /// truncated to `len`, and the result is a start and a length.
    ///
    /// A non-range value yields `Ok(None)`, as does a normalized start
    /// outside `0..=len` — absence, never an error.
    pub fn is_range(&self, interp: &mut Artichoke, len: i64) -> (r: Result<
        Option<(i64, i64)>,
        Exception,
    >)
        requires
            old(interp).wf(),
            len >= 0,
        ensures
            *final(interp) == *old(interp),
            r matches Ok(o) && o == spec_range_norm(*self, len as int),
    {
        match self {
            Value::Range { start, end, exclusive } => {
                let b: i128 = if *start < 0 {
                    (*start as i128) + (len as i128)
                } else {
                    *start as i128
                };
                let e: i128 = if *end < 0 {
                    (*end as i128) + (len as i128)
                } else {
                    *end as i128
                };
                if b < 0 || b > (len as i128) {
                    return Ok(Option::None);
                }
                let e_incl: i128 = if *exclusive {
                    e
                } else {
                    e + 1
                };
                let e_cap: i128 = if e_incl > (len as i128) {
                    len as i128
                } else {
                    e_incl
                };
                let l: i128 = if e_cap - b < 0 {
                    0
                } else {
                    e_cap - b
                };
                Ok(Option::Some((b as i64, l as i64)))
            },
            _ => Ok(Option::None),
        }
    }

    /// Implicitly convert this value to an integer.
    ///
    /// Only an integer converts; nil and every other value fail with a
    /// `TypeError` naming the offending type.
    pub fn implicitly_convert_to_int(&self, interp: &mut Artichoke) -> (r: Result<i64, TypeError>)
        requires
            old(interp).wf(),
        ensures
            *final(interp) == *old(interp),
            match *self {
                Value::Fixnum(n) => r matches Ok(o) && o == n,
                Value::Nil => (r matches Err(e) && e.message@
                    == "no implicit conversion from nil to integer".spec_bytes()),
                _ => (r matches Err(e) && e.message@ == "no implicit conversion of ".spec_bytes()
                    + spec_pretty_name(old(interp).scopes@, old(interp).heap@, *self)
                    + " into Integer".spec_bytes()),
            },
    {
        match self {
            Value::Fixnum(n) => Ok(*n),
            Value::Nil => Err(
                TypeError::from_message(
                    bstr::bytes_of("no implicit conversion from nil to integer"),
                ),
            ),
            _ => {
                let mut message = bstr::bytes_of("no implicit conversion of ");
                let pretty = self.pretty_name(interp);
                bstr::append_bytes(&mut message, &pretty);
                bstr::append_str(&mut message, " into Integer");
                Err(TypeError::from_message(message))
            },
        }
    }

    /// Implicitly convert this value to a byte string.
    ///
    /// Strings convert to a copy of their bytes and symbols to a copy
    /// of their name; every other value fails with a `TypeError`
    /// naming the offending type.
    pub fn implicitly_convert_to_string(&self, interp: &mut Artichoke) -> (r: Result<
        Vec<u8>,
        TypeError,
    >)
        requires
            old(interp).wf(),
        ensures
            *final(interp) == *old(interp),
            match *self {
                Value::Str(s) => r matches Ok(o) && o@ == s@,
                Value::Sym(s) => r matches Ok(o) && o@ == s@,
                _ => (r matches Err(e) && e.message@ == "no implicit conversion of ".spec_bytes()
                    + spec_pretty_name(old(interp).scopes@, old(interp).heap@, *self)
                    + " into String".spec_bytes()),
            },
    {
        match self {
            Value::Str(s) => Ok(bstr::clone_bytes(s)),
            Value::Sym(s) => Ok(bstr::clone_bytes(s)),
            _ => {
                let mut message = bstr::bytes_of("no implicit conversion of ");
                let pretty = self.pretty_name(interp);
                bstr::append_bytes(&mut message, &pretty);
                bstr::append_str(&mut message, " into String");
                Err(TypeError::from_message(message))
            },
        }
    }

    /// Implicitly convert this value to a byte string, letting nil
    /// through as `None`.
    pub fn implicitly_convert_to_nilable_string(&self, interp: &mut Artichoke) -> (r: Result<
        Option<Vec<u8>>,
        TypeError,
    >)
        requires
            old(interp).wf(),
        ensures
            *final(interp) == *old(interp),
            match *self {
                Value::Nil => r matches Ok(o) && o is None,
                Value::Str(s) => (r matches Ok(o) && o matches Some(b) && b@ == s@),
                Value::Sym(s) => (r matches Ok(o) && o matches Some(b) && b@ == s@),
                _ => (r matches Err(e) && e.message@ == "no implicit conversion of ".spec_bytes()
                    + spec_pretty_name(old(interp).scopes@, old(interp).heap@, *self)
                    + " into String".spec_bytes()),
            },
    {
        if self.is_nil() {
            Ok(Option::None)
        } else {
            match self.implicitly_convert_to_string(interp) {
                Ok(s) => Ok(Option::Some(s)),
                Err(e) => Err(e),
            }
        }
    }
}

/// The start and length a range value selects over a collection of
/// length `len`, if any.
pub open spec fn spec_range_norm(v: Value, len: int) -> Option<(i64, i64)> {
    match v {
        Value::Range { start, end, exclusive } => {
            let b = if start < 0 {
                start + len
            } else {
                start as int
            };
            let e = if end < 0 {
                end + len
            } else {
                end as int
            };
            if b < 0 || b > len {
                Option::None
            } else {
                let e_incl = if exclusive {
                    e
                } else {
                    e + 1
                };
                let e_cap = if e_incl > len {
                    len
                } else {
                    e_incl
                };
                let l = if e_cap - b < 0 {
                    0
                } else {
                    e_cap - b
                };
                Option::Some((b as i64, l as i64))
            }
        },
        _ => Option::None,
    }
}

/// Whether the call boundary dispatches `name` on `v`, computed against
/// the live object space and heap.
pub fn responds_exec(scopes: &Vec<ScopeObj>, heap: &Vec<Instance>, v: &Value, name: &Vec<u8>) -> (r:
    bool)
    ensures
        r == spec_responds(scopes@, heap@, *v, name@),
{
    let builtin = bstr::bytes_eq(name, &bstr::bytes_of("to_s")) || bstr::bytes_eq(
        name,
        &bstr::bytes_of("inspect"),
    ) || bstr::bytes_eq(name, &bstr::bytes_of("nil?")) || bstr::bytes_eq(
        name,
        &bstr::bytes_of("=="),
    ) || bstr::bytes_eq(name, &bstr::bytes_of("respond_to?")) || bstr::bytes_eq(
        name,
        &bstr::bytes_of("frozen?"),
    ) || bstr::bytes_eq(name, &bstr::bytes_of("freeze")) || bstr::bytes_eq(
        name,
        &bstr::bytes_of("is_a?"),
    ) || bstr::bytes_eq(name, &bstr::bytes_of("kind_of?"));
    if builtin {
        return true;
    }
    let sized = bstr::bytes_eq(name, &bstr::bytes_of("length")) || bstr::bytes_eq(
        name,
        &bstr::bytes_of("size"),
    );
    let is_sized_recv = match v {
        Value::Str(_) | Value::Array(_) | Value::Hash(_) => true,
        _ => false,
    };
    if sized && is_sized_recv {
        return true;
    }
    let class_recv = match v {
        Value::ObjectRef(_) | Value::DataRef(_) => true,
        _ => false,
    };
    if bstr::bytes_eq(name, &bstr::bytes_of("class")) && class_recv {
        return true;
    }
    let scope_recv = match v {
        Value::ClassRef(_) | Value::ModuleRef(_) => true,
        _ => false,
    };
    if bstr::bytes_eq(name, &bstr::bytes_of("name")) && scope_recv {
        return true;
    }
    match v {
        Value::ObjectRef(i) | Value::DataRef(i) => {
            if *i < heap.len() {
                chain_method_exists(scopes, heap[*i].class, name)
            } else {
                false
            }
        },
        Value::ClassRef(i) | Value::ModuleRef(i) => {
            if *i < scopes.len() {
                let class_bound = crate::interp::find_binding(
                    &scopes[*i].methods,
                    method::Type::Class,
                    name,
                ).is_some();
                let module_bound = crate::interp::find_binding(
                    &scopes[*i].methods,
                    method::Type::Module,
                    name,
                ).is_some();
                class_bound || module_bound
            } else {
                false
            }
        },
        _ => false,
    }
}

/// What the call boundary's dispatch leaves behind and returns, branch
/// for branch: the heap after the call, and the result, for receiver
/// `v`, method name `func` and arguments `args`.
pub open spec fn spec_dispatch(
    scopes: Seq<ScopeObj>,
    heap: Seq<Instance>,
    heap_after: Seq<Instance>,
    v: Value,
    func: Seq<u8>,
    args: Seq<Value>,
    r: Result<Value, Exception>,
) -> bool {
    if func == "to_s".spec_bytes() {
        heap_after == heap && (r matches Ok(o) && o matches Value::Str(s) && s@ == spec_to_s(
            scopes,
            heap,
            v,
        ))
    } else if func == "inspect".spec_bytes() {
        heap_after == heap && (r matches Ok(o) && o matches Value::Str(s) && s@ == spec_inspect(
            scopes,
            heap,
            v,
        ))
    } else if func == "respond_to?".spec_bytes() {
        heap_after == heap && if args.len() == 1 {
            match args[0] {
                Value::Sym(s) | Value::Str(s) => (r matches Ok(o) && o == Value::Bool(
                    spec_responds(scopes, heap, v, s@),
                )),
                _ => r matches Err(e) && e is TypeErr,
            }
        } else {
            r matches Err(e) && e is BadArgument
        }
    } else if func == "freeze".spec_bytes() {
        match v {
            Value::ObjectRef(i) | Value::DataRef(i) => if i < heap.len() {
                heap_after == heap.update(
                    i as int,
                    Instance { frozen: true, ..heap[i as int] },
                ) && (r matches Ok(o) && spec_val_eq(o, v))
            } else {
                heap_after == heap && (r matches Ok(o) && spec_val_eq(o, v))
            },
            Value::Unreachable => heap_after == heap && (r matches Err(e) && e is Fatal),
            _ => heap_after == heap && (r matches Ok(o) && spec_val_eq(o, v)),
        }
    } else if func == "nil?".spec_bytes() {
        heap_after == heap && (r matches Ok(o) && o == Value::Bool(v is Nil))
    } else if func == "==".spec_bytes() {
        heap_after == heap && if args.len() == 1 {
            r matches Ok(o) && o == Value::Bool(spec_val_eq(v, args[0]))
        } else {
            r matches Err(e) && e is BadArgument
        }
    } else if func == "is_a?".spec_bytes() || func == "kind_of?".spec_bytes() {
        heap_after == heap && if args.len() == 1 {
            match args[0] {
                Value::ClassRef(c) | Value::ModuleRef(c) => (r matches Ok(o) && o == Value::Bool(
                    spec_is_a(scopes, heap, v, c as int),
                )),
                _ => r matches Err(e) && e is TypeErr,
            }
        } else {
            r matches Err(e) && e is BadArgument
        }
    } else if func == "frozen?".spec_bytes() {
        heap_after == heap && match v {
            Value::ObjectRef(i) | Value::DataRef(i) => if i < heap.len() {
                r matches Ok(o) && o == Value::Bool(heap[i as int].frozen)
            } else {
                r matches Ok(o) && o == Value::Bool(true)
            },
            _ => r matches Ok(o) && o == Value::Bool(true),
        }
    } else if func == "length".spec_bytes() || func == "size".spec_bytes() {
        heap_after == heap && match v {
            Value::Str(s) => spec_len_result(s@.len(), r),
            Value::Array(items) => spec_len_result(items@.len(), r),
            Value::Hash(pairs) => spec_len_result(pairs@.len(), r),
            _ => r matches Err(e) && e is NoMethod,
        }
    } else if func == "class".spec_bytes() {
        heap_after == heap && match v {
            Value::ObjectRef(i) | Value::DataRef(i) => if i < heap.len() {
                r matches Ok(o) && o == Value::ClassRef(heap[i as int].class)
            } else {
                r matches Err(e) && e is Fatal
            },
            _ => r matches Err(e) && e is NoMethod,
        }
    } else if func == "name".spec_bytes() {
        heap_after == heap && match v {
            Value::ClassRef(i) | Value::ModuleRef(i) => (r matches Ok(o) && o matches Value::Str(s)
                && s@ == scope_fqname_at(scopes, i as int)),
            _ => r matches Err(e) && e is NoMethod,
        }
    } else {
        heap_after == heap && if spec_responds(scopes, heap, v, func) {
            r matches Err(e) && e is NotImplemented
        } else {
            r matches Err(e) && e matches Exception::NoMethod(m) && m.method@ == func
        }
    }
}

/// Whether the length result is the length as a fixnum, or a fatal
/// error when it cannot be represented.
pub open spec fn spec_len_result(n: nat, r: Result<Value, Exception>) -> bool {
    if n <= i64::MAX {
        r matches Ok(o) && o == Value::Fixnum(n as i64)
    } else {
        r matches Err(e) && e is Fatal
    }
}

/// Whether `v` is an instance of the class or module at `target`, or of
/// one of its subclasses: instances answer by their class's superclass
/// chain; every other value answers `false`, as the interpreter keeps
/// no class objects for immediates.
pub open spec fn spec_is_a(scopes: Seq<ScopeObj>, heap: Seq<Instance>, v: Value, target: int) -> bool {
    match v {
        Value::ObjectRef(i) | Value::DataRef(i) => i < heap.len() && chain_contains(
            scopes,
            heap[i as int].class as int,
            target,
        ),
        _ => false,
    }
}

/// Argument count exceeds the maximum the interpreter supports.
#[derive(Clone, Copy, Debug, PartialEq, Eq, Structural)]
pub struct ArgCountError {
    /// Number of arguments given.
    pub given: usize,
    /// Maximum number of arguments supported.
    pub max: usize,
}

impl ArgCountError {
    /// Constructs a new, empty `ArgCountError`.
    pub fn new() -> (r: Self)
        ensures
            r == (ArgCountError { given: 0, max: MRB_FUNCALL_ARGC_MAX }),
    {
        ArgCountError { given: 0, max: MRB_FUNCALL_ARGC_MAX }
    }

    /// Check an argument list's length against the supported maximum:
    /// the error is produced exactly when the count is over the limit.
    pub fn from_count(given: usize) -> (r: Option<Self>)
        ensures
            given > MRB_FUNCALL_ARGC_MAX ==> (r matches Some(e) && e == (ArgCountError {
                given,
                max: MRB_FUNCALL_ARGC_MAX,
            })),
            given <= MRB_FUNCALL_ARGC_MAX ==> r is None,
    {
        if given > MRB_FUNCALL_ARGC_MAX {
            Option::Some(ArgCountError { given, max: MRB_FUNCALL_ARGC_MAX })
        } else {
            Option::None
        }
    }

    /// The description rendered for this failure.
    pub open spec fn spec_message(&self) -> Seq<u8> {
        "Too many arguments for function call: gave ".spec_bytes() + bstr::spec_dec_nat(
            self.given as nat,
        ) + " arguments, but only ".spec_bytes() + bstr::spec_dec_nat(self.max as nat)
            + " arguments are supported".spec_bytes()
    }

    /// Render the description of this failure.
    pub fn message(&self) -> (r: Vec<u8>)
        ensures
            r@ == self.spec_message(),
    {
        let mut out = bstr::bytes_of("Too many arguments for function call: gave ");
        bstr::push_dec_u64(&mut out, self.given as u64);
        bstr::append_str(&mut out, " arguments, but only ");
        bstr::push_dec_u64(&mut out, self.max as u64);
        bstr::append_str(&mut out, " arguments are supported");
        out
    }

    /// The Ruby-side exception class this failure maps to.
    pub fn name(&self) -> (r: Vec<u8>)
        ensures
            r@ == "ArgumentError".spec_bytes(),
    {
        bstr::bytes_of("ArgumentError")
    }
}

} // verus!
