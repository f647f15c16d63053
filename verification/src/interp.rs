//! The interpreter state: the object space of classes and modules, the
//! instance heap with foreign-data slots, registries keyed by host type
//! identity, interned symbols, captured output, required features, the
//! arena of collector roots, and the call counter observed by the call
//! boundary.
//!
//! All operations are strictly sequential: one logical thread of
//! control owns the state at a time, and nothing here suspends.

use vstd::prelude::*;
use vstd::string::StringSliceAdditionalSpecFns;
use vstd::utf8::{encode_utf8, is_ascii_chars, is_ascii_chars_encode_utf8};

use crate::bstr;
use crate::def::{name_has_no_nul, Method};
use crate::method;
use crate::prng::Prng;

verus! {

/// Whether an object-space entry is a class or a module.
#[derive(Clone, Copy, PartialEq, Eq, Structural)]
pub enum ScopeKind {
    Class,
    Module,
}

/// One method bound on an object-space entry.
pub struct MethodBinding {
    /// Visibility kind of the binding.
    pub kind: method::Type,
    /// Method name.
    pub name: Vec<u8>,
    /// Native entry point the binding runs.
    pub native: Method,
    /// Declared argument shape.
    pub args: method::Arity,
}

/// One live class or module object in the object space.
///
/// Entries are only ever appended: a handle to an entry stays valid for
/// the interpreter's whole lifetime.
pub struct ScopeObj {
    /// Class or module.
    pub kind: ScopeKind,
    /// Constant name under its parent scope.
    pub name: Vec<u8>,
    /// Enclosing scope, or `None` at the root.
    pub parent: Option<usize>,
    /// Superclass, for classes defined with one.
    pub superclass: Option<usize>,
    /// Methods bound on this entry, unique per (kind, name).
    pub methods: Vec<MethodBinding>,
    /// Whether instances carry a foreign-data slot.
    pub holds_data: bool,
}

impl ScopeObj {
    /// Entry invariant at position `i`: parent and superclass point
    /// strictly earlier in the object space, and the name is
    /// representable.
    pub open spec fn wf_at(&self, i: int) -> bool {
        &&& match self.parent {
            Option::None => true,
            Option::Some(p) => p < i,
        }
        &&& match self.superclass {
            Option::None => true,
            Option::Some(s) => s < i,
        }
        &&& name_has_no_nul(self.name@)
    }
}

/// The lifecycle of an instance's foreign-data slot.
pub enum DataState {
    /// An instance of a class that holds no foreign data.
    Plain,
    /// Freshly allocated; the data slot is empty.
    Unboxed,
    /// The slot holds a host payload boxed under host type `key`.
    Boxed { key: u64, payload: Vec<u8> },
    /// The collector reclaimed the payload; terminal.
    Collected,
}

/// One instance on the heap.
pub struct Instance {
    /// The object-space entry of the instance's class.
    pub class: usize,
    /// The instance's foreign-data slot.
    pub state: DataState,
    /// Whether the instance is frozen.
    pub frozen: bool,
}

/// A loadable feature registered with the interpreter.
#[derive(Clone, Copy, PartialEq, Eq, Structural)]
pub enum Feature {
    SecureRandom,
    Container,
}

/// Whether an object-space entry matches a lookup by parent and name.
pub open spec fn scope_matches(s: ScopeObj, parent: Option<usize>, name: Seq<u8>) -> bool {
    s.name@ == name && s.parent == parent
}

/// First entry at or after `i` matching a lookup by parent and name.
pub open spec fn find_scope_from(
    scopes: Seq<ScopeObj>,
    parent: Option<usize>,
    name: Seq<u8>,
    i: int,
) -> Option<usize>
    decreases scopes.len() - i,
{
    if i < 0 || i >= scopes.len() {
        Option::None
    } else if scope_matches(scopes[i], parent, name) {
        Option::Some(i as usize)
    } else {
        find_scope_from(scopes, parent, name, i + 1)
    }
}

/// The entry a lookup by parent and name finds, if any.
pub open spec fn find_scope(scopes: Seq<ScopeObj>, parent: Option<usize>, name: Seq<u8>) -> Option<
    usize,
> {
    find_scope_from(scopes, parent, name, 0)
}

/// The entry a chain of names resolves to, if any: the first name is
/// looked up at the root, each further name under the previous result,
/// and a missing link makes the whole chain resolve to `None`.
pub open spec fn resolve_path(scopes: Seq<ScopeObj>, path: Seq<Seq<u8>>) -> Option<usize>
    decreases path.len(),
{
    if path.len() == 0 {
        Option::None
    } else if path.len() == 1 {
        find_scope(scopes, Option::None, path[0])
    } else {
        match resolve_path(scopes, path.drop_last()) {
            Option::None => Option::None,
            Option::Some(p) => find_scope(scopes, Option::Some(p), path.last()),
        }
    }
}

/// Skipping a non-matching prefix does not change what is found.
pub proof fn lemma_find_scope_skip(
    scopes: Seq<ScopeObj>,
    parent: Option<usize>,
    name: Seq<u8>,
    j: int,
)
    requires
        0 <= j <= scopes.len(),
        forall|k: int| 0 <= k < j ==> !scope_matches(scopes[k], parent, name),
    ensures
        find_scope(scopes, parent, name) == find_scope_from(scopes, parent, name, j),
    decreases j,
{
    if j > 0 {
        lemma_find_scope_skip(scopes, parent, name, j - 1);
        assert(find_scope_from(scopes, parent, name, j - 1) == find_scope_from(
            scopes,
            parent,
            name,
            j,
        ));
    }
}

/// Once a prefix of a chain fails to resolve, every extension of it
/// fails too.
pub proof fn lemma_resolve_none_extends(scopes: Seq<ScopeObj>, path: Seq<Seq<u8>>, i: int)
    requires
        1 <= i <= path.len(),
        resolve_path(scopes, path.subrange(0, i)) is None,
    ensures
        resolve_path(scopes, path) is None,
    decreases path.len() - i,
{
    if i == path.len() {
        assert(path.subrange(0, i) =~= path);
    } else {
        assert(path.subrange(0, i + 1).drop_last() =~= path.subrange(0, i));
        assert(path.subrange(0, i + 1).len() == i + 1);
        lemma_resolve_none_extends(scopes, path, i + 1);
    }
}

/// A chain whose enclosing scope does not resolve never resolves
/// itself: the lookup yields `None`, not an error and not a partial
/// result.
pub proof fn lemma_resolve_missing_scope(scopes: Seq<ScopeObj>, path: Seq<Seq<u8>>)
    requires
        path.len() >= 2,
        resolve_path(scopes, path.drop_last()) is None,
    ensures
        resolve_path(scopes, path) is None,
{
}

/// Nothing is found when no entry matches.
pub proof fn lemma_find_scope_none(scopes: Seq<ScopeObj>, parent: Option<usize>, name: Seq<u8>)
    requires
        forall|k: int| 0 <= k < scopes.len() ==> !scope_matches(#[trigger] scopes[k], parent, name),
    ensures
        find_scope(scopes, parent, name) is None,
{
    lemma_find_scope_skip(scopes, parent, name, scopes.len() as int);
}

/// The first matching entry is what a lookup finds.
pub proof fn lemma_find_scope_at(scopes: Seq<ScopeObj>, parent: Option<usize>, name: Seq<u8>, j: int)
    requires
        0 <= j < scopes.len(),
        forall|k: int| 0 <= k < j ==> !scope_matches(#[trigger] scopes[k], parent, name),
        scope_matches(scopes[j], parent, name),
        j <= usize::MAX,
    ensures
        find_scope(scopes, parent, name) == Option::Some(j as usize),
{
    lemma_find_scope_skip(scopes, parent, name, j);
}

/// Whether one binding slot carries the given description.
pub open spec fn binding_is(
    b: MethodBinding,
    kind: method::Type,
    name: Seq<u8>,
    native: Method,
    args: method::Arity,
) -> bool {
    b.kind == kind && b.name@ == name && b.native == native && b.args == args
}

/// First binding at or after `i` for the (kind, name) slot.
pub open spec fn find_method_from(
    methods: Seq<MethodBinding>,
    kind: method::Type,
    name: Seq<u8>,
    i: int,
) -> Option<int>
    decreases methods.len() - i,
{
    if i < 0 || i >= methods.len() {
        Option::None
    } else if methods[i].kind == kind && methods[i].name@ == name {
        Option::Some(i)
    } else {
        find_method_from(methods, kind, name, i + 1)
    }
}

/// The binding bound in the (kind, name) slot, if any.
pub open spec fn find_method(methods: Seq<MethodBinding>, kind: method::Type, name: Seq<u8>) -> Option<
    int,
> {
    find_method_from(methods, kind, name, 0)
}

/// How binding a method transforms a method table: the existing (kind,
/// name) slot is replaced, or a new slot is appended — set semantics
/// keyed by (kind, name).
pub open spec fn methods_bound(
    before: Seq<MethodBinding>,
    after: Seq<MethodBinding>,
    kind: method::Type,
    name: Seq<u8>,
    native: Method,
    args: method::Arity,
) -> bool {
    match find_method(before, kind, name) {
        Option::Some(j) => {
            &&& after.len() == before.len()
            &&& forall|i: int| 0 <= i < before.len() && i != j ==> after[i] == before[i]
            &&& binding_is(after[j], kind, name, native, args)
        },
        Option::None => {
            &&& after.len() == before.len() + 1
            &&& forall|i: int| 0 <= i < before.len() ==> after[i] == before[i]
            &&& binding_is(after.last(), kind, name, native, args)
        },
    }
}

/// A found binding lies inside the table.
pub proof fn lemma_find_method_from_in_range(
    methods: Seq<MethodBinding>,
    kind: method::Type,
    name: Seq<u8>,
    i: int,
)
    ensures
        match find_method_from(methods, kind, name, i) {
            Option::Some(r) => i <= r < methods.len(),
            Option::None => true,
        },
    decreases methods.len() - i,
{
    if i < 0 || i >= methods.len() {
    } else if methods[i].kind == kind && methods[i].name@ == name {
    } else {
        lemma_find_method_from_in_range(methods, kind, name, i + 1);
    }
}

/// A found binding carries the kind and name it was looked up by.
pub proof fn lemma_find_method_found_matches(
    methods: Seq<MethodBinding>,
    kind: method::Type,
    name: Seq<u8>,
    i: int,
)
    ensures
        match find_method_from(methods, kind, name, i) {
            Option::Some(j) => 0 <= j < methods.len() && methods[j].kind == kind
                && methods[j].name@ == name,
            Option::None => true,
        },
    decreases methods.len() - i,
{
    if i < 0 || i >= methods.len() {
    } else if methods[i].kind == kind && methods[i].name@ == name {
    } else {
        lemma_find_method_found_matches(methods, kind, name, i + 1);
    }
}

/// Two tables that agree on which suffix entries fill a slot are found
/// alike from that suffix on.
proof fn lemma_find_from_same_matches(
    b: Seq<MethodBinding>,
    a: Seq<MethodBinding>,
    k2: method::Type,
    n2: Seq<u8>,
    i: int,
)
    requires
        0 <= i <= b.len(),
        a.len() == b.len() || a.len() == b.len() + 1,
        a.len() == b.len() + 1 ==> !(a.last().kind == k2 && a.last().name@ == n2),
        forall|p: int|
            i <= p < b.len() ==> (((#[trigger] b[p]).kind == k2 && b[p].name@ == n2 ==> a[p]
                == b[p]) && ((#[trigger] a[p]).kind == k2 && a[p].name@ == n2 ==> a[p] == b[p])),
    ensures
        find_method_from(a, k2, n2, i) == find_method_from(b, k2, n2, i),
    decreases b.len() - i,
{
    if i >= b.len() {
        if a.len() == b.len() + 1 {
            assert(find_method_from(a, k2, n2, i) == if i == b.len() {
                find_method_from(a, k2, n2, i + 1)
            } else {
                Option::<int>::None
            });
        }
    } else {
        if b[i].kind == k2 && b[i].name@ == n2 {
            assert(a[i] == b[i]);
        } else if a[i].kind == k2 && a[i].name@ == n2 {
            assert(a[i] == b[i]);
            assert(false);
        } else {
            lemma_find_from_same_matches(b, a, k2, n2, i + 1);
        }
    }
}

/// Binding one slot leaves every other slot untouched: the same entry
/// is found under any other (kind, name), unchanged.
pub proof fn lemma_methods_bound_preserves(
    before: Seq<MethodBinding>,
    after: Seq<MethodBinding>,
    kind: method::Type,
    name: Seq<u8>,
    native: Method,
    args: method::Arity,
    k2: method::Type,
    n2: Seq<u8>,
)
    requires
        methods_bound(before, after, kind, name, native, args),
        !(k2 == kind && n2 == name),
    ensures
        find_method(after, k2, n2) == find_method(before, k2, n2),
        match find_method(before, k2, n2) {
            Option::Some(j) => after[j] == before[j],
            Option::None => true,
        },
{
    lemma_find_method_found_matches(before, kind, name, 0);
    match find_method(before, kind, name) {
        Option::Some(j) => {
            assert forall|p: int| 0 <= p < before.len() implies (((#[trigger] before[p]).kind == k2
                && before[p].name@ == n2 ==> after[p] == before[p]) && ((#[trigger] after[p]).kind
                == k2 && after[p].name@ == n2 ==> after[p] == before[p])) by {
                if p != j {
                } else {
                    assert(before[j].kind == kind && before[j].name@ == name);
                    assert(binding_is(after[j], kind, name, native, args));
                }
            }
            lemma_find_from_same_matches(before, after, k2, n2, 0);
        },
        Option::None => {
            assert(binding_is(after.last(), kind, name, native, args));
            lemma_find_from_same_matches(before, after, k2, n2, 0);
        },
    }
    lemma_find_method_found_matches(before, k2, n2, 0);
}

/// A table in which nothing is found has no matching entry.
pub proof fn lemma_find_method_none_no_match(
    methods: Seq<MethodBinding>,
    kind: method::Type,
    name: Seq<u8>,
    i: int,
)
    requires
        0 <= i,
        find_method_from(methods, kind, name, i) is None,
    ensures
        forall|p: int|
            i <= p < methods.len() ==> !((#[trigger] methods[p]).kind == kind && methods[p].name@
                == name),
    decreases methods.len() - i,
{
    if 0 <= i < methods.len() {
        lemma_find_method_none_no_match(methods, kind, name, i + 1);
    }
}

/// What is found is the first match: nothing before it matches.
pub proof fn lemma_find_method_first(
    methods: Seq<MethodBinding>,
    kind: method::Type,
    name: Seq<u8>,
    i: int,
)
    requires
        0 <= i,
    ensures
        match find_method_from(methods, kind, name, i) {
            Option::Some(j) => forall|p: int|
                i <= p < j ==> !((#[trigger] methods[p]).kind == kind && methods[p].name@ == name),
            Option::None => true,
        },
    decreases methods.len() - i,
{
    if i < 0 || i >= methods.len() {
    } else if methods[i].kind == kind && methods[i].name@ == name {
    } else {
        lemma_find_method_first(methods, kind, name, i + 1);
    }
}

/// After binding a slot, looking that slot up finds the new binding.
pub proof fn lemma_methods_bound_found(
    before: Seq<MethodBinding>,
    after: Seq<MethodBinding>,
    kind: method::Type,
    name: Seq<u8>,
    native: Method,
    args: method::Arity,
)
    requires
        methods_bound(before, after, kind, name, native, args),
    ensures
        match find_method(after, kind, name) {
            Option::Some(j) => binding_is(after[j], kind, name, native, args),
            Option::None => false,
        },
{
    match find_method(before, kind, name) {
        Option::Some(j) => {
            lemma_find_method_found_matches(before, kind, name, 0);
            lemma_find_method_first(before, kind, name, 0);
            assert forall|k: int| 0 <= k < j implies !((#[trigger] after[k]).kind == kind
                && after[k].name@ == name) by {
                assert(after[k] == before[k]);
            }
            lemma_find_method_skip(after, kind, name, j);
            assert(find_method_from(after, kind, name, j) == Option::Some(j));
        },
        Option::None => {
            lemma_find_method_none_no_match(before, kind, name, 0);
            let j = before.len() as int;
            assert forall|k: int| 0 <= k < j implies !((#[trigger] after[k]).kind == kind
                && after[k].name@ == name) by {
                assert(after[k] == before[k]);
            }
            lemma_find_method_skip(after, kind, name, j);
            assert(find_method_from(after, kind, name, j) == Option::Some(j));
        },
    }
}

/// Skipping a non-matching prefix does not change which binding is
/// found.
pub proof fn lemma_find_method_skip(
    methods: Seq<MethodBinding>,
    kind: method::Type,
    name: Seq<u8>,
    j: int,
)
    requires
        0 <= j <= methods.len(),
        forall|k: int|
            0 <= k < j ==> !((#[trigger] methods[k]).kind == kind && methods[k].name@ == name),
    ensures
        find_method(methods, kind, name) == find_method_from(methods, kind, name, j),
    decreases j,
{
    if j > 0 {
        lemma_find_method_skip(methods, kind, name, j - 1);
    }
}

/// First registry entry at or after `i` under `key`.
pub open spec fn reg_find_from<T>(regs: Seq<(u64, T)>, key: u64, i: int) -> Option<int>
    decreases regs.len() - i,
{
    if i < 0 || i >= regs.len() {
        Option::None
    } else if regs[i].0 == key {
        Option::Some(i)
    } else {
        reg_find_from(regs, key, i + 1)
    }
}

/// The registry entry stored under `key`, if any.
pub open spec fn reg_find<T>(regs: Seq<(u64, T)>, key: u64) -> Option<int> {
    reg_find_from(regs, key, 0)
}

/// A found registry entry lies in the registry and carries its key.
pub proof fn lemma_reg_find_found<T>(regs: Seq<(u64, T)>, key: u64, i: int)
    ensures
        match reg_find_from(regs, key, i) {
            Option::Some(j) => i <= j < regs.len() && regs[j].0 == key,
            Option::None => true,
        },
    decreases regs.len() - i,
{
    if i < 0 || i >= regs.len() {
    } else if regs[i].0 == key {
    } else {
        lemma_reg_find_found(regs, key, i + 1);
    }
}

/// A registry holding an entry under `key` finds one under `key`.
pub proof fn lemma_reg_find_present<T>(regs: Seq<(u64, T)>, key: u64, j: int)
    requires
        0 <= j < regs.len(),
        regs[j].0 == key,
    ensures
        reg_find(regs, key) is Some,
{
    lemma_reg_find_present_from(regs, key, j, 0);
}

/// A registry holding an entry under `key` at or after `i` finds one
/// from `i` on.
proof fn lemma_reg_find_present_from<T>(regs: Seq<(u64, T)>, key: u64, j: int, i: int)
    requires
        0 <= i <= j < regs.len(),
        regs[j].0 == key,
    ensures
        reg_find_from(regs, key, i) is Some,
    decreases j - i,
{
    if regs[i].0 != key {
        lemma_reg_find_present_from(regs, key, j, i + 1);
    }
}

/// Skipping non-matching registry entries does not change what is
/// found.
pub proof fn lemma_reg_find_skip<T>(regs: Seq<(u64, T)>, key: u64, j: int)
    requires
        0 <= j <= regs.len(),
        forall|k: int| 0 <= k < j ==> (#[trigger] regs[k]).0 != key,
    ensures
        reg_find(regs, key) == reg_find_from(regs, key, j),
    decreases j,
{
    if j > 0 {
        lemma_reg_find_skip(regs, key, j - 1);
    }
}

/// A registry with no entry under `key` finds nothing.
pub proof fn lemma_reg_find_none<T>(regs: Seq<(u64, T)>, key: u64)
    requires
        forall|k: int| 0 <= k < regs.len() ==> (#[trigger] regs[k]).0 != key,
    ensures
        reg_find(regs, key) is None,
{
    lemma_reg_find_skip(regs, key, regs.len() as int);
}

/// The first entry under `key` is what a registry lookup finds.
pub proof fn lemma_reg_find_at<T>(regs: Seq<(u64, T)>, key: u64, j: int)
    requires
        0 <= j < regs.len(),
        forall|k: int| 0 <= k < j ==> (#[trigger] regs[k]).0 != key,
        regs[j].0 == key,
    ensures
        reg_find(regs, key) == Option::Some(j),
{
    lemma_reg_find_skip(regs, key, j);
}

/// A registry lookup that finds nothing has no entry under `key`.
pub proof fn lemma_reg_find_none_no_match<T>(regs: Seq<(u64, T)>, key: u64, i: int)
    requires
        0 <= i,
        reg_find_from(regs, key, i) is None,
    ensures
        forall|p: int| i <= p < regs.len() ==> (#[trigger] regs[p]).0 != key,
    decreases regs.len() - i,
{
    if 0 <= i < regs.len() {
        lemma_reg_find_none_no_match(regs, key, i + 1);
    }
}

/// Appending an entry under a previously absent key makes the appended
/// entry the one found.
pub proof fn lemma_reg_find_push<T>(regs: Seq<(u64, T)>, entry: (u64, T), key: u64)
    requires
        reg_find(regs, key) is None,
        entry.0 == key,
    ensures
        reg_find(regs.push(entry), key) == Option::Some(regs.len() as int),
{
    lemma_reg_find_none_no_match(regs, key, 0);
    let pushed = regs.push(entry);
    assert forall|k: int| 0 <= k < regs.len() implies (#[trigger] pushed[k]).0 != key by {
        assert(pushed[k] == regs[k]);
    }
    lemma_reg_find_at(pushed, key, regs.len() as int);
}

/// What a registry lookup finds is the first entry: nothing before it
/// carries the key.
pub proof fn lemma_reg_find_first<T>(regs: Seq<(u64, T)>, key: u64, i: int)
    requires
        0 <= i,
    ensures
        match reg_find_from(regs, key, i) {
            Option::Some(j) => forall|p: int| i <= p < j ==> (#[trigger] regs[p]).0 != key,
            Option::None => true,
        },
    decreases regs.len() - i,
{
    if i < regs.len() && regs[i].0 != key {
        lemma_reg_find_first(regs, key, i + 1);
    }
}

/// Whether the (kind, name) slot of a method table is bound to the
/// given native entry point with the given arity.
pub open spec fn method_bound(
    methods: Seq<MethodBinding>,
    kind: method::Type,
    name: Seq<u8>,
    native: Method,
    required: u32,
    optional: u32,
) -> bool {
    match find_method(methods, kind, name) {
        Option::Some(j) => binding_is(
            methods[j],
            kind,
            name,
            native,
            method::Arity { required, optional },
        ),
        Option::None => false,
    }
}

/// Whether a heap index is protected by the arena.
pub open spec fn arena_rooted(roots: Seq<usize>, i: int) -> bool {
    exists|k: int| 0 <= k < roots.len() && roots[k] == i
}

/// Number of heap slots the collector has not reclaimed.
pub open spec fn live_count(heap: Seq<Instance>) -> nat
    decreases heap.len(),
{
    if heap.len() == 0 {
        0
    } else {
        live_count(heap.drop_last()) + if heap.last().state is Collected {
            0nat
        } else {
            1nat
        }
    }
}

/// Find the binding in the (kind, name) slot of a method table.
pub fn find_binding(methods: &Vec<MethodBinding>, kind: method::Type, name: &Vec<u8>) -> (r: Option<
    usize,
>)
    ensures
        match find_method(methods@, kind, name@) {
            Option::Some(j) => r == Option::Some(j as usize),
            Option::None => r is None,
        },
        r matches Some(j) ==> j < methods@.len(),
{
    let n = methods.len();
    let mut j: usize = 0;
    while j < n
        invariant
            j <= n,
            n == methods@.len(),
            forall|k: int|
                0 <= k < j ==> !(methods@[k].kind == kind && (#[trigger] methods@[k].name)@
                    == name@),
        decreases n - j,
    {
        let b = &methods[j];
        if b.kind == kind && bstr::bytes_eq(&b.name, name) {
            proof {
                lemma_find_method_skip(methods@, kind, name@, j as int);
            }
            return Option::Some(j);
        }
        j = j + 1;
    }
    proof {
        lemma_find_method_skip(methods@, kind, name@, n as int);
    }
    Option::None
}

/// The interpreter state.
pub struct Artichoke {
    /// The object space: every class and module object ever defined,
    /// append-only.
    pub scopes: Vec<ScopeObj>,
    /// Class registry keyed by host type identity.
    pub classes: Vec<(u64, crate::class::Spec)>,
    /// Module registry keyed by host type identity.
    pub modules: Vec<(u64, crate::module::Spec)>,
    /// The instance heap.
    pub heap: Vec<Instance>,
    /// Interned symbols.
    pub symbols: Vec<Vec<u8>>,
    /// Bytes printed by `print`, `puts` and `p`.
    pub output: Vec<u8>,
    /// Bytes written through the warning interface.
    pub warnings: Vec<u8>,
    /// Paths of features already required.
    pub loaded_features: Vec<Vec<u8>>,
    /// Loadable features registered under their paths.
    pub files: Vec<(Vec<u8>, Feature)>,
    /// The interpreter's pseudo-random number generator.
    pub prng: Prng,
    /// Number of dispatches the call boundary has let through.
    pub vm_calls: u64,
    /// Heap indices protected from collection.
    pub arena_roots: Vec<usize>,
    /// Savepoints into `arena_roots`.
    pub arena_marks: Vec<usize>,
}

impl Artichoke {
    /// State invariant: scope links point strictly backwards, instances
    /// name real classes, and the arena is consistent.
    pub open spec fn wf(&self) -> bool {
        &&& forall|i: int|
            0 <= i < self.scopes@.len() ==> (#[trigger] self.scopes@[i]).wf_at(i)
        &&& forall|i: int|
            0 <= i < self.heap@.len() ==> (#[trigger] self.heap@[i]).class < self.scopes@.len()
        &&& forall|i: int|
            0 <= i < self.arena_roots@.len() ==> (#[trigger] self.arena_roots@[i])
                < self.heap@.len()
        &&& forall|i: int|
            0 <= i < self.arena_marks@.len() ==> (#[trigger] self.arena_marks@[i])
                <= self.arena_roots@.len()
        &&& forall|i: int, j: int|
            0 <= i <= j < self.arena_marks@.len() ==> #[trigger] self.arena_marks@[i]
                <= #[trigger] self.arena_marks@[j]
    }

    /// Look a constant name up directly under `parent` (or at the root
    /// for `None`).
    pub fn lookup_scope(&self, parent: Option<usize>, name: &Vec<u8>) -> (r: Option<usize>)
        ensures
            r == find_scope(self.scopes@, parent, name@),
            r matches Some(i) ==> i < self.scopes@.len(),
    {
        let n = self.scopes.len();
        let mut j: usize = 0;
        while j < n
            invariant
                j <= n,
                n == self.scopes@.len(),
                forall|k: int| 0 <= k < j ==> !scope_matches(self.scopes@[k], parent, name@),
            decreases n - j,
        {
            let sc = &self.scopes[j];
            let parent_eq = match (&parent, &sc.parent) {
                (Option::None, Option::None) => true,
                (Option::Some(a), Option::Some(b)) => *a == *b,
                _ => false,
            };
            if parent_eq && bstr::bytes_eq(&sc.name, name) {
                proof {
                    lemma_find_scope_skip(self.scopes@, parent, name@, j as int);
                }
                return Option::Some(j);
            }
            j = j + 1;
        }
        proof {
            lemma_find_scope_skip(self.scopes@, parent, name@, n as int);
        }
        Option::None
    }

    /// Resolve an enclosing-scope chain against the object space.
    pub fn resolve_scope(&self, scope: &crate::def::EnclosingRubyScope) -> (r: Option<usize>)
        ensures
            r == resolve_path(self.scopes@, scope.spec_path()),
            r matches Some(i) ==> i < self.scopes@.len(),
    {
        let path = scope.path();
        proof {
            crate::def::lemma_scope_path_nonempty(scope);
            assert(path.deep_view().len() == scope.spec_path().len());
        }
        let n = path.len();
        proof {
            assert(path.deep_view()[0] == path@[0]@);
            assert(scope.spec_path().subrange(0, 1) =~= seq![scope.spec_path()[0]]);
        }
        let mut cur = self.lookup_scope(Option::None, &path[0]);
        let mut i: usize = 1;
        while i < n
            invariant
                1 <= i <= n,
                n == scope.spec_path().len(),
                path.deep_view() == scope.spec_path(),
                cur == resolve_path(self.scopes@, scope.spec_path().subrange(0, i as int)),
                cur matches Some(c) ==> c < self.scopes@.len(),
            decreases n - i,
        {
            match cur {
                Option::None => {
                    proof {
                        lemma_resolve_none_extends(
                            self.scopes@,
                            scope.spec_path(),
                            i as int,
                        );
                    }
                    return Option::None;
                },
                Option::Some(p) => {
                    proof {
                        assert(path.deep_view()[i as int] == path@[i as int]@);
                        assert(scope.spec_path().subrange(0, i + 1).drop_last() =~= scope
                            .spec_path()
                            .subrange(0, i as int));
                        assert(scope.spec_path().subrange(0, i + 1).last() == scope.spec_path()[
                            i as int
                        ]);
                    }
                    cur = self.lookup_scope(Option::Some(p), &path[i]);
                },
            }
            i = i + 1;
        }
        proof {
            assert(scope.spec_path().subrange(0, n as int) =~= scope.spec_path());
        }
        cur
    }

    /// Append a new class or module object to the object space.
    pub fn create_scope(
        &mut self,
        kind: ScopeKind,
        name: Vec<u8>,
        parent: Option<usize>,
        superclass: Option<usize>,
        holds_data: bool,
    ) -> (id: usize)
        requires
            old(self).wf(),
            name_has_no_nul(name@),
            parent matches Some(p) ==> p < old(self).scopes@.len(),
            superclass matches Some(s) ==> s < old(self).scopes@.len(),
        ensures
            *final(self) == (Artichoke { scopes: final(self).scopes, ..*old(self) }),
            final(self).wf(),
            id == old(self).scopes@.len(),
            final(self).scopes@.len() == old(self).scopes@.len() + 1,
            forall|i: int|
                0 <= i < old(self).scopes@.len() ==> final(self).scopes@[i] == old(self).scopes@[i],
            final(self).scopes@[id as int].kind == kind,
            final(self).scopes@[id as int].name@ == name@,
            final(self).scopes@[id as int].parent == parent,
            final(self).scopes@[id as int].superclass == superclass,
            final(self).scopes@[id as int].holds_data == holds_data,
            final(self).scopes@[id as int].methods@.len() == 0,
    {
        let id = self.scopes.len();
        self.scopes.push(
            ScopeObj { kind, name, parent, superclass, methods: Vec::new(), holds_data },
        );
        id
    }

    /// Bind a method on an object-space entry, replacing any existing
    /// binding in the same (kind, name) slot.
    pub fn bind_method(
        &mut self,
        sid: usize,
        kind: method::Type,
        name: Vec<u8>,
        native: Method,
        args: method::Arity,
    )
        requires
            old(self).wf(),
            sid < old(self).scopes@.len(),
        ensures
            *final(self) == (Artichoke { scopes: final(self).scopes, ..*old(self) }),
            final(self).wf(),
            final(self).scopes@.len() == old(self).scopes@.len(),
            forall|i: int|
                0 <= i < old(self).scopes@.len() && i != sid ==> final(self).scopes@[i] == old(
                    self,
                ).scopes@[i],
            final(self).scopes@[sid as int] == (ScopeObj {
                methods: final(self).scopes@[sid as int].methods,
                ..old(self).scopes@[sid as int]
            }),
            methods_bound(
                old(self).scopes@[sid as int].methods@,
                final(self).scopes@[sid as int].methods@,
                kind,
                name@,
                native,
                args,
            ),
    {
        let mut obj = ScopeObj {
            kind: ScopeKind::Class,
            name: Vec::new(),
            parent: Option::None,
            superclass: Option::None,
            methods: Vec::new(),
            holds_data: false,
        };
        vstd::pervasive::VecAdditionalExecFns::set_and_swap(&mut self.scopes, sid, &mut obj);
        let ghost before = obj.methods@;
        let n = obj.methods.len();
        let found = find_binding(&obj.methods, kind, &name);
        proof {
            lemma_find_method_from_in_range(obj.methods@, kind, name@, 0);
        }
        match found {
            Option::Some(j) => {
                vstd::pervasive::VecAdditionalExecFns::set(
                    &mut obj.methods,
                    j,
                    MethodBinding { kind, name, native, args },
                );
                proof {
                    assert(methods_bound(before, obj.methods@, kind, name@, native, args));
                }
            },
            Option::None => {
                obj.methods.push(MethodBinding { kind, name, native, args });
                proof {
                    assert(methods_bound(before, obj.methods@, kind, name@, native, args));
                }
            },
        }
        vstd::pervasive::VecAdditionalExecFns::set_and_swap(&mut self.scopes, sid, &mut obj);
        proof {
            assert(final(self).scopes@[sid as int] == (ScopeObj {
                methods: final(self).scopes@[sid as int].methods,
                ..old(self).scopes@[sid as int]
            }));
        }
    }

    /// Tag a class's instances as holding a foreign-data slot, so the
    /// collector runs the free routine when one is reclaimed.
    pub fn set_holds_data(&mut self, sid: usize)
        requires
            old(self).wf(),
            sid < old(self).scopes@.len(),
        ensures
            *final(self) == (Artichoke { scopes: final(self).scopes, ..*old(self) }),
            final(self).wf(),
            final(self).scopes@.len() == old(self).scopes@.len(),
            forall|i: int|
                0 <= i < old(self).scopes@.len() && i != sid ==> final(self).scopes@[i] == old(
                    self,
                ).scopes@[i],
            final(self).scopes@[sid as int] == (ScopeObj {
                holds_data: true,
                ..old(self).scopes@[sid as int]
            }),
    {
        let mut obj = ScopeObj {
            kind: ScopeKind::Class,
            name: Vec::new(),
            parent: Option::None,
            superclass: Option::None,
            methods: Vec::new(),
            holds_data: false,
        };
        vstd::pervasive::VecAdditionalExecFns::set_and_swap(&mut self.scopes, sid, &mut obj);
        obj.holds_data = true;
        vstd::pervasive::VecAdditionalExecFns::set_and_swap(&mut self.scopes, sid, &mut obj);
    }

    /// Intern a symbol name, reusing the existing entry when the name
    /// was interned before.
    #[verifier::loop_isolation(false)]
    pub fn intern_string(&mut self, name: Vec<u8>) -> (sym: usize)
        requires
            old(self).wf(),
        ensures
            *final(self) == (Artichoke { symbols: final(self).symbols, ..*old(self) }),
            final(self).wf(),
            sym < final(self).symbols@.len(),
            final(self).symbols@[sym as int]@ == name@,
            old(self).symbols@.len() <= final(self).symbols@.len() <= old(self).symbols@.len() + 1,
            forall|i: int|
                0 <= i < old(self).symbols@.len() ==> final(self).symbols@[i] == old(
                    self,
                ).symbols@[i],
    {
        let n = self.symbols.len();
        let mut j: usize = 0;
        while j < n
            invariant
                j <= n,
                n == self.symbols@.len(),
                *self == *old(self),
            decreases n - j,
        {
            if bstr::bytes_eq(&self.symbols[j], &name) {
                return j;
            }
            j = j + 1;
        }
        self.symbols.push(name);
        n
    }

    /// Append bytes to the captured standard output.
    pub fn print(&mut self, display: &Vec<u8>)
        requires
            old(self).wf(),
        ensures
            *final(self) == (Artichoke { output: final(self).output, ..*old(self) }),
            final(self).wf(),
            final(self).output@ == old(self).output@ + display@,
    {
        bstr::append_bytes(&mut self.output, display);
    }

    /// Append bytes to the captured standard output, followed by a
    /// newline unless the bytes already end with one.
    pub fn puts(&mut self, display: &Vec<u8>)
        requires
            old(self).wf(),
        ensures
            *final(self) == (Artichoke { output: final(self).output, ..*old(self) }),
            final(self).wf(),
            final(self).output@ == old(self).output@ + spec_line(display@),
    {
        bstr::append_bytes(&mut self.output, display);
        if display.len() == 0 || display[display.len() - 1] != 10 {
            self.output.push(10);
            proof {
                assert(self.output@ =~= old(self).output@ + spec_line(display@));
            }
        } else {
            proof {
                assert(self.output@ =~= old(self).output@ + spec_line(display@));
            }
        }
    }

    /// Allocate a fresh instance of the class at `class`, protected by
    /// the arena; its data slot is empty for data-backed classes and
    /// absent otherwise.
    pub fn alloc_instance(&mut self, class: usize, data: bool) -> (idx: usize)
        requires
            old(self).wf(),
            class < old(self).scopes@.len(),
        ensures
            *final(self) == (Artichoke {
                heap: final(self).heap,
                arena_roots: final(self).arena_roots,
                ..*old(self)
            }),
            final(self).wf(),
            idx == old(self).heap@.len(),
            final(self).heap@.len() == old(self).heap@.len() + 1,
            forall|i: int|
                0 <= i < old(self).heap@.len() ==> final(self).heap@[i] == old(self).heap@[i],
            final(self).heap@[idx as int].class == class,
            final(self).heap@[idx as int].state == (if data {
                DataState::Unboxed
            } else {
                DataState::Plain
            }),
            final(self).heap@[idx as int].frozen == false,
            final(self).arena_roots@ == old(self).arena_roots@.push(idx),
    {
        let idx = self.heap.len();
        self.heap.push(
            Instance {
                class,
                state: if data {
                    DataState::Unboxed
                } else {
                    DataState::Plain
                },
                frozen: false,
            },
        );
        self.arena_roots.push(idx);
        idx
    }

    /// Mark a savepoint in the arena: values protected after this point
    /// can be released in bulk by [`Artichoke::arena_restore`].
    pub fn arena_savepoint(&mut self)
        requires
            old(self).wf(),
        ensures
            *final(self) == (Artichoke { arena_marks: final(self).arena_marks, ..*old(self) }),
            final(self).wf(),
            final(self).arena_marks@ == old(self).arena_marks@.push(
                old(self).arena_roots@.len() as usize,
            ),
    {
        let mark = self.arena_roots.len();
        self.arena_marks.push(mark);
    }

    /// Release every arena protection taken since the most recent
    /// savepoint; without one, release every protection.
    pub fn arena_restore(&mut self)
        requires
            old(self).wf(),
        ensures
            *final(self) == (Artichoke {
                arena_roots: final(self).arena_roots,
                arena_marks: final(self).arena_marks,
                ..*old(self)
            }),
            final(self).wf(),
            old(self).arena_marks@.len() > 0 ==> {
                &&& final(self).arena_marks@ == old(self).arena_marks@.drop_last()
                &&& final(self).arena_roots@ == old(self).arena_roots@.subrange(
                    0,
                    old(self).arena_marks@.last() as int,
                )
            },
            old(self).arena_marks@.len() == 0 ==> {
                &&& final(self).arena_marks@ == old(self).arena_marks@
                &&& final(self).arena_roots@.len() == 0
            },
    {
        match self.arena_marks.pop() {
            Option::Some(mark) => {
                self.arena_roots.truncate(mark);
                proof {
                    assert(final(self).arena_roots@ =~= old(self).arena_roots@.subrange(
                        0,
                        old(self).arena_marks@.last() as int,
                    ));
                }
            },
            Option::None => {
                self.arena_roots.clear();
            },
        }
    }

    /// Reclaim every instance the arena does not protect: the foreign
    /// payload of each unprotected slot is dropped — the single release
    /// point, run at most once per instance — and the slot becomes
    /// `Collected`. Protected instances are untouched.
    pub fn full_gc(&mut self)
        requires
            old(self).wf(),
        ensures
            *final(self) == (Artichoke { heap: final(self).heap, ..*old(self) }),
            final(self).wf(),
            final(self).heap@.len() == old(self).heap@.len(),
            forall|i: int|
                0 <= i < old(self).heap@.len() && arena_rooted(old(self).arena_roots@, i)
                    ==> final(self).heap@[i] == old(self).heap@[i],
            forall|i: int|
                0 <= i < old(self).heap@.len() && !arena_rooted(old(self).arena_roots@, i)
                    ==> final(self).heap@[i] == (Instance {
                    state: DataState::Collected,
                    ..old(self).heap@[i]
                }),
    {
        let n = self.heap.len();
        let mut i: usize = 0;
        while i < n
            invariant
                i <= n,
                old(self).wf(),
                n == old(self).heap@.len(),
                self.heap@.len() == n,
                *self == (Artichoke { heap: self.heap, ..*old(self) }),
                forall|k: int|
                    i <= k < n ==> self.heap@[k] == old(self).heap@[k],
                forall|k: int|
                    0 <= k < i && arena_rooted(old(self).arena_roots@, k) ==> self.heap@[k] == old(
                        self,
                    ).heap@[k],
                forall|k: int|
                    0 <= k < i && !arena_rooted(old(self).arena_roots@, k) ==> self.heap@[k]
                        == (Instance { state: DataState::Collected, ..old(self).heap@[k] }),
            decreases n - i,
        {
            let mut rooted = false;
            let m = self.arena_roots.len();
            let mut k: usize = 0;
            while k < m
                invariant
                    k <= m,
                    m == self.arena_roots@.len(),
                    self.arena_roots@ == old(self).arena_roots@,
                    rooted ==> arena_rooted(old(self).arena_roots@, i as int),
                    !rooted ==> forall|q: int|
                        0 <= q < k ==> (#[trigger] old(self).arena_roots@[q]) != i,
                decreases m - k,
            {
                if self.arena_roots[k] == i {
                    rooted = true;
                }
                k = k + 1;
            }
            if !rooted {
                proof {
                    assert(!arena_rooted(old(self).arena_roots@, i as int));
                }
                let mut slot = Instance { class: 0, state: DataState::Plain, frozen: false };
                vstd::pervasive::VecAdditionalExecFns::set_and_swap(&mut self.heap, i, &mut slot);
                slot.state = DataState::Collected;
                vstd::pervasive::VecAdditionalExecFns::set_and_swap(&mut self.heap, i, &mut slot);
            }
            i = i + 1;
        }
    }

    /// Number of heap slots the collector has not reclaimed.
    pub fn live_instances(&self) -> (r: usize)
        ensures
            r as nat == live_count(self.heap@),
    {
        let n = self.heap.len();
        let mut count: usize = 0;
        let mut i: usize = 0;
        while i < n
            invariant
                i <= n,
                n == self.heap@.len(),
                count as nat == live_count(self.heap@.subrange(0, i as int)),
                count <= i,
            decreases n - i,
        {
            proof {
                assert(self.heap@.subrange(0, i + 1).drop_last() =~= self.heap@.subrange(
                    0,
                    i as int,
                ));
                assert(self.heap@.subrange(0, i + 1).last() == self.heap@[i as int]);
            }
            let is_live = match &self.heap[i].state {
                DataState::Collected => false,
                _ => true,
            };
            if is_live {
                count = count + 1;
            }
            i = i + 1;
        }
        proof {
            assert(self.heap@.subrange(0, n as int) =~= self.heap@);
        }
        count
    }
}

/// The qualified name of the object-space entry at `i`, read off the
/// parent links.
pub open spec fn scope_fqname_at(scopes: Seq<ScopeObj>, i: int) -> Seq<u8>
    decreases i,
{
    if 0 <= i < scopes.len() {
        match scopes[i].parent {
            Option::None => scopes[i].name@,
            Option::Some(p) => if p < i {
                scope_fqname_at(scopes, p as int) + "::".spec_bytes() + scopes[i].name@
            } else {
                scopes[i].name@
            },
        }
    } else {
        Seq::empty()
    }
}

/// Whether `target` appears on the superclass chain starting at `i`
/// (including `i` itself).
pub open spec fn chain_contains(scopes: Seq<ScopeObj>, i: int, target: int) -> bool
    decreases i,
{
    if 0 <= i < scopes.len() {
        i == target || (match scopes[i].superclass {
            Option::Some(s) => s < i && chain_contains(scopes, s as int, target),
            Option::None => false,
        })
    } else {
        false
    }
}

impl Artichoke {
    /// The qualified name of the object-space entry at `sid`.
    pub fn scope_fqname(&self, sid: usize) -> (r: Vec<u8>)
        requires
            self.wf(),
            sid < self.scopes@.len(),
        ensures
            r@ == scope_fqname_at(self.scopes@, sid as int),
        decreases sid,
    {
        let sc = &self.scopes[sid];
        match sc.parent {
            Option::None => bstr::clone_bytes(&sc.name),
            Option::Some(p) => {
                let mut out = self.scope_fqname(p);
                bstr::append_str(&mut out, "::");
                bstr::append_bytes(&mut out, &sc.name);
                out
            },
        }
    }

    /// Whether `target` is `start` or one of its superclasses.
    pub fn class_chain_contains(&self, start: usize, target: usize) -> (r: bool)
        requires
            self.wf(),
            start < self.scopes@.len(),
        ensures
            r == chain_contains(self.scopes@, start as int, target as int),
    {
        let mut cur = start;
        loop
            invariant
                self.wf(),
                cur < self.scopes@.len(),
                chain_contains(self.scopes@, start as int, target as int) == chain_contains(
                    self.scopes@,
                    cur as int,
                    target as int,
                ),
            decreases cur,
        {
            if cur == target {
                return true;
            }
            match self.scopes[cur].superclass {
                Option::Some(s) => {
                    cur = s;
                },
                Option::None => {
                    return false;
                },
            }
        }
    }
}

/// A byte sequence terminated by exactly the newline discipline of
/// `puts`: a trailing newline is added unless one is already there.
pub open spec fn spec_line(s: Seq<u8>) -> Seq<u8> {
    if s.len() == 0 || s.last() != 10u8 {
        s.push(10u8)
    } else {
        s
    }
}

/// Host type identity of the root `Object` class.
pub const KEY_OBJECT: u64 = 1;

/// Host type identity of the `Exception` class.
pub const KEY_EXCEPTION: u64 = 2;

/// Host type identity of the `StandardError` class.
pub const KEY_STANDARD_ERROR: u64 = 3;

/// Host type identity of the `ArgumentError` class.
pub const KEY_ARGUMENT_ERROR: u64 = 4;

/// Host type identity of the `TypeError` class.
pub const KEY_TYPE_ERROR: u64 = 5;

/// Host type identity of the `NoMethodError` class.
pub const KEY_NO_METHOD_ERROR: u64 = 6;

/// Host type identity of the `LoadError` class.
pub const KEY_LOAD_ERROR: u64 = 7;

/// Host type identity of the `NotImplementedError` class.
pub const KEY_NOT_IMPLEMENTED_ERROR: u64 = 8;

/// Host type identity of the `RuntimeError` class.
pub const KEY_RUNTIME_ERROR: u64 = 9;

/// Host type identity of the `Kernel` module.
pub const KEY_KERNEL: u64 = 10;

/// Host type identity of the `MatchData` class.
pub const KEY_MATCH_DATA: u64 = 11;

/// Host type identity of the `SecureRandom` module.
pub const KEY_SECURE_RANDOM: u64 = 12;

/// Host type identity of the `Container` class.
pub const KEY_CONTAINER: u64 = 13;

/// Byte facts about the seeded constant names: each name's length,
/// first byte, and freedom from NUL bytes. Lengths and first bytes
/// together tell every pair of seeded names apart.
pub proof fn lemma_seed_name_bytes()
    ensures
        "Object".spec_bytes().len() == 6,
        "Object".spec_bytes()[0] == 79u8,
        name_has_no_nul("Object".spec_bytes()),
        "Exception".spec_bytes().len() == 9,
        "Exception".spec_bytes()[0] == 69u8,
        name_has_no_nul("Exception".spec_bytes()),
        "StandardError".spec_bytes().len() == 13,
        "StandardError".spec_bytes()[0] == 83u8,
        name_has_no_nul("StandardError".spec_bytes()),
        "ArgumentError".spec_bytes().len() == 13,
        "ArgumentError".spec_bytes()[0] == 65u8,
        name_has_no_nul("ArgumentError".spec_bytes()),
        "TypeError".spec_bytes().len() == 9,
        "TypeError".spec_bytes()[0] == 84u8,
        name_has_no_nul("TypeError".spec_bytes()),
        "NoMethodError".spec_bytes().len() == 13,
        "NoMethodError".spec_bytes()[0] == 78u8,
        name_has_no_nul("NoMethodError".spec_bytes()),
        "LoadError".spec_bytes().len() == 9,
        "LoadError".spec_bytes()[0] == 76u8,
        name_has_no_nul("LoadError".spec_bytes()),
        "NotImplementedError".spec_bytes().len() == 19,
        "NotImplementedError".spec_bytes()[0] == 78u8,
        name_has_no_nul("NotImplementedError".spec_bytes()),
        "RuntimeError".spec_bytes().len() == 12,
        "RuntimeError".spec_bytes()[0] == 82u8,
        name_has_no_nul("RuntimeError".spec_bytes()),
        "Kernel".spec_bytes().len() == 6,
        "Kernel".spec_bytes()[0] == 75u8,
        name_has_no_nul("Kernel".spec_bytes()),
{
    reveal_strlit("Object");
    assert(is_ascii_chars("Object"@));
    lemma_literal_bytes("Object");
    reveal_strlit("Exception");
    assert(is_ascii_chars("Exception"@));
    lemma_literal_bytes("Exception");
    reveal_strlit("StandardError");
    assert(is_ascii_chars("StandardError"@));
    lemma_literal_bytes("StandardError");
    reveal_strlit("ArgumentError");
    assert(is_ascii_chars("ArgumentError"@));
    lemma_literal_bytes("ArgumentError");
    reveal_strlit("TypeError");
    assert(is_ascii_chars("TypeError"@));
    lemma_literal_bytes("TypeError");
    reveal_strlit("NoMethodError");
    assert(is_ascii_chars("NoMethodError"@));
    lemma_literal_bytes("NoMethodError");
    reveal_strlit("LoadError");
    assert(is_ascii_chars("LoadError"@));
    lemma_literal_bytes("LoadError");
    reveal_strlit("NotImplementedError");
    assert(is_ascii_chars("NotImplementedError"@));
    lemma_literal_bytes("NotImplementedError");
    reveal_strlit("RuntimeError");
    assert(is_ascii_chars("RuntimeError"@));
    lemma_literal_bytes("RuntimeError");
    reveal_strlit("Kernel");
    assert(is_ascii_chars("Kernel"@));
    lemma_literal_bytes("Kernel");
}

/// For an ASCII string literal already revealed at the call site, the
/// UTF-8 bytes correspond one to one with the characters; so the byte
/// length equals the character length, every byte is the character's
/// code, and no byte is NUL when no character is.
pub proof fn lemma_literal_bytes(s: &str)
    requires
        is_ascii_chars(s@),
        forall|i: int| 0 <= i < s@.len() ==> (#[trigger] s@[i]) != '\0',
    ensures
        s.spec_bytes().len() == s@.len(),
        forall|i: int| 0 <= i < s@.len() ==> s.spec_bytes()[i] == (#[trigger] s@[i]) as u8,
        name_has_no_nul(s.spec_bytes()),
{
    is_ascii_chars_encode_utf8(s@);
    assert forall|i: int| 0 <= i < s@.len() implies s.spec_bytes()[i] == (#[trigger] s@[i]) as u8 by {
        assert(s@[i] as u8 == encode_utf8(s@)[i]);
    }
    assert forall|i: int| 0 <= i < s.spec_bytes().len() implies s.spec_bytes()[i] != 0u8 by {
        assert(s.spec_bytes()[i] == s@[i] as u8);
        assert(s@[i] != '\0');
    }
}

/// What a fresh interpreter's object space, registries and features
/// hold: the root `Object` class; the exception hierarchy — `Exception`
/// under `Object`, `StandardError` under `Exception`, and the standard
/// error classes under `StandardError`; the `Kernel` module; and the
/// foreign-backed `MatchData` class with its whole method set. Each is
/// resolvable at the root, registered under its host type key, and the
/// space holds nothing else. The `SecureRandom` feature is registered
/// under its load path.
pub open spec fn seeded(r: Artichoke) -> bool {
    &&& r.scopes@.len() == 11
    &&& seeded_class_at(r.scopes@, 0, "Object".spec_bytes(), Option::None)
    &&& seeded_class_at(r.scopes@, 1, "Exception".spec_bytes(), Option::Some(0usize))
    &&& seeded_class_at(r.scopes@, 2, "StandardError".spec_bytes(), Option::Some(1usize))
    &&& seeded_class_at(r.scopes@, 3, "ArgumentError".spec_bytes(), Option::Some(2usize))
    &&& seeded_class_at(r.scopes@, 4, "TypeError".spec_bytes(), Option::Some(2usize))
    &&& seeded_class_at(r.scopes@, 5, "NoMethodError".spec_bytes(), Option::Some(2usize))
    &&& seeded_class_at(r.scopes@, 6, "LoadError".spec_bytes(), Option::Some(2usize))
    &&& seeded_class_at(r.scopes@, 7, "NotImplementedError".spec_bytes(), Option::Some(2usize))
    &&& seeded_class_at(r.scopes@, 8, "RuntimeError".spec_bytes(), Option::Some(2usize))
    &&& r.scopes@[9].kind == ScopeKind::Module
    &&& r.scopes@[9].name@ == "Kernel".spec_bytes()
    &&& r.scopes@[9].parent is None
    &&& seeded_class_at(r.scopes@, 10, "MatchData".spec_bytes(), Option::Some(0usize))
    &&& r.scopes@[10].holds_data
    &&& crate::matchdata::matchdata_methods_bound(r.scopes@[10].methods@)
    &&& find_scope(r.scopes@, Option::None, "Object".spec_bytes()) == Option::Some(0usize)
    &&& find_scope(r.scopes@, Option::None, "Exception".spec_bytes()) == Option::Some(1usize)
    &&& find_scope(r.scopes@, Option::None, "StandardError".spec_bytes()) == Option::Some(2usize)
    &&& find_scope(r.scopes@, Option::None, "ArgumentError".spec_bytes()) == Option::Some(3usize)
    &&& find_scope(r.scopes@, Option::None, "TypeError".spec_bytes()) == Option::Some(4usize)
    &&& find_scope(r.scopes@, Option::None, "NoMethodError".spec_bytes()) == Option::Some(5usize)
    &&& find_scope(r.scopes@, Option::None, "LoadError".spec_bytes()) == Option::Some(6usize)
    &&& find_scope(r.scopes@, Option::None, "NotImplementedError".spec_bytes()) == Option::Some(
        7usize,
    )
    &&& find_scope(r.scopes@, Option::None, "RuntimeError".spec_bytes()) == Option::Some(8usize)
    &&& find_scope(r.scopes@, Option::None, "Kernel".spec_bytes()) == Option::Some(9usize)
    &&& find_scope(r.scopes@, Option::None, "MatchData".spec_bytes()) == Option::Some(10usize)
    &&& r.classes@.len() == 10
    &&& seeded_registry_entry(r.classes@, 0, KEY_OBJECT, "Object".spec_bytes())
    &&& seeded_registry_entry(r.classes@, 1, KEY_EXCEPTION, "Exception".spec_bytes())
    &&& seeded_registry_entry(r.classes@, 2, KEY_STANDARD_ERROR, "StandardError".spec_bytes())
    &&& seeded_registry_entry(r.classes@, 3, KEY_ARGUMENT_ERROR, "ArgumentError".spec_bytes())
    &&& seeded_registry_entry(r.classes@, 4, KEY_TYPE_ERROR, "TypeError".spec_bytes())
    &&& seeded_registry_entry(r.classes@, 5, KEY_NO_METHOD_ERROR, "NoMethodError".spec_bytes())
    &&& seeded_registry_entry(r.classes@, 6, KEY_LOAD_ERROR, "LoadError".spec_bytes())
    &&& seeded_registry_entry(
        r.classes@,
        7,
        KEY_NOT_IMPLEMENTED_ERROR,
        "NotImplementedError".spec_bytes(),
    )
    &&& seeded_registry_entry(r.classes@, 8, KEY_RUNTIME_ERROR, "RuntimeError".spec_bytes())
    &&& seeded_registry_entry(r.classes@, 9, KEY_MATCH_DATA, "MatchData".spec_bytes())
    &&& r.classes@[9].1.spec_free() == Option::Some(crate::def::Free::BoxUnbox)
    &&& r.modules@.len() == 1
    &&& r.modules@[0].0 == KEY_KERNEL
    &&& r.modules@[0].1.spec_path() == seq!["Kernel".spec_bytes()]
    &&& r.files@.len() == 1
    &&& r.files@[0].0@ == "securerandom.rb".spec_bytes()
    &&& r.files@[0].1 == Feature::SecureRandom
}

/// Whether object-space entry `i` is a root class named `name` with
/// the given superclass.
pub open spec fn seeded_class_at(
    scopes: Seq<ScopeObj>,
    i: int,
    name: Seq<u8>,
    superclass: Option<usize>,
) -> bool {
    &&& scopes[i].kind == ScopeKind::Class
    &&& scopes[i].name@ == name
    &&& scopes[i].parent is None
    &&& scopes[i].superclass == superclass
}

/// Whether class-registry entry `i` binds `key` to a descriptor of the
/// root class named `name`.
pub open spec fn seeded_registry_entry(
    classes: Seq<(u64, crate::class::Spec)>,
    i: int,
    key: u64,
    name: Seq<u8>,
) -> bool {
    &&& classes[i].0 == key
    &&& classes[i].1.spec_path() == seq![name]
}

/// Define and register a root class named `name` under the host type
/// `key`, with the class registered under `super_key` as superclass.
fn seed_class(interp: &mut Artichoke, key: u64, name: &str, super_key: u64)
    requires
        old(interp).wf(),
        name_has_no_nul(name.spec_bytes()),
        find_scope(old(interp).scopes@, Option::None, name.spec_bytes()) is None,
        reg_find(old(interp).classes@, key) is None,
        match reg_find(old(interp).classes@, super_key) {
            Option::Some(j) => crate::interp::resolve_path(
                old(interp).scopes@,
                old(interp).classes@[j].1.spec_path(),
            ) is Some,
            Option::None => false,
        },
    ensures
        final(interp).wf(),
        *final(interp) == (Artichoke {
            scopes: final(interp).scopes,
            classes: final(interp).classes,
            ..*old(interp)
        }),
        final(interp).scopes@.len() == old(interp).scopes@.len() + 1,
        forall|i: int|
            0 <= i < old(interp).scopes@.len() ==> final(interp).scopes@[i] == old(
                interp,
            ).scopes@[i],
        final(interp).scopes@.last().kind == ScopeKind::Class,
        final(interp).scopes@.last().name@ == name.spec_bytes(),
        final(interp).scopes@.last().parent is None,
        final(interp).scopes@.last().superclass == (match reg_find(
            old(interp).classes@,
            super_key,
        ) {
            Option::Some(j) => resolve_path(
                old(interp).scopes@,
                old(interp).classes@[j].1.spec_path(),
            ),
            Option::None => Option::None,
        }),
        !final(interp).scopes@.last().holds_data,
        final(interp).classes@.len() == old(interp).classes@.len() + 1,
        forall|i: int|
            0 <= i < old(interp).classes@.len() ==> final(interp).classes@[i] == old(
                interp,
            ).classes@[i],
        final(interp).classes@.last().0 == key,
        final(interp).classes@.last().1.spec_path() == seq![name.spec_bytes()],
        final(interp).classes@.last().1.spec_free() is None,
{
    let spec = match crate::class::Spec::new(bstr::bytes_of(name), Option::None, Option::None) {
        Ok(spec) => spec,
        Err(_) => {
            return ;
        },
    };
    let builder = crate::class::Builder::for_spec(&spec);
    let builder = match builder.with_super_class(interp, super_key, bstr::bytes_of(name)) {
        Ok(b) => b,
        Err(_) => {
            return ;
        },
    };
    proof {
        assert(spec.spec_path() =~= seq![name.spec_bytes()]);
    }
    let defined = builder.define(interp);
    match defined {
        Ok(()) => {},
        Err(_) => {
            return ;
        },
    }
    let _ = interp.def_class(key, spec);
}

/// Define and register a root module named `name` under the host type
/// `key`.
fn seed_module(interp: &mut Artichoke, key: u64, name: &str)
    requires
        old(interp).wf(),
        name_has_no_nul(name.spec_bytes()),
        find_scope(old(interp).scopes@, Option::None, name.spec_bytes()) is None,
        reg_find(old(interp).modules@, key) is None,
    ensures
        final(interp).wf(),
        *final(interp) == (Artichoke {
            scopes: final(interp).scopes,
            modules: final(interp).modules,
            symbols: final(interp).symbols,
            ..*old(interp)
        }),
        final(interp).scopes@.len() == old(interp).scopes@.len() + 1,
        forall|i: int|
            0 <= i < old(interp).scopes@.len() ==> final(interp).scopes@[i] == old(
                interp,
            ).scopes@[i],
        final(interp).scopes@.last().kind == ScopeKind::Module,
        final(interp).scopes@.last().name@ == name.spec_bytes(),
        final(interp).scopes@.last().parent is None,
        final(interp).scopes@.last().superclass is None,
        !final(interp).scopes@.last().holds_data,
        final(interp).modules@.len() == old(interp).modules@.len() + 1,
        forall|i: int|
            0 <= i < old(interp).modules@.len() ==> final(interp).modules@[i] == old(
                interp,
            ).modules@[i],
        final(interp).modules@.last().0 == key,
        final(interp).modules@.last().1.spec_path() == seq![name.spec_bytes()],
{
    let spec = match crate::module::Spec::new(interp, bstr::bytes_of(name), Option::None) {
        Ok(spec) => spec,
        Err(_) => {
            return ;
        },
    };
    let builder = crate::module::Builder::for_spec(&spec);
    proof {
        assert(spec.spec_path() =~= seq![name.spec_bytes()]);
    }
    let defined = builder.define(interp);
    match defined {
        Ok(()) => {},
        Err(_) => {
            return ;
        },
    }
    let _ = interp.def_module(key, spec);
}

/// Create an interpreter with the base class hierarchy defined and
/// registered — `Object` at the root, the standard exception classes
/// under it, and the `Kernel` module — the `MatchData` class installed,
/// and the loadable features registered under their paths, exactly as
/// [`seeded`] states; nothing else is defined, the heap, output and
/// arena start empty, and the dispatch counter starts at zero.
#[verifier::rlimit(100)]
pub fn interpreter() -> (r: Artichoke)
    ensures
        r.wf(),
        seeded(r),
        r.heap@.len() == 0,
        r.output@.len() == 0,
        r.warnings@.len() == 0,
        r.vm_calls == 0,
        r.arena_roots@.len() == 0,
        r.arena_marks@.len() == 0,
        r.loaded_features@.len() == 0,
{
    proof {
        lemma_seed_name_bytes();
        crate::matchdata::lemma_matchdata_name_bytes();
    }
    let mut interp = Artichoke {
        scopes: Vec::new(),
        classes: Vec::new(),
        modules: Vec::new(),
        heap: Vec::new(),
        symbols: Vec::new(),
        output: Vec::new(),
        warnings: Vec::new(),
        loaded_features: Vec::new(),
        files: Vec::new(),
        prng: Prng::new(),
        vm_calls: 0,
        arena_roots: Vec::new(),
        arena_marks: Vec::new(),
    };
    // The root Object class exists before anything else: it is the
    // default superclass, so it cannot be defined through a builder.
    let object_name = bstr::bytes_of("Object");
    if crate::def::check_name(&object_name) {
        let _ = interp.create_scope(
            ScopeKind::Class,
            object_name,
            Option::None,
            Option::None,
            false,
        );
    }
    match crate::class::Spec::new(bstr::bytes_of("Object"), Option::None, Option::None) {
        Ok(spec) => {
            proof {
                assert(spec.spec_path() =~= seq!["Object".spec_bytes()]);
            }
            let _ = interp.def_class(KEY_OBJECT, spec);
        },
        Err(_) => {},
    }
    proof {
        lemma_find_scope_at(interp.scopes@, Option::None, "Object".spec_bytes(), 0);
        lemma_reg_find_at(interp.classes@, KEY_OBJECT, 0);
    }
    proof {
        assert forall|k: int| 0 <= k < interp.scopes@.len() implies !scope_matches(
            #[trigger] interp.scopes@[k],
            Option::None,
            "Exception".spec_bytes(),
        ) by {}
        lemma_find_scope_none(interp.scopes@, Option::None, "Exception".spec_bytes());
        assert forall|k: int| 0 <= k < interp.classes@.len() implies (#[trigger] interp.classes@[
            k
        ]).0 != KEY_EXCEPTION by {}
        lemma_reg_find_none(interp.classes@, KEY_EXCEPTION);
        assert forall|k: int| 0 <= k < 0 implies (#[trigger] interp.classes@[k]).0 != KEY_OBJECT
            by {}
        lemma_reg_find_at(interp.classes@, KEY_OBJECT, 0);
        assert forall|k: int| 0 <= k < 0 implies !scope_matches(
            #[trigger] interp.scopes@[k],
            Option::None,
            "Object".spec_bytes(),
        ) by {}
        lemma_find_scope_at(interp.scopes@, Option::None, "Object".spec_bytes(), 0);
        assert(interp.classes@[0].1.spec_path() == seq!["Object".spec_bytes()]);
        assert(resolve_path(interp.scopes@, seq!["Object".spec_bytes()]) == find_scope(
            interp.scopes@,
            Option::None,
            "Object".spec_bytes(),
        ));
    }
    seed_step(&mut interp, KEY_EXCEPTION, "Exception", KEY_OBJECT, 0);
    proof {
        assert(interp.scopes@[1].kind == ScopeKind::Class);
        assert(interp.scopes@[1].name@ == "Exception".spec_bytes());
        assert(interp.scopes@[1].parent is None);
        assert(interp.scopes@[1].superclass == Option::Some(0usize));
        assert(interp.classes@[1].0 == KEY_EXCEPTION);
        assert(interp.classes@[1].1.spec_path() == seq!["Exception".spec_bytes()]);
    }
    proof {
        assert forall|k: int| 0 <= k < interp.scopes@.len() implies !scope_matches(
            #[trigger] interp.scopes@[k],
            Option::None,
            "StandardError".spec_bytes(),
        ) by {}
        lemma_find_scope_none(interp.scopes@, Option::None, "StandardError".spec_bytes());
        assert forall|k: int| 0 <= k < interp.classes@.len() implies (#[trigger] interp.classes@[
            k
        ]).0 != KEY_STANDARD_ERROR by {}
        lemma_reg_find_none(interp.classes@, KEY_STANDARD_ERROR);
        assert forall|k: int| 0 <= k < 1 implies (#[trigger] interp.classes@[k]).0 != KEY_EXCEPTION
            by {}
        lemma_reg_find_at(interp.classes@, KEY_EXCEPTION, 1);
        assert forall|k: int| 0 <= k < 1 implies !scope_matches(
            #[trigger] interp.scopes@[k],
            Option::None,
            "Exception".spec_bytes(),
        ) by {}
        lemma_find_scope_at(interp.scopes@, Option::None, "Exception".spec_bytes(), 1);
        assert(interp.classes@[1].1.spec_path() == seq!["Exception".spec_bytes()]);
        assert(resolve_path(interp.scopes@, seq!["Exception".spec_bytes()]) == find_scope(
            interp.scopes@,
            Option::None,
            "Exception".spec_bytes(),
        ));
    }
    seed_step(&mut interp, KEY_STANDARD_ERROR, "StandardError", KEY_EXCEPTION, 1);
    proof {
        assert(interp.scopes@[2].kind == ScopeKind::Class);
        assert(interp.scopes@[2].name@ == "StandardError".spec_bytes());
        assert(interp.scopes@[2].parent is None);
        assert(interp.scopes@[2].superclass == Option::Some(1usize));
        assert(interp.classes@[2].0 == KEY_STANDARD_ERROR);
        assert(interp.classes@[2].1.spec_path() == seq!["StandardError".spec_bytes()]);
    }
    proof {
        assert forall|k: int| 0 <= k < interp.scopes@.len() implies !scope_matches(
            #[trigger] interp.scopes@[k],
            Option::None,
            "ArgumentError".spec_bytes(),
        ) by {}
        lemma_find_scope_none(interp.scopes@, Option::None, "ArgumentError".spec_bytes());
        assert forall|k: int| 0 <= k < interp.classes@.len() implies (#[trigger] interp.classes@[
            k
        ]).0 != KEY_ARGUMENT_ERROR by {}
        lemma_reg_find_none(interp.classes@, KEY_ARGUMENT_ERROR);
        assert forall|k: int| 0 <= k < 2 implies (#[trigger] interp.classes@[k]).0 != KEY_STANDARD_ERROR
            by {}
        lemma_reg_find_at(interp.classes@, KEY_STANDARD_ERROR, 2);
        assert forall|k: int| 0 <= k < 2 implies !scope_matches(
            #[trigger] interp.scopes@[k],
            Option::None,
            "StandardError".spec_bytes(),
        ) by {}
        lemma_find_scope_at(interp.scopes@, Option::None, "StandardError".spec_bytes(), 2);
        assert(interp.classes@[2].1.spec_path() == seq!["StandardError".spec_bytes()]);
        assert(resolve_path(interp.scopes@, seq!["StandardError".spec_bytes()]) == find_scope(
            interp.scopes@,
            Option::None,
            "StandardError".spec_bytes(),
        ));
    }
    seed_step(&mut interp, KEY_ARGUMENT_ERROR, "ArgumentError", KEY_STANDARD_ERROR, 2);
    proof {
        assert(interp.scopes@[3].kind == ScopeKind::Class);
        assert(interp.scopes@[3].name@ == "ArgumentError".spec_bytes());
        assert(interp.scopes@[3].parent is None);
        assert(interp.scopes@[3].superclass == Option::Some(2usize));
        assert(interp.classes@[3].0 == KEY_ARGUMENT_ERROR);
        assert(interp.classes@[3].1.spec_path() == seq!["ArgumentError".spec_bytes()]);
    }
    proof {
        assert forall|k: int| 0 <= k < interp.scopes@.len() implies !scope_matches(
            #[trigger] interp.scopes@[k],
            Option::None,
            "TypeError".spec_bytes(),
        ) by {}
        lemma_find_scope_none(interp.scopes@, Option::None, "TypeError".spec_bytes());
        assert forall|k: int| 0 <= k < interp.classes@.len() implies (#[trigger] interp.classes@[
            k
        ]).0 != KEY_TYPE_ERROR by {}
        lemma_reg_find_none(interp.classes@, KEY_TYPE_ERROR);
        assert forall|k: int| 0 <= k < 2 implies (#[trigger] interp.classes@[k]).0 != KEY_STANDARD_ERROR
            by {}
        lemma_reg_find_at(interp.classes@, KEY_STANDARD_ERROR, 2);
        assert forall|k: int| 0 <= k < 2 implies !scope_matches(
            #[trigger] interp.scopes@[k],
            Option::None,
            "StandardError".spec_bytes(),
        ) by {}
        lemma_find_scope_at(interp.scopes@, Option::None, "StandardError".spec_bytes(), 2);
        assert(interp.classes@[2].1.spec_path() == seq!["StandardError".spec_bytes()]);
        assert(resolve_path(interp.scopes@, seq!["StandardError".spec_bytes()]) == find_scope(
            interp.scopes@,
            Option::None,
            "StandardError".spec_bytes(),
        ));
    }
    seed_step(&mut interp, KEY_TYPE_ERROR, "TypeError", KEY_STANDARD_ERROR, 2);
    proof {
        assert(interp.scopes@[4].kind == ScopeKind::Class);
        assert(interp.scopes@[4].name@ == "TypeError".spec_bytes());
        assert(interp.scopes@[4].parent is None);
        assert(interp.scopes@[4].superclass == Option::Some(2usize));
        assert(interp.classes@[4].0 == KEY_TYPE_ERROR);
        assert(interp.classes@[4].1.spec_path() == seq!["TypeError".spec_bytes()]);
    }
    proof {
        assert forall|k: int| 0 <= k < interp.scopes@.len() implies !scope_matches(
            #[trigger] interp.scopes@[k],
            Option::None,
            "NoMethodError".spec_bytes(),
        ) by {}
        lemma_find_scope_none(interp.scopes@, Option::None, "NoMethodError".spec_bytes());
        assert forall|k: int| 0 <= k < interp.classes@.len() implies (#[trigger] interp.classes@[
            k
        ]).0 != KEY_NO_METHOD_ERROR by {}
        lemma_reg_find_none(interp.classes@, KEY_NO_METHOD_ERROR);
        assert forall|k: int| 0 <= k < 2 implies (#[trigger] interp.classes@[k]).0 != KEY_STANDARD_ERROR
            by {}
        lemma_reg_find_at(interp.classes@, KEY_STANDARD_ERROR, 2);
        assert forall|k: int| 0 <= k < 2 implies !scope_matches(
            #[trigger] interp.scopes@[k],
            Option::None,
            "StandardError".spec_bytes(),
        ) by {}
        lemma_find_scope_at(interp.scopes@, Option::None, "StandardError".spec_bytes(), 2);
        assert(interp.classes@[2].1.spec_path() == seq!["StandardError".spec_bytes()]);
        assert(resolve_path(interp.scopes@, seq!["StandardError".spec_bytes()]) == find_scope(
            interp.scopes@,
            Option::None,
            "StandardError".spec_bytes(),
        ));
    }
    seed_step(&mut interp, KEY_NO_METHOD_ERROR, "NoMethodError", KEY_STANDARD_ERROR, 2);
    proof {
        assert(interp.scopes@[5].kind == ScopeKind::Class);
        assert(interp.scopes@[5].name@ == "NoMethodError".spec_bytes());
        assert(interp.scopes@[5].parent is None);
        assert(interp.scopes@[5].superclass == Option::Some(2usize));
        assert(interp.classes@[5].0 == KEY_NO_METHOD_ERROR);
        assert(interp.classes@[5].1.spec_path() == seq!["NoMethodError".spec_bytes()]);
    }
    proof {
        assert forall|k: int| 0 <= k < interp.scopes@.len() implies !scope_matches(
            #[trigger] interp.scopes@[k],
            Option::None,
            "LoadError".spec_bytes(),
        ) by {}
        lemma_find_scope_none(interp.scopes@, Option::None, "LoadError".spec_bytes());
        assert forall|k: int| 0 <= k < interp.classes@.len() implies (#[trigger] interp.classes@[
            k
        ]).0 != KEY_LOAD_ERROR by {}
        lemma_reg_find_none(interp.classes@, KEY_LOAD_ERROR);
        assert forall|k: int| 0 <= k < 2 implies (#[trigger] interp.classes@[k]).0 != KEY_STANDARD_ERROR
            by {}
        lemma_reg_find_at(interp.classes@, KEY_STANDARD_ERROR, 2);
        assert forall|k: int| 0 <= k < 2 implies !scope_matches(
            #[trigger] interp.scopes@[k],
            Option::None,
            "StandardError".spec_bytes(),
        ) by {}
        lemma_find_scope_at(interp.scopes@, Option::None, "StandardError".spec_bytes(), 2);
        assert(interp.classes@[2].1.spec_path() == seq!["StandardError".spec_bytes()]);
        assert(resolve_path(interp.scopes@, seq!["StandardError".spec_bytes()]) == find_scope(
            interp.scopes@,
            Option::None,
            "StandardError".spec_bytes(),
        ));
    }
    seed_step(&mut interp, KEY_LOAD_ERROR, "LoadError", KEY_STANDARD_ERROR, 2);
    proof {
        assert(interp.scopes@[6].kind == ScopeKind::Class);
        assert(interp.scopes@[6].name@ == "LoadError".spec_bytes());
        assert(interp.scopes@[6].parent is None);
        assert(interp.scopes@[6].superclass == Option::Some(2usize));
        assert(interp.classes@[6].0 == KEY_LOAD_ERROR);
        assert(interp.classes@[6].1.spec_path() == seq!["LoadError".spec_bytes()]);
    }
    proof {
        assert forall|k: int| 0 <= k < interp.scopes@.len() implies !scope_matches(
            #[trigger] interp.scopes@[k],
            Option::None,
            "NotImplementedError".spec_bytes(),
        ) by {}
        lemma_find_scope_none(interp.scopes@, Option::None, "NotImplementedError".spec_bytes());
        assert forall|k: int| 0 <= k < interp.classes@.len() implies (#[trigger] interp.classes@[
            k
        ]).0 != KEY_NOT_IMPLEMENTED_ERROR by {}
        lemma_reg_find_none(interp.classes@, KEY_NOT_IMPLEMENTED_ERROR);
        assert forall|k: int| 0 <= k < 2 implies (#[trigger] interp.classes@[k]).0 != KEY_STANDARD_ERROR
            by {}
        lemma_reg_find_at(interp.classes@, KEY_STANDARD_ERROR, 2);
        assert forall|k: int| 0 <= k < 2 implies !scope_matches(
            #[trigger] interp.scopes@[k],
            Option::None,
            "StandardError".spec_bytes(),
        ) by {}
        lemma_find_scope_at(interp.scopes@, Option::None, "StandardError".spec_bytes(), 2);
        assert(interp.classes@[2].1.spec_path() == seq!["StandardError".spec_bytes()]);
        assert(resolve_path(interp.scopes@, seq!["StandardError".spec_bytes()]) == find_scope(
            interp.scopes@,
            Option::None,
            "StandardError".spec_bytes(),
        ));
    }
    seed_step(&mut interp, KEY_NOT_IMPLEMENTED_ERROR, "NotImplementedError", KEY_STANDARD_ERROR, 2);
    proof {
        assert(interp.scopes@[7].kind == ScopeKind::Class);
        assert(interp.scopes@[7].name@ == "NotImplementedError".spec_bytes());
        assert(interp.scopes@[7].parent is None);
        assert(interp.scopes@[7].superclass == Option::Some(2usize));
        assert(interp.classes@[7].0 == KEY_NOT_IMPLEMENTED_ERROR);
        assert(interp.classes@[7].1.spec_path() == seq!["NotImplementedError".spec_bytes()]);
    }
    proof {
        assert forall|k: int| 0 <= k < interp.scopes@.len() implies !scope_matches(
            #[trigger] interp.scopes@[k],
            Option::None,
            "RuntimeError".spec_bytes(),
        ) by {}
        lemma_find_scope_none(interp.scopes@, Option::None, "RuntimeError".spec_bytes());
        assert forall|k: int| 0 <= k < interp.classes@.len() implies (#[trigger] interp.classes@[
            k
        ]).0 != KEY_RUNTIME_ERROR by {}
        lemma_reg_find_none(interp.classes@, KEY_RUNTIME_ERROR);
        assert forall|k: int| 0 <= k < 2 implies (#[trigger] interp.classes@[k]).0 != KEY_STANDARD_ERROR
            by {}
        lemma_reg_find_at(interp.classes@, KEY_STANDARD_ERROR, 2);
        assert forall|k: int| 0 <= k < 2 implies !scope_matches(
            #[trigger] interp.scopes@[k],
            Option::None,
            "StandardError".spec_bytes(),
        ) by {}
        lemma_find_scope_at(interp.scopes@, Option::None, "StandardError".spec_bytes(), 2);
        assert(interp.classes@[2].1.spec_path() == seq!["StandardError".spec_bytes()]);
        assert(resolve_path(interp.scopes@, seq!["StandardError".spec_bytes()]) == find_scope(
            interp.scopes@,
            Option::None,
            "StandardError".spec_bytes(),
        ));
    }
    seed_step(&mut interp, KEY_RUNTIME_ERROR, "RuntimeError", KEY_STANDARD_ERROR, 2);
    proof {
        assert(interp.scopes@[8].kind == ScopeKind::Class);
        assert(interp.scopes@[8].name@ == "RuntimeError".spec_bytes());
        assert(interp.scopes@[8].parent is None);
        assert(interp.scopes@[8].superclass == Option::Some(2usize));
        assert(interp.classes@[8].0 == KEY_RUNTIME_ERROR);
        assert(interp.classes@[8].1.spec_path() == seq!["RuntimeError".spec_bytes()]);
    }
    proof {
        assert forall|k: int| 0 <= k < interp.scopes@.len() implies !scope_matches(
            #[trigger] interp.scopes@[k],
            Option::None,
            "Kernel".spec_bytes(),
        ) by {}
        lemma_find_scope_none(interp.scopes@, Option::None, "Kernel".spec_bytes());
        lemma_reg_find_none(interp.modules@, KEY_KERNEL);
    }
    seed_module(&mut interp, KEY_KERNEL, "Kernel");
    proof {
        assert forall|k: int| 0 <= k < interp.scopes@.len() implies !scope_matches(
            #[trigger] interp.scopes@[k],
            Option::None,
            "MatchData".spec_bytes(),
        ) by {}
        lemma_find_scope_none(interp.scopes@, Option::None, "MatchData".spec_bytes());
        assert forall|k: int| 0 <= k < interp.classes@.len() implies (#[trigger] interp.classes@[
            k
        ]).0 != KEY_MATCH_DATA by {}
        lemma_reg_find_none(interp.classes@, KEY_MATCH_DATA);
        lemma_find_scope_at(interp.scopes@, Option::None, "Object".spec_bytes(), 0);
    }
    let _ = crate::matchdata::init(&mut interp);
    let _ = crate::securerandom::init(&mut interp);
    proof {
        lemma_find_scope_at(interp.scopes@, Option::None, "Object".spec_bytes(), 0);
        assert forall|k: int| 0 <= k < 1 implies !scope_matches(
            #[trigger] interp.scopes@[k],
            Option::None,
            "Exception".spec_bytes(),
        ) by {}
        lemma_find_scope_at(interp.scopes@, Option::None, "Exception".spec_bytes(), 1);
        assert forall|k: int| 0 <= k < 2 implies !scope_matches(
            #[trigger] interp.scopes@[k],
            Option::None,
            "StandardError".spec_bytes(),
        ) by {}
        lemma_find_scope_at(interp.scopes@, Option::None, "StandardError".spec_bytes(), 2);
        assert forall|k: int| 0 <= k < 3 implies !scope_matches(
            #[trigger] interp.scopes@[k],
            Option::None,
            "ArgumentError".spec_bytes(),
        ) by {}
        lemma_find_scope_at(interp.scopes@, Option::None, "ArgumentError".spec_bytes(), 3);
        assert forall|k: int| 0 <= k < 4 implies !scope_matches(
            #[trigger] interp.scopes@[k],
            Option::None,
            "TypeError".spec_bytes(),
        ) by {}
        lemma_find_scope_at(interp.scopes@, Option::None, "TypeError".spec_bytes(), 4);
        assert forall|k: int| 0 <= k < 5 implies !scope_matches(
            #[trigger] interp.scopes@[k],
            Option::None,
            "NoMethodError".spec_bytes(),
        ) by {}
        lemma_find_scope_at(interp.scopes@, Option::None, "NoMethodError".spec_bytes(), 5);
        assert forall|k: int| 0 <= k < 6 implies !scope_matches(
            #[trigger] interp.scopes@[k],
            Option::None,
            "LoadError".spec_bytes(),
        ) by {}
        lemma_find_scope_at(interp.scopes@, Option::None, "LoadError".spec_bytes(), 6);
        assert forall|k: int| 0 <= k < 7 implies !scope_matches(
            #[trigger] interp.scopes@[k],
            Option::None,
            "NotImplementedError".spec_bytes(),
        ) by {}
        lemma_find_scope_at(
            interp.scopes@,
            Option::None,
            "NotImplementedError".spec_bytes(),
            7,
        );
        assert forall|k: int| 0 <= k < 8 implies !scope_matches(
            #[trigger] interp.scopes@[k],
            Option::None,
            "RuntimeError".spec_bytes(),
        ) by {}
        lemma_find_scope_at(interp.scopes@, Option::None, "RuntimeError".spec_bytes(), 8);
        assert forall|k: int| 0 <= k < 9 implies !scope_matches(
            #[trigger] interp.scopes@[k],
            Option::None,
            "Kernel".spec_bytes(),
        ) by {}
        lemma_find_scope_at(interp.scopes@, Option::None, "Kernel".spec_bytes(), 9);
        assert forall|k: int| 0 <= k < 10 implies !scope_matches(
            #[trigger] interp.scopes@[k],
            Option::None,
            "MatchData".spec_bytes(),
        ) by {}
        lemma_find_scope_at(interp.scopes@, Option::None, "MatchData".spec_bytes(), 10);
    }
    interp
}

/// One step of seeding: define and register a root class whose
/// superclass is the already-seeded class at `super_index`.
fn seed_step(interp: &mut Artichoke, key: u64, name: &str, super_key: u64, super_index: usize)
    requires
        old(interp).wf(),
        name_has_no_nul(name.spec_bytes()),
        find_scope(old(interp).scopes@, Option::None, name.spec_bytes()) is None,
        reg_find(old(interp).classes@, key) is None,
        match reg_find(old(interp).classes@, super_key) {
            Option::Some(j) => resolve_path(
                old(interp).scopes@,
                old(interp).classes@[j].1.spec_path(),
            ) == Option::Some(super_index),
            Option::None => false,
        },
    ensures
        final(interp).wf(),
        *final(interp) == (Artichoke {
            scopes: final(interp).scopes,
            classes: final(interp).classes,
            ..*old(interp)
        }),
        final(interp).scopes@.len() == old(interp).scopes@.len() + 1,
        forall|i: int|
            0 <= i < old(interp).scopes@.len() ==> final(interp).scopes@[i] == old(
                interp,
            ).scopes@[i],
        final(interp).scopes@.last().kind == ScopeKind::Class,
        final(interp).scopes@.last().name@ == name.spec_bytes(),
        final(interp).scopes@.last().parent is None,
        final(interp).scopes@.last().superclass == Option::Some(super_index),
        !final(interp).scopes@.last().holds_data,
        final(interp).classes@.len() == old(interp).classes@.len() + 1,
        forall|i: int|
            0 <= i < old(interp).classes@.len() ==> final(interp).classes@[i] == old(
                interp,
            ).classes@[i],
        final(interp).classes@.last().0 == key,
        final(interp).classes@.last().1.spec_path() == seq![name.spec_bytes()],
        final(interp).classes@.last().1.spec_free() is None,
{
    seed_class(interp, key, name, super_key);
}


} // verus!
