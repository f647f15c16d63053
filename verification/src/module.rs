//! Module descriptors and the staged module definition builder.
//!
//! Mirrors [`crate::class`] for modules: a module has no superclass and
//! its instances never box host data, but name validation, scope
//! nesting, resolution and one-time definition follow the same
//! protocol. A module descriptor additionally carries the interned
//! symbol of its name, as module lookup in the interpreter goes through
//! the constant table.

use vstd::prelude::*;
use vstd::std_specs::cmp::PartialEqSpec;

use crate::bstr;
use crate::def::{
    check_name, join_path, lemma_join_path_push, lemma_scope_path_nonempty, name_has_no_nul,
    ConstantNameError, EnclosingRubyScope, Method, NotDefinedError,
};
use crate::exception::Exception;
use crate::interp::{
    binding_is, find_method, lemma_methods_bound_found, lemma_methods_bound_preserves,
    resolve_path, Artichoke, ScopeKind, ScopeObj,
};
use crate::method;

verus! {

/// Immutable descriptor of a module defined (or to be defined) in the
/// interpreter.
pub struct Spec {
    /// Display name; not necessarily unique on its own.
    pub name: Vec<u8>,
    /// Interned symbol of `name`.
    pub sym: usize,
    /// The scope the module is nested under, when any.
    pub enclosing_scope: Option<Box<EnclosingRubyScope>>,
}

impl Spec {
    /// The module's own name.
    pub open spec fn spec_name(&self) -> Seq<u8> {
        self.name@
    }

    /// The chain of scope names from the root down to this module.
    pub open spec fn spec_path(&self) -> Seq<Seq<u8>>
        decreases self,
    {
        match self.enclosing_scope {
            Option::None => seq![self.name@],
            Option::Some(scope) => scope.spec_path().push(self.name@),
        }
    }

    /// The fully qualified name: scope names and the module name joined
    /// with `::`.
    pub open spec fn spec_fqname(&self) -> Seq<u8> {
        join_path(self.spec_path())
    }

    /// Every name along the chain is representable.
    pub open spec fn wf(&self) -> bool
        decreases self,
    {
        &&& name_has_no_nul(self.name@)
        &&& match self.enclosing_scope {
            Option::None => true,
            Option::Some(scope) => scope.wf(),
        }
    }

    /// Validate `name`, intern it, and record the descriptor.
    ///
    /// Fails exactly when `name` holds an embedded NUL byte and so
    /// cannot be represented in the interpreter's required encoding.
    pub fn new(interp: &mut Artichoke, name: Vec<u8>, enclosing_scope: Option<
        EnclosingRubyScope,
    >) -> (r: Result<Self, Exception>)
        requires
            old(interp).wf(),
        ensures
            final(interp).wf(),
            *final(interp) == (Artichoke { symbols: final(interp).symbols, ..*old(interp) }),
            name_has_no_nul(name@) ==> (r matches Ok(s) && {
                &&& s.spec_name() == name@
                &&& s.spec_path() == (match enclosing_scope {
                    Option::None => seq![name@],
                    Option::Some(scope) => scope.spec_path().push(name@),
                })
                &&& s.sym < final(interp).symbols@.len()
                &&& final(interp).symbols@[s.sym as int]@ == name@
                &&& (match enclosing_scope {
                    Option::None => true,
                    Option::Some(scope) => scope.wf(),
                }) ==> s.wf()
            }),
            !name_has_no_nul(name@) ==> {
                &&& r matches Err(e)
                &&& e matches Exception::ConstantName(c) && c.spec_name() == name@
                &&& final(interp).symbols == old(interp).symbols
            },
    {
        if check_name(&name) {
            let sym = interp.intern_string(bstr::clone_bytes(&name));
            Ok(
                Spec {
                    name,
                    sym,
                    enclosing_scope: match enclosing_scope {
                        Option::None => Option::None,
                        Option::Some(scope) => Option::Some(Box::new(scope)),
                    },
                },
            )
        } else {
            Err(Exception::ConstantName(ConstantNameError::new(name)))
        }
    }

    /// The module's own name.
    pub fn name(&self) -> (r: &Vec<u8>)
        ensures
            r@ == self.spec_name(),
    {
        &self.name
    }

    /// The module's own name as NUL-free bytes.
    pub fn name_c_str(&self) -> (r: &Vec<u8>)
        ensures
            r@ == self.spec_name(),
    {
        &self.name
    }

    /// The scope the module is nested under, when any.
    pub fn enclosing_scope(&self) -> (r: Option<&EnclosingRubyScope>)
        ensures
            match r {
                Option::None => self.enclosing_scope is None,
                Option::Some(scope) => self.enclosing_scope matches Some(s) && scope == s,
            },
    {
        match &self.enclosing_scope {
            Option::None => Option::None,
            Option::Some(scope) => Option::Some(&**scope),
        }
    }

    /// The chain of scope names, root first, ending with this module's
    /// name.
    pub fn path(&self) -> (r: Vec<Vec<u8>>)
        ensures
            r.deep_view() == self.spec_path(),
        decreases self,
    {
        match &self.enclosing_scope {
            Option::None => {
                let mut out: Vec<Vec<u8>> = Vec::new();
                out.push(bstr::clone_bytes(&self.name));
                proof {
                    assert(out.deep_view() =~~= self.spec_path());
                }
                out
            },
            Option::Some(scope) => {
                let mut out = scope.path();
                out.push(bstr::clone_bytes(&self.name));
                proof {
                    assert(out.deep_view() =~~= self.spec_path());
                }
                out
            },
        }
    }

    /// The fully qualified name.
    pub fn fqname(&self) -> (r: Vec<u8>)
        ensures
            r@ == self.spec_fqname(),
        decreases self,
    {
        match &self.enclosing_scope {
            Option::None => bstr::clone_bytes(&self.name),
            Option::Some(scope) => {
                let mut out = scope.fqname();
                bstr::append_str(&mut out, "::");
                bstr::append_bytes(&mut out, &self.name);
                proof {
                    lemma_scope_path_nonempty(scope);
                    lemma_join_path_push(scope.spec_path(), self.name@);
                }
                out
            },
        }
    }

    /// A resolver handle for this descriptor.
    pub fn rclass(&self) -> (r: Rclass)
        ensures
            r.spec_path() == self.spec_path(),
    {
        Rclass {
            sym: self.sym,
            name: bstr::clone_bytes(&self.name),
            enclosing_scope: match &self.enclosing_scope {
                Option::None => Option::None,
                Option::Some(scope) => Option::Some(Box::new(scope.duplicate())),
            },
        }
    }

    /// An independent copy describing the same module.
    pub fn duplicate(&self) -> (r: Self)
        ensures
            r.spec_name() == self.spec_name(),
            r.spec_path() == self.spec_path(),
            r.sym == self.sym,
            r.wf() == self.wf(),
        decreases self,
    {
        Spec {
            name: bstr::clone_bytes(&self.name),
            sym: self.sym,
            enclosing_scope: match &self.enclosing_scope {
                Option::None => Option::None,
                Option::Some(scope) => Option::Some(Box::new(scope.duplicate())),
            },
        }
    }
}

/// Two module descriptors are equal exactly when their fully qualified
/// names are equal, regardless of object identity or construction order.
impl PartialEq for Spec {
    fn eq(&self, other: &Self) -> (r: bool) {
        let a = self.fqname();
        let b = other.fqname();
        bstr::bytes_eq(&a, &b)
    }
}

impl vstd::std_specs::cmp::PartialEqSpecImpl for Spec {
    open spec fn obeys_eq_spec() -> bool {
        true
    }

    open spec fn eq_spec(&self, other: &Self) -> bool {
        self.spec_fqname() == other.spec_fqname()
    }
}

impl Eq for Spec {

}

/// Module descriptor equality is qualified-name equality: `s1 == s2`
/// holds exactly when the fully qualified names agree, however either
/// descriptor was constructed.
pub proof fn lemma_spec_eq_is_fqname_eq(s1: &Spec, s2: &Spec)
    ensures
        s1.eq_spec(s2) <==> s1.spec_fqname() == s2.spec_fqname(),
{
}

/// A module descriptor names at least itself.
pub proof fn lemma_spec_path_nonempty(spec: &Spec)
    ensures
        spec.spec_path().len() >= 1,
    decreases spec,
{
}

/// Resolver handle: the interned symbol, name and scope chain needed to
/// look a module up in the interpreter's object space.
pub struct Rclass {
    /// Interned symbol of the module's name.
    pub sym: usize,
    /// The module's own name.
    pub name: Vec<u8>,
    /// The scope the module is nested under, when any.
    pub enclosing_scope: Option<Box<EnclosingRubyScope>>,
}

impl Rclass {
    /// The chain of scope names this handle resolves through.
    pub open spec fn spec_path(&self) -> Seq<Seq<u8>> {
        match self.enclosing_scope {
            Option::None => seq![self.name@],
            Option::Some(scope) => scope.spec_path().push(self.name@),
        }
    }

    /// Record a resolver handle.
    pub fn new(sym: usize, name: Vec<u8>, enclosing_scope: Option<Box<EnclosingRubyScope>>) -> (r:
        Self)
        ensures
            r.sym == sym,
            r.name@ == name@,
            r.enclosing_scope == enclosing_scope,
    {
        Rclass { sym, name, enclosing_scope }
    }

    /// Resolve the described module against the current object space.
    ///
    /// Pure lookup: absence is a normal outcome (`None`), never an
    /// error, and no interpreter state is created. If the enclosing
    /// scope does not resolve, the result is `None` without the module
    /// itself ever being looked up.
    pub fn resolve(&self, interp: &Artichoke) -> (r: Option<usize>)
        ensures
            r == resolve_path(interp.scopes@, self.spec_path()),
            r matches Some(i) ==> i < interp.scopes@.len(),
    {
        match &self.enclosing_scope {
            Option::None => {
                let r = interp.lookup_scope(Option::None, &self.name);
                proof {
                    assert(self.spec_path() =~= seq![self.name@]);
                }
                r
            },
            Option::Some(scope) => {
                let resolved = interp.resolve_scope(scope);
                proof {
                    lemma_scope_path_nonempty(scope);
                    assert(self.spec_path().drop_last() =~= scope.spec_path());
                    assert(self.spec_path().last() == self.name@);
                }
                match resolved {
                    Option::None => Option::None,
                    Option::Some(p) => interp.lookup_scope(Option::Some(p), &self.name),
                }
            },
        }
    }
}

/// Staged construction of a one-time module definition: a spec plus a
/// set of method bindings.
pub struct Builder<'a> {
    /// The module being defined.
    pub spec: &'a Spec,
    /// Accumulated method bindings; a later binding for the same
    /// (kind, name) slot replaces an earlier one at definition time.
    pub methods: Vec<method::Spec>,
}

impl<'a> Builder<'a> {
    /// Every accumulated method name is representable.
    pub open spec fn wf(&self) -> bool {
        forall|i: int|
            0 <= i < self.methods@.len() ==> name_has_no_nul((#[trigger] self.methods@[i]).name@)
    }

    /// Start a definition for `spec` with no methods.
    pub fn for_spec(spec: &'a Spec) -> (r: Self)
        ensures
            r.spec == spec,
            r.methods@.len() == 0,
            r.wf(),
    {
        Builder { spec, methods: Vec::new() }
    }

    /// Accumulate an instance method binding.
    ///
    /// Fails exactly when `name` holds an embedded NUL byte.
    pub fn add_method(self, name: Vec<u8>, method: Method, args: method::Arity) -> (r: Result<
        Self,
        ConstantNameError,
    >)
        requires
            self.wf(),
        ensures
            name_has_no_nul(name@) ==> (r matches Ok(b) && b.wf() && b.spec == self.spec
                && b.methods@.len() == self.methods@.len() + 1 && b.methods@.drop_last()
                == self.methods@ && b.methods@.last().kind == method::Type::Instance
                && b.methods@.last().name@ == name@ && b.methods@.last().method == method
                && b.methods@.last().args == args),
            !name_has_no_nul(name@) ==> (r matches Err(e) && e.spec_name() == name@),
    {
        let mut this = self;
        match method::Spec::new(method::Type::Instance, name, method, args) {
            Ok(spec) => {
                this.methods.push(spec);
                proof {
                    assert(this.methods@.drop_last() =~= self.methods@);
                }
                Ok(this)
            },
            Err(e) => Err(e),
        }
    }

    /// Accumulate a binding on the module object itself.
    ///
    /// Fails exactly when `name` holds an embedded NUL byte.
    pub fn add_self_method(self, name: Vec<u8>, method: Method, args: method::Arity) -> (r: Result<
        Self,
        ConstantNameError,
    >)
        requires
            self.wf(),
        ensures
            name_has_no_nul(name@) ==> (r matches Ok(b) && b.wf() && b.spec == self.spec
                && b.methods@.len() == self.methods@.len() + 1 && b.methods@.drop_last()
                == self.methods@ && b.methods@.last().kind == method::Type::Class
                && b.methods@.last().name@ == name@ && b.methods@.last().method == method
                && b.methods@.last().args == args),
            !name_has_no_nul(name@) ==> (r matches Err(e) && e.spec_name() == name@),
    {
        let mut this = self;
        match method::Spec::new(method::Type::Class, name, method, args) {
            Ok(spec) => {
                this.methods.push(spec);
                proof {
                    assert(this.methods@.drop_last() =~= self.methods@);
                }
                Ok(this)
            },
            Err(e) => Err(e),
        }
    }

    /// Accumulate a module-function binding.
    ///
    /// Fails exactly when `name` holds an embedded NUL byte.
    pub fn add_module_method(self, name: Vec<u8>, method: Method, args: method::Arity) -> (r:
        Result<Self, ConstantNameError>)
        requires
            self.wf(),
        ensures
            name_has_no_nul(name@) ==> (r matches Ok(b) && b.wf() && b.spec == self.spec
                && b.methods@.len() == self.methods@.len() + 1 && b.methods@.drop_last()
                == self.methods@ && b.methods@.last().kind == method::Type::Module
                && b.methods@.last().name@ == name@ && b.methods@.last().method == method
                && b.methods@.last().args == args),
            !name_has_no_nul(name@) ==> (r matches Err(e) && e.spec_name() == name@),
    {
        let mut this = self;
        match method::Spec::new(method::Type::Module, name, method, args) {
            Ok(spec) => {
                this.methods.push(spec);
                proof {
                    assert(this.methods@.drop_last() =~= self.methods@);
                }
                Ok(this)
            },
            Err(e) => Err(e),
        }
    }

    /// Perform the one-time definition against the interpreter.
    ///
    /// If the described module already resolves, it is reused: no new
    /// object-space entry is created, though the accumulated methods
    /// are still bound onto it — defining the same module twice never
    /// errors. Otherwise the module is created under its resolved
    /// enclosing scope, failing with an enclosing-scope
    /// [`NotDefinedError`] when that scope does not resolve.
    pub fn define(self, interp: &mut Artichoke) -> (r: Result<(), NotDefinedError>)
        requires
            old(interp).wf(),
            self.spec.wf(),
            self.wf(),
        ensures
            final(interp).wf(),
            ({
                let pre = old(interp).scopes@;
                let path = self.spec.spec_path();
                match resolve_path(pre, path) {
                    Option::Some(sid) => {
                        &&& r is Ok
                        &&& *final(interp) == (Artichoke {
                            scopes: final(interp).scopes,
                            ..*old(interp)
                        })
                        &&& final(interp).scopes@.len() == pre.len()
                        &&& forall|i: int|
                            0 <= i < pre.len() && i != sid ==> final(interp).scopes@[i] == pre[i]
                        &&& final(interp).scopes@[sid as int] == (ScopeObj {
                            methods: final(interp).scopes@[sid as int].methods,
                            ..pre[sid as int]
                        })
                        &&& crate::class::methods_all_bound(
                            self.methods@,
                            final(interp).scopes@[sid as int].methods@,
                        )
                    },
                    Option::None => {
                        if path.len() >= 2 && resolve_path(pre, path.drop_last()) is None {
                            &&& (r matches Err(e) && e matches NotDefinedError::EnclosingScope {
                                fqname,
                            } && fqname@ == crate::def::join_path(path.drop_last()))
                            &&& *final(interp) == *old(interp)
                        } else {
                            let parent = if path.len() >= 2 {
                                resolve_path(pre, path.drop_last())
                            } else {
                                Option::<usize>::None
                            };
                            &&& r is Ok
                            &&& *final(interp) == (Artichoke {
                                scopes: final(interp).scopes,
                                ..*old(interp)
                            })
                            &&& final(interp).scopes@.len() == pre.len() + 1
                            &&& forall|i: int|
                                0 <= i < pre.len() ==> final(interp).scopes@[i] == pre[i]
                            &&& final(interp).scopes@.last().kind == ScopeKind::Module
                            &&& final(interp).scopes@.last().name@ == self.spec.spec_name()
                            &&& final(interp).scopes@.last().parent == parent
                            &&& final(interp).scopes@.last().superclass is None
                            &&& final(interp).scopes@.last().holds_data == false
                            &&& crate::class::methods_all_bound(
                                self.methods@,
                                final(interp).scopes@.last().methods@,
                            )
                        }
                    },
                }
            }),
    {
        let rclass = self.spec.rclass();
        let resolved = rclass.resolve(interp);
        let ghost pre = interp.scopes@;
        let ghost path = self.spec.spec_path();
        let sid = match resolved {
            Option::Some(sid) => sid,
            Option::None => match self.spec.enclosing_scope() {
                Option::Some(scope) => {
                    proof {
                        lemma_scope_path_nonempty(scope);
                        assert(path.drop_last() =~= scope.spec_path());
                    }
                    match interp.resolve_scope(scope) {
                        Option::Some(p) => interp.create_scope(
                            ScopeKind::Module,
                            bstr::clone_bytes(&self.spec.name),
                            Option::Some(p),
                            Option::None,
                            false,
                        ),
                        Option::None => {
                            return Err(NotDefinedError::enclosing_scope(scope.fqname()));
                        },
                    }
                },
                Option::None => {
                    proof {
                        assert(path =~= seq![self.spec.spec_name()]);
                    }
                    interp.create_scope(
                        ScopeKind::Module,
                        bstr::clone_bytes(&self.spec.name),
                        Option::None,
                        Option::None,
                        false,
                    )
                },
            },
        };
        let ghost mid = *interp;
        let n = self.methods.len();
        let mut t: usize = 0;
        while t < n
            invariant
                t <= n,
                n == self.methods@.len(),
                self.wf(),
                interp.wf(),
                sid < interp.scopes@.len(),
                sid < mid.scopes@.len(),
                *interp == (Artichoke { scopes: interp.scopes, ..mid }),
                interp.scopes@.len() == mid.scopes@.len(),
                forall|i: int|
                    0 <= i < mid.scopes@.len() && i != sid ==> interp.scopes@[i] == mid.scopes@[i],
                interp.scopes@[sid as int] == (ScopeObj {
                    methods: interp.scopes@[sid as int].methods,
                    ..mid.scopes@[sid as int]
                }),
                forall|i: int|
                    0 <= i < t && (forall|k: int|
                        i < k < t ==> !crate::class::same_slot(
                            #[trigger] self.methods@[k],
                            self.methods@[i],
                        )) ==> (match find_method(
                        interp.scopes@[sid as int].methods@,
                        (#[trigger] self.methods@[i]).kind,
                        self.methods@[i].name@,
                    ) {
                        Option::Some(j) => binding_is(
                            interp.scopes@[sid as int].methods@[j],
                            self.methods@[i].kind,
                            self.methods@[i].name@,
                            self.methods@[i].method,
                            self.methods@[i].args,
                        ),
                        Option::None => false,
                    }),
            decreases n - t,
        {
            let ghost table_before = interp.scopes@[sid as int].methods@;
            let m = &self.methods[t];
            interp.bind_method(sid, m.kind, bstr::clone_bytes(&m.name), m.method, m.args);
            proof {
                let table_after = interp.scopes@[sid as int].methods@;
                let mt = self.methods@[t as int];
                lemma_methods_bound_found(
                    table_before,
                    table_after,
                    mt.kind,
                    mt.name@,
                    mt.method,
                    mt.args,
                );
                assert forall|i: int|
                    0 <= i < t + 1 && (forall|k: int|
                        i < k < t + 1 ==> !crate::class::same_slot(
                            #[trigger] self.methods@[k],
                            self.methods@[i],
                        )) implies (match find_method(
                    table_after,
                    (#[trigger] self.methods@[i]).kind,
                    self.methods@[i].name@,
                ) {
                    Option::Some(j) => binding_is(
                        table_after[j],
                        self.methods@[i].kind,
                        self.methods@[i].name@,
                        self.methods@[i].method,
                        self.methods@[i].args,
                    ),
                    Option::None => false,
                }) by {
                    if i < t {
                        assert(!crate::class::same_slot(
                            self.methods@[t as int],
                            self.methods@[i],
                        ));
                        lemma_methods_bound_preserves(
                            table_before,
                            table_after,
                            mt.kind,
                            mt.name@,
                            mt.method,
                            mt.args,
                            self.methods@[i].kind,
                            self.methods@[i].name@,
                        );
                    }
                }
            }
            t = t + 1;
        }
        Ok(())
    }
}

} // verus!
