//! Shared definition machinery: constant-name validation, the errors
//! raised while defining interpreter-side types, and the enclosing-scope
//! chain that gives class and module descriptors their qualified names.

use vstd::prelude::*;
use vstd::string::StringSliceAdditionalSpecFns;

use crate::bstr;

verus! {

/// A constant name is representable in the interpreter only when it has
/// no embedded NUL byte.
pub open spec fn name_has_no_nul(s: Seq<u8>) -> bool {
    forall|i: int| 0 <= i < s.len() ==> s[i] != 0u8
}

/// Scan a proposed constant or method name for embedded NUL bytes.
pub fn check_name(name: &Vec<u8>) -> (ok: bool)
    ensures
        ok == name_has_no_nul(name@),
{
    let mut i: usize = 0;
    while i < name.len()
        invariant
            i <= name.len(),
            forall|j: int| 0 <= j < i ==> name@[j] != 0u8,
        decreases name.len() - i,
    {
        if name[i] == 0 {
            return false;
        }
        i = i + 1;
    }
    true
}

/// A proposed name cannot be represented in the interpreter's required
/// encoding (it holds an embedded NUL byte).
#[derive(Debug)]
pub struct ConstantNameError {
    name: Vec<u8>,
}

impl ConstantNameError {
    /// Record the rejected name.
    pub fn new(name: Vec<u8>) -> (r: Self)
        ensures
            r.spec_name() == name@,
    {
        ConstantNameError { name }
    }

    /// The rejected name as given.
    pub closed spec fn spec_name(&self) -> Seq<u8> {
        self.name@
    }

    /// The rejected name as given.
    pub fn name(&self) -> (r: &Vec<u8>)
        ensures
            r@ == self.spec_name(),
    {
        &self.name
    }

    /// Human-readable description of the failure.
    pub fn message(&self) -> (r: Vec<u8>)
        ensures
            r@ == "invalid constant name".spec_bytes(),
    {
        bstr::bytes_of("invalid constant name")
    }
}

/// A named interpreter-side entity was expected to exist or be definable
/// but is not.
#[derive(Debug)]
pub enum NotDefinedError {
    /// The enclosing scope of a nested definition does not resolve.
    EnclosingScope { fqname: Vec<u8> },
    /// A class was expected to exist or be definable.
    Class { name: Vec<u8> },
    /// A module was expected to exist or be definable.
    Module { name: Vec<u8> },
    /// The requested superclass was never registered or does not resolve.
    SuperClass { name: Vec<u8> },
}

impl NotDefinedError {
    /// A nested definition failed because its enclosing scope is missing.
    pub fn enclosing_scope(fqname: Vec<u8>) -> (r: Self)
        ensures
            r == (NotDefinedError::EnclosingScope { fqname }),
    {
        NotDefinedError::EnclosingScope { fqname }
    }

    /// A class definition or lookup failed.
    pub fn class(name: Vec<u8>) -> (r: Self)
        ensures
            r == (NotDefinedError::Class { name }),
    {
        NotDefinedError::Class { name }
    }

    /// A module definition or lookup failed.
    pub fn module(name: Vec<u8>) -> (r: Self)
        ensures
            r == (NotDefinedError::Module { name }),
    {
        NotDefinedError::Module { name }
    }

    /// A superclass lookup failed.
    pub fn super_class(name: Vec<u8>) -> (r: Self)
        ensures
            r == (NotDefinedError::SuperClass { name }),
    {
        NotDefinedError::SuperClass { name }
    }

    /// The name of the entity that was not defined.
    pub fn item_name(&self) -> (r: &Vec<u8>)
        ensures
            r@ == self.spec_item_name(),
    {
        match self {
            NotDefinedError::EnclosingScope { fqname } => fqname,
            NotDefinedError::Class { name } => name,
            NotDefinedError::Module { name } => name,
            NotDefinedError::SuperClass { name } => name,
        }
    }

    /// The name of the entity that was not defined.
    pub open spec fn spec_item_name(&self) -> Seq<u8> {
        match self {
            NotDefinedError::EnclosingScope { fqname } => fqname@,
            NotDefinedError::Class { name } => name@,
            NotDefinedError::Module { name } => name@,
            NotDefinedError::SuperClass { name } => name@,
        }
    }

    /// Human-readable description of the failure.
    pub fn message(&self) -> (r: Vec<u8>)
        ensures
            r@ == self.spec_message(),
    {
        let mut out = match self {
            NotDefinedError::EnclosingScope { .. } => {
                bstr::bytes_of("enclosing scope is not defined: ")
            },
            NotDefinedError::Class { .. } => bstr::bytes_of("class is not defined: "),
            NotDefinedError::Module { .. } => bstr::bytes_of("module is not defined: "),
            NotDefinedError::SuperClass { .. } => bstr::bytes_of("super class is not defined: "),
        };
        bstr::append_bytes(&mut out, self.item_name());
        out
    }

    /// The message paired with each variant.
    pub open spec fn spec_message(&self) -> Seq<u8> {
        match self {
            NotDefinedError::EnclosingScope { fqname } => {
                "enclosing scope is not defined: ".spec_bytes() + fqname@
            },
            NotDefinedError::Class { name } => "class is not defined: ".spec_bytes() + name@,
            NotDefinedError::Module { name } => "module is not defined: ".spec_bytes() + name@,
            NotDefinedError::SuperClass { name } => {
                "super class is not defined: ".spec_bytes() + name@
            },
        }
    }
}

/// The qualified name spelled by a chain of scope names, joined with
/// `::`.
pub open spec fn join_path(path: Seq<Seq<u8>>) -> Seq<u8>
    decreases path.len(),
{
    if path.len() == 0 {
        Seq::empty()
    } else if path.len() == 1 {
        path[0]
    } else {
        join_path(path.drop_last()) + "::".spec_bytes() + path.last()
    }
}

/// Extending a non-empty chain by one name appends `::` and the name.
pub proof fn lemma_join_path_push(path: Seq<Seq<u8>>, name: Seq<u8>)
    requires
        path.len() >= 1,
    ensures
        join_path(path.push(name)) == join_path(path) + "::".spec_bytes() + name,
{
    assert(path.push(name).drop_last() =~= path);
    assert(path.push(name).last() == name);
    assert(path.push(name).len() >= 2);
}

/// The scope a nested class or module definition hangs under: either an
/// already-described class or an already-described module.
#[allow(inconsistent_fields)]
pub enum EnclosingRubyScope {
    /// Nested under a class.
    Class { spec: Box<crate::class::Spec> },
    /// Nested under a module.
    Module { spec: Box<crate::module::Spec> },
}

impl EnclosingRubyScope {
    /// The chain of scope names from the root down to this scope.
    pub open spec fn spec_path(&self) -> Seq<Seq<u8>>
        decreases self,
    {
        match self {
            EnclosingRubyScope::Class { spec } => spec.spec_path(),
            EnclosingRubyScope::Module { spec } => spec.spec_path(),
        }
    }

    /// The qualified name of this scope.
    pub open spec fn spec_fqname(&self) -> Seq<u8> {
        join_path(self.spec_path())
    }

    /// Every name along the chain is representable.
    pub open spec fn wf(&self) -> bool
        decreases self,
    {
        match self {
            EnclosingRubyScope::Class { spec } => spec.wf(),
            EnclosingRubyScope::Module { spec } => spec.wf(),
        }
    }

    /// A scope nested under the class described by `spec`.
    pub fn class(spec: &crate::class::Spec) -> (r: Self)
        ensures
            r.spec_path() == spec.spec_path(),
            r.wf() == spec.wf(),
    {
        EnclosingRubyScope::Class { spec: Box::new(spec.duplicate()) }
    }

    /// A scope nested under the module described by `spec`.
    pub fn module(spec: &crate::module::Spec) -> (r: Self)
        ensures
            r.spec_path() == spec.spec_path(),
            r.wf() == spec.wf(),
    {
        EnclosingRubyScope::Module { spec: Box::new(spec.duplicate()) }
    }

    /// An independent copy describing the same scope.
    pub fn duplicate(&self) -> (r: Self)
        ensures
            r.spec_path() == self.spec_path(),
            r.wf() == self.wf(),
        decreases self,
    {
        match self {
            EnclosingRubyScope::Class { spec } => {
                EnclosingRubyScope::Class { spec: Box::new(spec.duplicate()) }
            },
            EnclosingRubyScope::Module { spec } => {
                EnclosingRubyScope::Module { spec: Box::new(spec.duplicate()) }
            },
        }
    }

    /// The chain of scope names, root first, as owned bytes.
    ///
    /// The chain is never empty.
    pub fn path(&self) -> (r: Vec<Vec<u8>>)
        ensures
            r.deep_view() == self.spec_path(),
        decreases self,
    {
        match self {
            EnclosingRubyScope::Class { spec } => spec.path(),
            EnclosingRubyScope::Module { spec } => spec.path(),
        }
    }

    /// The qualified name of this scope.
    pub fn fqname(&self) -> (r: Vec<u8>)
        ensures
            r@ == self.spec_fqname(),
        decreases self,
    {
        match self {
            EnclosingRubyScope::Class { spec } => spec.fqname(),
            EnclosingRubyScope::Module { spec } => spec.fqname(),
        }
    }
}

/// A scope chain names at least one scope.
pub proof fn lemma_scope_path_nonempty(scope: &EnclosingRubyScope)
    ensures
        scope.spec_path().len() >= 1,
    decreases scope,
{
    match scope {
        EnclosingRubyScope::Class { spec } => crate::class::lemma_spec_path_nonempty(spec),
        EnclosingRubyScope::Module { spec } => crate::module::lemma_spec_path_nonempty(spec),
    }
}

/// A native method entry point.
///
/// Each variant names one of the crate's verified native method
/// implementations; a method binding records which entry point the
/// interpreter should run when the method is called.
#[derive(Clone, Copy, PartialEq, Eq, Structural)]
pub enum Method {
    MatchDataBegin,
    MatchDataCaptures,
    MatchDataElementReference,
    MatchDataEnd,
    MatchDataLength,
    MatchDataNamedCaptures,
    MatchDataNames,
    MatchDataOffset,
    MatchDataPostMatch,
    MatchDataPreMatch,
    MatchDataRegexp,
    MatchDataString,
    MatchDataToA,
    MatchDataToS,
    SecureRandomAlphanumeric,
    SecureRandomBase64,
    SecureRandomHex,
    SecureRandomRandomBytes,
    SecureRandomRandomNumber,
    SecureRandomUuid,
    ContainerInitialize,
}

/// Marker for the single collector-invoked release point of a boxed
/// foreign value: dropping the payload held in the instance's data slot.
#[derive(Clone, Copy, PartialEq, Eq, Structural)]
pub enum Free {
    /// Release by reconstructing ownership of the boxed payload and
    /// dropping it, exactly once, when the owning instance is collected.
    BoxUnbox,
}

/// The canonical free routine for classes whose instances box host data.
pub fn box_unbox_free() -> (r: Free)
    ensures
        r == Free::BoxUnbox,
{
    Free::BoxUnbox
}

} // verus!
