//! Method descriptors: the visibility kind, name, native entry point and
//! arity of a single method binding, validated before any definition is
//! attempted against the interpreter.

use vstd::prelude::*;

use crate::def::{check_name, name_has_no_nul, ConstantNameError, Method};

verus! {

/// Where a method is bound: on instances, on the class object itself, or
/// as a module function.
#[derive(Clone, Copy, PartialEq, Eq, Structural)]
pub enum Type {
    Instance,
    Class,
    Module,
}

/// Declared argument shape of a native method.
#[derive(Clone, Copy, PartialEq, Eq, Structural)]
pub struct Arity {
    /// Number of required arguments.
    pub required: u32,
    /// Number of optional arguments.
    pub optional: u32,
}

/// Arity of a method taking `n` required arguments.
pub fn args_req(n: u32) -> (r: Arity)
    ensures
        r == (Arity { required: n, optional: 0 }),
{
    Arity { required: n, optional: 0 }
}

/// Arity of a method taking `n` optional arguments.
pub fn args_opt(n: u32) -> (r: Arity)
    ensures
        r == (Arity { required: 0, optional: n }),
{
    Arity { required: 0, optional: n }
}

/// Arity of a method taking `req` required and `opt` optional arguments.
pub fn args_req_and_opt(req: u32, opt: u32) -> (r: Arity)
    ensures
        r == (Arity { required: req, optional: opt }),
{
    Arity { required: req, optional: opt }
}

/// Arity of a method taking no arguments.
pub fn args_none() -> (r: Arity)
    ensures
        r == (Arity { required: 0, optional: 0 }),
{
    Arity { required: 0, optional: 0 }
}

/// A validated method binding: kind, name, native entry point and arity.
///
/// Two method specs describe the same binding slot exactly when their
/// kind and name agree; a builder keeps at most one binding per slot.
pub struct Spec {
    /// Visibility kind of the binding.
    pub kind: Type,
    /// Method name; never holds an embedded NUL byte.
    pub name: Vec<u8>,
    /// Native entry point invoked when the method is called.
    pub method: Method,
    /// Declared argument shape.
    pub args: Arity,
}

impl Spec {
    /// Validate `name` and record the binding.
    ///
    /// Fails exactly when `name` cannot be represented in the
    /// interpreter's required encoding (it holds an embedded NUL byte).
    pub fn new(kind: Type, name: Vec<u8>, method: Method, args: Arity) -> (r: Result<
        Self,
        ConstantNameError,
    >)
        ensures
            name_has_no_nul(name@) ==> (r matches Ok(s) && s == (Spec { kind, name, method, args })),
            !name_has_no_nul(name@) ==> (r matches Err(e) && e.spec_name() == name@),
    {
        if check_name(&name) {
            Ok(Spec { kind, name, method, args })
        } else {
            Err(ConstantNameError::new(name))
        }
    }
}

} // verus!
