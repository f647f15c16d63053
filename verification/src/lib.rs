//! An embeddable Ruby-style virtual machine modelled as verified state.
//!
//! The crate centres on a class/module registration and foreign-object
//! binding layer: class and module descriptors ([`class::Spec`],
//! [`module::Spec`]), a resolver that walks enclosing scopes, staged
//! builders that perform one-time definitions against the interpreter's
//! object space, a registry keyed by host type identity, and a box/unbox
//! protocol that attaches host-owned data to interpreter-managed
//! instances and reclaims it exactly once on collection.

pub mod bstr;
pub mod boxing;
pub mod class;
pub mod class_registry;
pub mod container;
pub mod convert;
pub mod def;
pub mod exception;
pub mod interp;
pub mod kernel;
pub mod matchdata;
pub mod method;
pub mod module;
pub mod module_registry;
pub mod prng;
pub mod securerandom;
pub mod types;
pub mod value;
pub mod warn;

pub use interp::interpreter;
pub use interp::Artichoke;
pub use value::MRB_FUNCALL_ARGC_MAX;
