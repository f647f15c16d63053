//! Type tags for interpreter values.

use vstd::prelude::*;
use vstd::string::StringSliceAdditionalSpecFns;

use crate::bstr;

verus! {

/// The interpreter-side type of a [`crate::value::Value`].
///
/// `Unreachable` marks interpreter-internal variants that must never be
/// handled as ordinary data; surfacing one to the host is a fatal error.
#[derive(Clone, Copy, PartialEq, Eq, Structural)]
pub enum Ruby {
    Array,
    Bool,
    Class,
    Data,
    Fixnum,
    Hash,
    Module,
    Nil,
    Object,
    Range,
    String,
    Symbol,
    Unreachable,
}

impl Ruby {
    /// The class name displayed for values of this type.
    pub open spec fn spec_class_name(&self) -> Seq<u8> {
        match self {
            Ruby::Array => "Array".spec_bytes(),
            Ruby::Bool => "Boolean".spec_bytes(),
            Ruby::Class => "Class".spec_bytes(),
            Ruby::Data => "Data".spec_bytes(),
            Ruby::Fixnum => "Integer".spec_bytes(),
            Ruby::Hash => "Hash".spec_bytes(),
            Ruby::Module => "Module".spec_bytes(),
            Ruby::Nil => "NilClass".spec_bytes(),
            Ruby::Object => "Object".spec_bytes(),
            Ruby::Range => "Range".spec_bytes(),
            Ruby::String => "String".spec_bytes(),
            Ruby::Symbol => "Symbol".spec_bytes(),
            Ruby::Unreachable => "Unreachable".spec_bytes(),
        }
    }

    /// The class name displayed for values of this type.
    pub fn class_name(&self) -> (r: Vec<u8>)
        ensures
            r@ == self.spec_class_name(),
    {
        match self {
            Ruby::Array => bstr::bytes_of("Array"),
            Ruby::Bool => bstr::bytes_of("Boolean"),
            Ruby::Class => bstr::bytes_of("Class"),
            Ruby::Data => bstr::bytes_of("Data"),
            Ruby::Fixnum => bstr::bytes_of("Integer"),
            Ruby::Hash => bstr::bytes_of("Hash"),
            Ruby::Module => bstr::bytes_of("Module"),
            Ruby::Nil => bstr::bytes_of("NilClass"),
            Ruby::Object => bstr::bytes_of("Object"),
            Ruby::Range => bstr::bytes_of("Range"),
            Ruby::String => bstr::bytes_of("String"),
            Ruby::Symbol => bstr::bytes_of("Symbol"),
            Ruby::Unreachable => bstr::bytes_of("Unreachable"),
        }
    }
}

} // verus!
