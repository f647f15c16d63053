//! The host-side error taxonomy.
//!
//! Every failure that crosses the call boundary is carried as a typed
//! error: construction-time errors (bad names, missing definitions),
//! call-time errors (argument count, missing methods, bad conversions),
//! foreign-data errors (unbox mismatches) and the fatal case of an
//! interpreter-internal value escaping to the host.

use vstd::prelude::*;
use vstd::string::StringSliceAdditionalSpecFns;

use crate::bstr;
use crate::def::{ConstantNameError, NotDefinedError};
use crate::value::ArgCountError;

verus! {

/// A value could not be implicitly converted to the expected type.
#[derive(Debug)]
pub struct TypeError {
    /// Human-readable description of the failed conversion.
    pub message: Vec<u8>,
}

impl TypeError {
    /// Record a conversion failure.
    pub fn from_message(message: Vec<u8>) -> (r: Self)
        ensures
            r.message@ == message@,
    {
        TypeError { message }
    }

    /// The recorded description.
    pub fn message(&self) -> (r: &Vec<u8>)
        ensures
            r@ == self.message@,
    {
        &self.message
    }
}

/// A method was called that the receiver does not respond to.
#[derive(Debug)]
pub struct NoMethodError {
    /// Name of the missing method.
    pub method: Vec<u8>,
}

impl NoMethodError {
    /// Record the missing method's name.
    pub fn new(method: Vec<u8>) -> (r: Self)
        ensures
            r.method@ == method@,
    {
        NoMethodError { method }
    }

    /// `undefined method '<name>'`.
    pub fn message(&self) -> (r: Vec<u8>)
        ensures
            r@ == "undefined method '".spec_bytes() + self.method@ + "'".spec_bytes(),
    {
        let mut out = bstr::bytes_of("undefined method '");
        bstr::append_bytes(&mut out, &self.method);
        bstr::append_str(&mut out, "'");
        out
    }
}

/// An interpreter-internal value variant escaped to the host; the
/// current operation is unrecoverable.
#[derive(Debug)]
pub struct FatalError {
    /// Human-readable description.
    pub message: Vec<u8>,
}

impl FatalError {
    /// Record a fatal condition.
    pub fn from_message(message: Vec<u8>) -> (r: Self)
        ensures
            r.message@ == message@,
    {
        FatalError { message }
    }
}

/// A required feature could not be found.
#[derive(Debug)]
pub struct LoadError {
    /// The path that could not be loaded.
    pub path: Vec<u8>,
}

impl LoadError {
    /// Record the path that could not be loaded.
    pub fn new(path: Vec<u8>) -> (r: Self)
        ensures
            r.path@ == path@,
    {
        LoadError { path }
    }

    /// `cannot load such file -- <path>`.
    pub fn message(&self) -> (r: Vec<u8>)
        ensures
            r@ == "cannot load such file -- ".spec_bytes() + self.path@,
    {
        let mut out = bstr::bytes_of("cannot load such file -- ");
        bstr::append_bytes(&mut out, &self.path);
        out
    }
}

/// An operation is not provided by this interpreter.
#[derive(Debug)]
pub struct NotImplementedError {
    /// Human-readable description.
    pub message: Vec<u8>,
}

impl NotImplementedError {
    /// Record the unsupported operation.
    pub fn from_message(message: Vec<u8>) -> (r: Self)
        ensures
            r.message@ == message@,
    {
        NotImplementedError { message }
    }
}

/// An argument's value is unacceptable, though its type is right.
#[derive(Debug)]
pub struct BadArgumentError {
    /// Human-readable description.
    pub message: Vec<u8>,
}

impl BadArgumentError {
    /// Record the unacceptable argument.
    pub fn from_message(message: Vec<u8>) -> (r: Self)
        ensures
            r.message@ == message@,
    {
        BadArgumentError { message }
    }
}

/// An index selects nothing.
#[derive(Debug)]
pub struct IndexError {
    /// Human-readable description.
    pub message: Vec<u8>,
}

impl IndexError {
    /// Record the out-of-range access.
    pub fn from_message(message: Vec<u8>) -> (r: Self)
        ensures
            r.message@ == message@,
    {
        IndexError { message }
    }
}

/// A foreign-data slot was accessed wrongly.
#[derive(Debug)]
pub enum UnboxError {
    /// The slot is boxed, but under a different host type than asked
    /// for; the payload is never handed out across types.
    WrongType { expected: u64, actual: u64 },
    /// The instance already boxes a payload; attaching another would
    /// bypass the collector's single release point.
    AlreadyBoxed,
    /// The instance was allocated but nothing was ever boxed into it.
    NotBoxed,
    /// The instance's payload was already reclaimed by the collector.
    Collected,
    /// The value is not a data-backed instance at all.
    NotAnInstance,
}

/// Any failure surfaced to the host by the interpreter.
#[derive(Debug)]
pub enum Exception {
    /// Too many arguments for a call.
    ArgCount(ArgCountError),
    /// An argument's value is unacceptable.
    BadArgument(BadArgumentError),
    /// An index selects nothing.
    Index(IndexError),
    /// A name cannot be represented in the required encoding.
    ConstantName(ConstantNameError),
    /// A named entity was expected to exist or be definable but is not.
    NotDefined(NotDefinedError),
    /// An implicit conversion failed.
    TypeErr(TypeError),
    /// The receiver does not respond to the called method.
    NoMethod(NoMethodError),
    /// An interpreter-internal value escaped to the host.
    Fatal(FatalError),
    /// A foreign-data slot was accessed wrongly.
    Unbox(UnboxError),
    /// A required feature could not be found.
    Load(LoadError),
    /// An operation is not provided by this interpreter.
    NotImplemented(NotImplementedError),
}

impl Exception {
    /// The name of the Ruby-side exception class this failure maps to.
    pub open spec fn spec_name(&self) -> Seq<u8> {
        match self {
            Exception::ArgCount(_) => "ArgumentError".spec_bytes(),
            Exception::BadArgument(_) => "ArgumentError".spec_bytes(),
            Exception::Index(_) => "IndexError".spec_bytes(),
            Exception::ConstantName(_) => "NameError".spec_bytes(),
            Exception::NotDefined(_) => "NameError".spec_bytes(),
            Exception::TypeErr(_) => "TypeError".spec_bytes(),
            Exception::NoMethod(_) => "NoMethodError".spec_bytes(),
            Exception::Fatal(_) => "fatal".spec_bytes(),
            Exception::Unbox(_) => "TypeError".spec_bytes(),
            Exception::Load(_) => "LoadError".spec_bytes(),
            Exception::NotImplemented(_) => "NotImplementedError".spec_bytes(),
        }
    }

    /// The name of the Ruby-side exception class this failure maps to.
    pub fn name(&self) -> (r: Vec<u8>)
        ensures
            r@ == self.spec_name(),
    {
        match self {
            Exception::ArgCount(_) => bstr::bytes_of("ArgumentError"),
            Exception::BadArgument(_) => bstr::bytes_of("ArgumentError"),
            Exception::Index(_) => bstr::bytes_of("IndexError"),
            Exception::ConstantName(_) => bstr::bytes_of("NameError"),
            Exception::NotDefined(_) => bstr::bytes_of("NameError"),
            Exception::TypeErr(_) => bstr::bytes_of("TypeError"),
            Exception::NoMethod(_) => bstr::bytes_of("NoMethodError"),
            Exception::Fatal(_) => bstr::bytes_of("fatal"),
            Exception::Unbox(_) => bstr::bytes_of("TypeError"),
            Exception::Load(_) => bstr::bytes_of("LoadError"),
            Exception::NotImplemented(_) => bstr::bytes_of("NotImplementedError"),
        }
    }

    /// The description rendered for each failure.
    pub open spec fn spec_message(&self) -> Seq<u8> {
        match self {
            Exception::ArgCount(e) => e.spec_message(),
            Exception::BadArgument(e) => e.message@,
            Exception::Index(e) => e.message@,
            Exception::ConstantName(_) => "invalid constant name".spec_bytes(),
            Exception::NotDefined(e) => e.spec_message(),
            Exception::TypeErr(e) => e.message@,
            Exception::NoMethod(e) => "undefined method '".spec_bytes() + e.method@
                + "'".spec_bytes(),
            Exception::Fatal(e) => e.message@,
            Exception::Unbox(e) => match e {
                UnboxError::WrongType { .. } => "boxed data is of another host type".spec_bytes(),
                UnboxError::AlreadyBoxed => "instance already holds boxed data".spec_bytes(),
                UnboxError::NotBoxed => "instance holds no boxed data".spec_bytes(),
                UnboxError::Collected => "boxed data was already collected".spec_bytes(),
                UnboxError::NotAnInstance => "value is not a data-backed instance".spec_bytes(),
            },
            Exception::Load(e) => "cannot load such file -- ".spec_bytes() + e.path@,
            Exception::NotImplemented(e) => e.message@,
        }
    }

    /// A human-readable description of the failure.
    pub fn message(&self) -> (r: Vec<u8>)
        ensures
            r@ == self.spec_message(),
    {
        match self {
            Exception::ArgCount(e) => e.message(),
            Exception::BadArgument(e) => bstr::clone_bytes(&e.message),
            Exception::Index(e) => bstr::clone_bytes(&e.message),
            Exception::ConstantName(e) => e.message(),
            Exception::NotDefined(e) => e.message(),
            Exception::TypeErr(e) => bstr::clone_bytes(&e.message),
            Exception::NoMethod(e) => e.message(),
            Exception::Fatal(e) => bstr::clone_bytes(&e.message),
            Exception::Unbox(e) => match e {
                UnboxError::WrongType { .. } => {
                    bstr::bytes_of("boxed data is of another host type")
                },
                UnboxError::AlreadyBoxed => bstr::bytes_of("instance already holds boxed data"),
                UnboxError::NotBoxed => bstr::bytes_of("instance holds no boxed data"),
                UnboxError::Collected => bstr::bytes_of("boxed data was already collected"),
                UnboxError::NotAnInstance => bstr::bytes_of("value is not a data-backed instance"),
            },
            Exception::Load(e) => e.message(),
            Exception::NotImplemented(e) => bstr::clone_bytes(&e.message),
        }
    }
}

} // verus!
