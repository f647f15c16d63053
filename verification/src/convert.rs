//! Conversions between plain host values and interpreter values.
//!
//! Primitives convert structurally; key/value pair lists convert to and
//! from hash values, preserving insertion order. Opaque host types have
//! no structural interpreter representation and go through the box and
//! unbox protocol in [`crate::boxing`] instead.

use vstd::prelude::*;
use vstd::string::StringSliceAdditionalSpecFns;

use crate::bstr;
use crate::exception::{Exception, TypeError};
use crate::interp::Artichoke;
use crate::value::Value;

verus! {

impl Artichoke {
    /// Convert a boolean to an interpreter value.
    pub fn convert_bool(&self, value: bool) -> (r: Value)
        ensures
            r == Value::Bool(value),
    {
        Value::Bool(value)
    }

    /// Convert an integer to an interpreter value.
    pub fn convert_int(&self, value: i64) -> (r: Value)
        ensures
            r == Value::Fixnum(value),
    {
        Value::Fixnum(value)
    }

    /// Convert owned bytes to an interpreter string value.
    pub fn convert_bytes(&mut self, value: Vec<u8>) -> (r: Value)
        ensures
            *final(self) == *old(self),
            r matches Value::Str(s) && s@ == value@,
    {
        Value::Str(value)
    }

    /// Convert a string literal to an interpreter string value.
    pub fn convert_str(&mut self, value: &str) -> (r: Value)
        ensures
            *final(self) == *old(self),
            r matches Value::Str(s) && s@ == value.spec_bytes(),
    {
        Value::Str(bstr::bytes_of(value))
    }

    /// Convert a list of values to an interpreter array value.
    pub fn convert_values(&mut self, value: Vec<Value>) -> (r: Value)
        ensures
            *final(self) == *old(self),
            r matches Value::Array(items) && items@ == value@,
    {
        Value::Array(value)
    }

    /// Convert key/value pairs to an interpreter hash value, keeping
    /// insertion order.
    pub fn convert_pairs(&mut self, value: Vec<(Value, Value)>) -> (r: Value)
        ensures
            *final(self) == *old(self),
            r matches Value::Hash(pairs) && pairs@ == value@,
    {
        Value::Hash(value)
    }

    /// Convert byte-string key/value pairs to an interpreter hash of
    /// string keys and string values, keeping insertion order.
    pub fn convert_byte_pairs(&mut self, value: Vec<(Vec<u8>, Vec<u8>)>) -> (r: Value)
        ensures
            *final(self) == *old(self),
            r matches Value::Hash(pairs) && {
                &&& pairs@.len() == value@.len()
                &&& forall|i: int|
                    0 <= i < value@.len() ==> ((#[trigger] pairs@[i]).0 matches Value::Str(k)
                        && k@ == value@[i].0@) && (pairs@[i].1 matches Value::Str(v) && v@
                        == value@[i].1@)
            },
    {
        let mut pairs: Vec<(Value, Value)> = Vec::new();
        let n = value.len();
        let mut i: usize = 0;
        while i < n
            invariant
                i <= n,
                n == value@.len(),
                pairs@.len() == i,
                forall|k: int|
                    0 <= k < i ==> ((#[trigger] pairs@[k]).0 matches Value::Str(key) && key@
                        == value@[k].0@) && (pairs@[k].1 matches Value::Str(v) && v@
                        == value@[k].1@),
            decreases n - i,
        {
            let key = Value::Str(bstr::clone_bytes(&value[i].0));
            let val = Value::Str(bstr::clone_bytes(&value[i].1));
            pairs.push((key, val));
            i = i + 1;
        }
        Value::Hash(pairs)
    }

    /// Convert optional byte-string key/value pairs with nilable values
    /// to an interpreter hash, or nil when absent.
    pub fn convert_nilable_byte_pairs(&mut self, value: Option<Vec<(Vec<u8>, Option<Vec<u8>>)>>) -> (r:
        Value)
        ensures
            *final(self) == *old(self),
            match value {
                Option::None => r is Nil,
                Option::Some(entries) => r matches Value::Hash(pairs) && {
                    &&& pairs@.len() == entries@.len()
                    &&& forall|i: int|
                        0 <= i < entries@.len() ==> ((#[trigger] pairs@[i]).0 matches Value::Str(k)
                            && k@ == entries@[i].0@) && (match entries@[i].1 {
                            Option::None => pairs@[i].1 is Nil,
                            Option::Some(v) => pairs@[i].1 matches Value::Str(b) && b@ == v@,
                        })
                },
            },
    {
        let entries = match value {
            Option::None => {
                return Value::Nil;
            },
            Option::Some(entries) => entries,
        };
        let mut pairs: Vec<(Value, Value)> = Vec::new();
        let n = entries.len();
        let mut i: usize = 0;
        while i < n
            invariant
                i <= n,
                n == entries@.len(),
                pairs@.len() == i,
                forall|k: int|
                    0 <= k < i ==> ((#[trigger] pairs@[k]).0 matches Value::Str(key) && key@
                        == entries@[k].0@) && (match entries@[k].1 {
                        Option::None => pairs@[k].1 is Nil,
                        Option::Some(v) => pairs@[k].1 matches Value::Str(b) && b@ == v@,
                    }),
            decreases n - i,
        {
            let key = Value::Str(bstr::clone_bytes(&entries[i].0));
            let val = match &entries[i].1 {
                Option::None => Value::Nil,
                Option::Some(v) => Value::Str(bstr::clone_bytes(v)),
            };
            pairs.push((key, val));
            i = i + 1;
        }
        Value::Hash(pairs)
    }

    /// Recover the key/value pairs of a hash value, in insertion order.
    ///
    /// Fails with a `TypeError` exactly when the value is not a hash.
    pub fn try_convert_pairs(&mut self, value: Value) -> (r: Result<Vec<(Value, Value)>, Exception>)
        ensures
            *final(self) == *old(self),
            match value {
                Value::Hash(pairs) => r matches Ok(o) && o == pairs,
                _ => r matches Err(e) && e is TypeErr,
            },
    {
        match value {
            Value::Hash(pairs) => Ok(pairs),
            _ => Err(
                Exception::TypeErr(
                    TypeError::from_message(bstr::bytes_of("no implicit conversion into Hash")),
                ),
            ),
        }
    }
}

} // verus!
