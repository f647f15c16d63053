//! The class registry: a table owned by the interpreter, keyed by host
//! type identity, holding the canonical class descriptor registered for
//! each host type. Registration overwrites silently (last writer wins),
//! which keeps re-registration idempotent.

use vstd::prelude::*;

use crate::class;
use crate::exception::Exception;
use crate::interp::{lemma_reg_find_skip, reg_find, resolve_path, Artichoke, DataState};
use crate::value::Value;

verus! {

/// Dynamic-dispatch surface of the class registry; [`Artichoke`]'s
/// implementation delegates to its inherent methods, which carry the
/// contracts.
pub trait ClassRegistry {
    /// The state invariant the registry operations maintain.
    spec fn registry_wf(&self) -> bool;

    /// Create a class definition bound to the host type `key`.
    fn def_class(&mut self, key: u64, spec: class::Spec) -> Result<(), Exception>
        requires
            old(self).registry_wf(),
    ;

    /// Retrieve the class definition bound to the host type `key`.
    fn class_spec(&self, key: u64) -> Result<Option<&class::Spec>, Exception>;

    /// Whether a class definition is bound to the host type `key`.
    fn is_class_defined(&self, key: u64) -> bool;

    /// The live class object bound to the host type `key`, if the type
    /// is registered and its class resolves.
    fn class_of(&mut self, key: u64) -> Result<Option<Value>, Exception>
        requires
            old(self).registry_wf(),
    ;

    /// Allocate a new instance of the class bound to the host type
    /// `key`, if the type is registered and its class resolves.
    fn new_instance(&mut self, key: u64, args: &Vec<Value>) -> Result<Option<Value>, Exception>
        requires
            old(self).registry_wf(),
    ;
}

impl ClassRegistry for Artichoke {
    open spec fn registry_wf(&self) -> bool {
        self.wf()
    }

    fn def_class(&mut self, key: u64, spec: class::Spec) -> Result<(), Exception> {
        Artichoke::def_class(self, key, spec)
    }

    fn class_spec(&self, key: u64) -> Result<Option<&class::Spec>, Exception> {
        Artichoke::class_spec(self, key)
    }

    fn is_class_defined(&self, key: u64) -> bool {
        Artichoke::is_class_defined(self, key)
    }

    fn class_of(&mut self, key: u64) -> Result<Option<Value>, Exception> {
        Artichoke::class_of(self, key)
    }

    fn new_instance(&mut self, key: u64, args: &Vec<Value>) -> Result<Option<Value>, Exception> {
        Artichoke::new_instance(self, key, args)
    }
}

impl Artichoke {
    /// Create a class definition bound to the host type `key`.
    ///
    /// Class definitions live for the interpreter's whole lifetime. An
    /// existing registration under the same key is overwritten.
    #[verifier::loop_isolation(false)]
    pub fn def_class(&mut self, key: u64, spec: class::Spec) -> (r: Result<(), Exception>)
        requires
            old(self).wf(),
        ensures
            *final(self) == (Artichoke { classes: final(self).classes, ..*old(self) }),
            final(self).wf(),
            r is Ok,
            match reg_find(old(self).classes@, key) {
                Option::Some(j) => {
                    &&& final(self).classes@.len() == old(self).classes@.len()
                    &&& forall|i: int|
                        0 <= i < old(self).classes@.len() && i != j ==> final(self).classes@[i]
                            == old(self).classes@[i]
                    &&& final(self).classes@[j] == (key, spec)
                },
                Option::None => {
                    &&& final(self).classes@ == old(self).classes@.push((key, spec))
                },
            },
    {
        let n = self.classes.len();
        let mut j: usize = 0;
        while j < n
            invariant
                j <= n,
                n == self.classes@.len(),
                *self == *old(self),
                forall|k: int| 0 <= k < j ==> (#[trigger] self.classes@[k]).0 != key,
            decreases n - j,
        {
            if self.classes[j].0 == key {
                proof {
                    lemma_reg_find_skip(self.classes@, key, j as int);
                }
                vstd::pervasive::VecAdditionalExecFns::set(&mut self.classes, j, (key, spec));
                return Ok(());
            }
            j = j + 1;
        }
        proof {
            lemma_reg_find_skip(self.classes@, key, n as int);
        }
        self.classes.push((key, spec));
        Ok(())
    }

    /// Retrieve the class definition bound to the host type `key`.
    ///
    /// Returns `Ok(None)` when no class was registered for the type.
    pub fn class_spec(&self, key: u64) -> (r: Result<Option<&class::Spec>, Exception>)
        ensures
            match reg_find(self.classes@, key) {
                Option::Some(j) => r matches Ok(o) && o matches Some(s) && s == self.classes@[j].1,
                Option::None => r matches Ok(o) && o is None,
            },
    {
        let n = self.classes.len();
        let mut j: usize = 0;
        while j < n
            invariant
                j <= n,
                n == self.classes@.len(),
                forall|k: int| 0 <= k < j ==> (#[trigger] self.classes@[k]).0 != key,
            decreases n - j,
        {
            if self.classes[j].0 == key {
                proof {
                    lemma_reg_find_skip(self.classes@, key, j as int);
                }
                return Ok(Option::Some(&self.classes[j].1));
            }
            j = j + 1;
        }
        proof {
            lemma_reg_find_skip(self.classes@, key, n as int);
        }
        Ok(Option::None)
    }

    /// Whether a class definition is bound to the host type `key`.
    pub fn is_class_defined(&self, key: u64) -> (r: bool)
        ensures
            r == (reg_find(self.classes@, key) is Some),
    {
        match self.class_spec(key) {
            Ok(Option::Some(_)) => true,
            _ => false,
        }
    }

    /// The live class object bound to the host type `key`.
    ///
    /// Returns `Ok(None)` when the type is unregistered or its class
    /// does not resolve; resolution never creates interpreter state.
    pub fn class_of(&mut self, key: u64) -> (r: Result<Option<Value>, Exception>)
        requires
            old(self).wf(),
        ensures
            *final(self) == *old(self),
            match reg_find(old(self).classes@, key) {
                Option::Some(j) => match resolve_path(
                    old(self).scopes@,
                    old(self).classes@[j].1.spec_path(),
                ) {
                    Option::Some(sid) => r matches Ok(o) && o matches Some(v) && v
                        == Value::ClassRef(sid),
                    Option::None => r matches Ok(o) && o is None,
                },
                Option::None => r matches Ok(o) && o is None,
            },
    {
        let spec_found = self.class_spec(key);
        let rclass = match spec_found {
            Ok(Option::Some(spec)) => spec.rclass(),
            _ => {
                return Ok(Option::None);
            },
        };
        match rclass.resolve(self) {
            Option::Some(sid) => Ok(Option::Some(Value::ClassRef(sid))),
            Option::None => Ok(Option::None),
        }
    }

    /// Allocate a new instance of the class bound to the host type
    /// `key`, protected by the arena.
    ///
    /// Returns `Ok(None)` when the type is unregistered, its class does
    /// not resolve, or the argument count cannot be represented in the
    /// interpreter's integer width. The fresh instance's data slot is
    /// empty for data-backed classes; attaching a payload and running
    /// an initializer are the host's next steps.
    pub fn new_instance(&mut self, key: u64, args: &Vec<Value>) -> (r: Result<
        Option<Value>,
        Exception,
    >)
        requires
            old(self).wf(),
        ensures
            final(self).wf(),
            r is Ok,
            match reg_find(old(self).classes@, key) {
                Option::Some(j) => match resolve_path(
                    old(self).scopes@,
                    old(self).classes@[j].1.spec_path(),
                ) {
                    Option::Some(sid) => if args@.len() <= i64::MAX {
                        &&& *final(self) == (Artichoke {
                            heap: final(self).heap,
                            arena_roots: final(self).arena_roots,
                            ..*old(self)
                        })
                        &&& final(self).heap@.len() == old(self).heap@.len() + 1
                        &&& forall|i: int|
                            0 <= i < old(self).heap@.len() ==> final(self).heap@[i] == old(
                                self,
                            ).heap@[i]
                        &&& final(self).heap@.last().class == sid
                        &&& final(self).heap@.last().state == (if old(
                            self,
                        ).scopes@[sid as int].holds_data {
                            DataState::Unboxed
                        } else {
                            DataState::Plain
                        })
                        &&& final(self).arena_roots@ == old(self).arena_roots@.push(
                            old(self).heap@.len() as usize,
                        )
                        &&& (r matches Ok(o) && o matches Some(v) && v == (if old(
                            self,
                        ).scopes@[sid as int].holds_data {
                            Value::DataRef(old(self).heap@.len() as usize)
                        } else {
                            Value::ObjectRef(old(self).heap@.len() as usize)
                        }))
                    } else {
                        *final(self) == *old(self) && (r matches Ok(o) && o is None)
                    },
                    Option::None => *final(self) == *old(self) && (r matches Ok(o) && o is None),
                },
                Option::None => *final(self) == *old(self) && (r matches Ok(o) && o is None),
            },
    {
        let spec_found = self.class_spec(key);
        let rclass = match spec_found {
            Ok(Option::Some(spec)) => spec.rclass(),
            _ => {
                return Ok(Option::None);
            },
        };
        if (args.len() as u64) > (i64::MAX as u64) {
            return Ok(Option::None);
        }
        match rclass.resolve(self) {
            Option::Some(sid) => {
                let holds_data = self.scopes[sid].holds_data;
                let idx = self.alloc_instance(sid, holds_data);
                if holds_data {
                    Ok(Option::Some(Value::DataRef(idx)))
                } else {
                    Ok(Option::Some(Value::ObjectRef(idx)))
                }
            },
            Option::None => Ok(Option::None),
        }
    }
}

} // verus!
