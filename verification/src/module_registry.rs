//! The module registry: the module-side counterpart of
//! [`crate::class_registry`], keyed by host type identity, holding the
//! canonical module descriptor registered for each host type.

use vstd::prelude::*;

use crate::exception::Exception;
use crate::interp::{lemma_reg_find_skip, reg_find, resolve_path, Artichoke};
use crate::module;
use crate::value::Value;

verus! {

impl Artichoke {
    /// Create a module definition bound to the host type `key`.
    ///
    /// Module definitions live for the interpreter's whole lifetime. An
    /// existing registration under the same key is overwritten.
    #[verifier::loop_isolation(false)]
    pub fn def_module(&mut self, key: u64, spec: module::Spec) -> (r: Result<(), Exception>)
        requires
            old(self).wf(),
        ensures
            *final(self) == (Artichoke { modules: final(self).modules, ..*old(self) }),
            final(self).wf(),
            r is Ok,
            match reg_find(old(self).modules@, key) {
                Option::Some(j) => {
                    &&& final(self).modules@.len() == old(self).modules@.len()
                    &&& forall|i: int|
                        0 <= i < old(self).modules@.len() && i != j ==> final(self).modules@[i]
                            == old(self).modules@[i]
                    &&& final(self).modules@[j] == (key, spec)
                },
                Option::None => {
                    &&& final(self).modules@ == old(self).modules@.push((key, spec))
                },
            },
    {
        let n = self.modules.len();
        let mut j: usize = 0;
        while j < n
            invariant
                j <= n,
                n == self.modules@.len(),
                *self == *old(self),
                forall|k: int| 0 <= k < j ==> (#[trigger] self.modules@[k]).0 != key,
            decreases n - j,
        {
            if self.modules[j].0 == key {
                proof {
                    lemma_reg_find_skip(self.modules@, key, j as int);
                }
                vstd::pervasive::VecAdditionalExecFns::set(&mut self.modules, j, (key, spec));
                return Ok(());
            }
            j = j + 1;
        }
        proof {
            lemma_reg_find_skip(self.modules@, key, n as int);
        }
        self.modules.push((key, spec));
        Ok(())
    }

    /// Retrieve the module definition bound to the host type `key`.
    ///
    /// Returns `Ok(None)` when no module was registered for the type.
    pub fn module_spec(&self, key: u64) -> (r: Result<Option<&module::Spec>, Exception>)
        ensures
            match reg_find(self.modules@, key) {
                Option::Some(j) => r matches Ok(o) && o matches Some(s) && s == self.modules@[j].1,
                Option::None => r matches Ok(o) && o is None,
            },
    {
        let n = self.modules.len();
        let mut j: usize = 0;
        while j < n
            invariant
                j <= n,
                n == self.modules@.len(),
                forall|k: int| 0 <= k < j ==> (#[trigger] self.modules@[k]).0 != key,
            decreases n - j,
        {
            if self.modules[j].0 == key {
                proof {
                    lemma_reg_find_skip(self.modules@, key, j as int);
                }
                return Ok(Option::Some(&self.modules[j].1));
            }
            j = j + 1;
        }
        proof {
            lemma_reg_find_skip(self.modules@, key, n as int);
        }
        Ok(Option::None)
    }

    /// Whether a module definition is bound to the host type `key`.
    pub fn is_module_defined(&self, key: u64) -> (r: bool)
        ensures
            r == (reg_find(self.modules@, key) is Some),
    {
        match self.module_spec(key) {
            Ok(Option::Some(_)) => true,
            _ => false,
        }
    }

    /// The live module object bound to the host type `key`.
    ///
    /// Returns `Ok(None)` when the type is unregistered or its module
    /// does not resolve; resolution never creates interpreter state.
    pub fn module_of(&mut self, key: u64) -> (r: Result<Option<Value>, Exception>)
        requires
            old(self).wf(),
        ensures
            *final(self) == *old(self),
            match reg_find(old(self).modules@, key) {
                Option::Some(j) => match resolve_path(
                    old(self).scopes@,
                    old(self).modules@[j].1.spec_path(),
                ) {
                    Option::Some(sid) => r matches Ok(o) && o matches Some(v) && v
                        == Value::ModuleRef(sid),
                    Option::None => r matches Ok(o) && o is None,
                },
                Option::None => r matches Ok(o) && o is None,
            },
    {
        let spec_found = self.module_spec(key);
        let rclass = match spec_found {
            Ok(Option::Some(spec)) => spec.rclass(),
            _ => {
                return Ok(Option::None);
            },
        };
        match rclass.resolve(self) {
            Option::Some(sid) => Ok(Option::Some(Value::ModuleRef(sid))),
            Option::None => Ok(Option::None),
        }
    }
}

} // verus!
