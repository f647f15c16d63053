//! A foreign-backed class whose instances box a host byte payload.
//!
//! `Container` is the canonical exercise of the box/unbox protocol: its
//! class is defined with the foreign-data marker and the box/unbox free
//! routine, its initializer boxes the given byte string into the fresh
//! instance, and collection of an instance releases the payload
//! exactly once.

use vstd::prelude::*;
use vstd::string::StringSliceAdditionalSpecFns;
use vstd::utf8::is_ascii_chars;

use crate::boxing;
use crate::bstr;
use crate::class;
use crate::def::{box_unbox_free, name_has_no_nul, Free, Method};
use crate::exception::Exception;
use crate::exception::UnboxError;
use crate::interp::{
    find_scope, lemma_literal_bytes, lemma_reg_find_push, method_bound, reg_find, Artichoke,
    DataState, Feature, Instance, MethodBinding, KEY_CONTAINER,
};
use crate::method;
use crate::value::Value;

verus! {

/// Byte facts about the `Container` constant and method names.
pub proof fn lemma_container_name_bytes()
    ensures
        "Container".spec_bytes().len() == 9,
        "Container".spec_bytes()[0] == 67u8,
        name_has_no_nul("Container".spec_bytes()),
        "initialize".spec_bytes().len() == 10,
        "initialize".spec_bytes()[0] == 105u8,
        name_has_no_nul("initialize".spec_bytes()),
{
    reveal_strlit("Container");
    assert(is_ascii_chars("Container"@));
    lemma_literal_bytes("Container");
    reveal_strlit("initialize");
    assert(is_ascii_chars("initialize"@));
    lemma_literal_bytes("initialize");
}

/// Whether a method table carries `Container`'s initializer.
pub open spec fn container_methods_bound(methods: Seq<MethodBinding>) -> bool {
    method_bound(
        methods,
        method::Type::Instance,
        "initialize".spec_bytes(),
        Method::ContainerInitialize,
        1,
        0,
    )
}

/// The `Container` feature: a class holding one boxed byte payload per
/// instance.
pub struct Container;

impl Container {
    /// Define the `Container` class — foreign-backed, with an
    /// `initialize` binding — and register it under its host type key.
    ///
    /// Requiring the feature twice defines the class once: an existing
    /// registration short-circuits with nothing changed. On the fresh
    /// path — the type not yet registered, the root `Object` class in
    /// place — success is owed: the class is defined at the root
    /// (created, or reused if a class of that name already resolves),
    /// marked foreign-backed with the box/unbox free routine, its
    /// initializer is bound, and the defined descriptor is registered
    /// under the key.
    pub fn require(interp: &mut Artichoke) -> (r: Result<(), Exception>)
        requires
            old(interp).wf(),
        ensures
            final(interp).wf(),
            *final(interp) == (Artichoke {
                scopes: final(interp).scopes,
                classes: final(interp).classes,
                ..*old(interp)
            }),
            reg_find(old(interp).classes@, KEY_CONTAINER) is Some ==> *final(interp) == *old(
                interp,
            ) && r is Ok,
            r is Ok ==> reg_find(final(interp).classes@, KEY_CONTAINER) is Some,
            reg_find(old(interp).classes@, KEY_CONTAINER) is None && find_scope(
                old(interp).scopes@,
                Option::None,
                "Object".spec_bytes(),
            ) is Some ==> {
                &&& r is Ok
                &&& final(interp).classes@.len() == old(interp).classes@.len() + 1
                &&& forall|i: int|
                    0 <= i < old(interp).classes@.len()
                        ==> final(interp).classes@[i] == old(interp).classes@[i]
                &&& final(interp).classes@.last().0 == KEY_CONTAINER
                &&& final(interp).classes@.last().1.spec_path() == seq!["Container".spec_bytes()]
                &&& final(interp).classes@.last().1.spec_free() == Option::Some(Free::BoxUnbox)
                &&& (match reg_find(final(interp).classes@, KEY_CONTAINER) {
                    Option::Some(j) => {
                        &&& final(interp).classes@[j].1.spec_path() == seq![
                            "Container".spec_bytes(),
                        ]
                        &&& final(interp).classes@[j].1.spec_free() == Option::Some(
                            Free::BoxUnbox,
                        )
                    },
                    Option::None => false,
                })
                &&& (match find_scope(
                    old(interp).scopes@,
                    Option::None,
                    "Container".spec_bytes(),
                ) {
                    Option::None => {
                        &&& final(interp).scopes@.len() == old(interp).scopes@.len() + 1
                        &&& forall|i: int|
                            0 <= i < old(interp).scopes@.len()
                                ==> final(interp).scopes@[i] == old(interp).scopes@[i]
                        &&& final(interp).scopes@.last().kind == crate::interp::ScopeKind::Class
                        &&& final(interp).scopes@.last().name@ == "Container".spec_bytes()
                        &&& final(interp).scopes@.last().parent is None
                        &&& final(interp).scopes@.last().superclass == find_scope(
                            old(interp).scopes@,
                            Option::None,
                            "Object".spec_bytes(),
                        )
                        &&& final(interp).scopes@.last().holds_data
                        &&& container_methods_bound(final(interp).scopes@.last().methods@)
                    },
                    Option::Some(sid) => {
                        &&& final(interp).scopes@.len() == old(interp).scopes@.len()
                        &&& forall|i: int|
                            0 <= i < old(interp).scopes@.len() && i != sid
                                ==> final(interp).scopes@[i] == old(interp).scopes@[i]
                        &&& final(interp).scopes@[sid as int].name@
                            == old(interp).scopes@[sid as int].name@
                        &&& final(interp).scopes@[sid as int].parent
                            == old(interp).scopes@[sid as int].parent
                        &&& final(interp).scopes@[sid as int].holds_data
                        &&& container_methods_bound(final(interp).scopes@[sid as int].methods@)
                    },
                })
            },
    {
        proof {
            lemma_container_name_bytes();
        }
        if interp.is_class_defined(KEY_CONTAINER) {
            return Ok(());
        }
        let spec = match class::Spec::new(
            bstr::bytes_of("Container"),
            Option::None,
            Option::Some(box_unbox_free()),
        ) {
            Ok(spec) => spec,
            Err(e) => {
                return Err(Exception::ConstantName(e));
            },
        };
        let builder = class::Builder::for_spec(&spec).value_is_rust_object();
        let builder = match builder.add_method(
            bstr::bytes_of("initialize"),
            Method::ContainerInitialize,
            method::args_req(1),
        ) {
            Ok(b) => b,
            Err(e) => {
                return Err(Exception::ConstantName(e));
            },
        };
        let ghost builder_methods = builder.methods@;
        let ghost pre_scopes = interp.scopes@;
        match builder.define(interp) {
            Ok(()) => {},
            Err(e) => {
                return Err(Exception::NotDefined(e));
            },
        }
        proof {
            assert(spec.spec_path() =~= seq!["Container".spec_bytes()]);
            if find_scope(pre_scopes, Option::None, "Object".spec_bytes()) is Some {
                let table = match crate::interp::resolve_path(pre_scopes, spec.spec_path()) {
                    Option::Some(sid) => interp.scopes@[sid as int].methods@,
                    Option::None => interp.scopes@.last().methods@,
                };
                assert(container_methods_bound(table));
            }
        }
        let ghost pre = interp.classes@;
        match interp.def_class(KEY_CONTAINER, spec) {
            Ok(()) => {
                proof {
                    match reg_find(pre, KEY_CONTAINER) {
                        Option::Some(j) => {
                            crate::interp::lemma_reg_find_found(pre, KEY_CONTAINER, 0);
                            crate::interp::lemma_reg_find_present(interp.classes@, KEY_CONTAINER, j);
                        },
                        Option::None => {
                            lemma_reg_find_push(
                                pre,
                                (KEY_CONTAINER, interp.classes@.last().1),
                                KEY_CONTAINER,
                            );
                        },
                    }
                }
                Ok(())
            },
            Err(e) => Err(e),
        }
    }
}

/// Register the `Container` feature under its load path.
pub fn init(interp: &mut Artichoke) -> (r: Result<(), Exception>)
    requires
        old(interp).wf(),
    ensures
        final(interp).wf(),
        *final(interp) == (Artichoke { files: final(interp).files, ..*old(interp) }),
        final(interp).files@.len() == old(interp).files@.len() + 1,
        forall|i: int|
            0 <= i < old(interp).files@.len() ==> final(interp).files@[i] == old(interp).files@[i],
        final(interp).files@.last().1 == Feature::Container,
        r is Ok,
{
    interp.files.push((bstr::bytes_of("container"), Feature::Container));
    Ok(())
}

/// Native entry point of `Container#initialize`: box the byte payload
/// of `inner` into the fresh instance `slf`.
///
/// The payload is the byte content of a string or symbol argument, and
/// empty for any other argument — initialization never fails on the
/// argument's type, matching an initializer that best-efforts its
/// input. Boxing itself fails if `slf` is not a fresh data-backed
/// instance.
pub fn container_initialize(interp: &mut Artichoke, slf: &Value, inner: &Value) -> (r: Result<
    Value,
    Exception,
>)
    requires
        old(interp).wf(),
    ensures
        final(interp).wf(),
        *final(interp) == (Artichoke { heap: final(interp).heap, ..*old(interp) }),
        ({
            let payload = match *inner {
                Value::Str(s) => s@,
                Value::Sym(s) => s@,
                _ => Seq::<u8>::empty(),
            };
            match *slf {
                Value::DataRef(i) => if i < old(interp).heap@.len() {
                    match old(interp).heap@[i as int].state {
                        DataState::Unboxed => {
                            &&& r matches Ok(v) && v == Value::DataRef(i)
                            &&& final(interp).heap@[i as int].state matches DataState::Boxed {
                                key,
                                payload: p,
                            } && key == KEY_CONTAINER && p@ == payload
                        },
                        DataState::Boxed { .. } => final(interp).heap@ == old(interp).heap@ && (
                        r matches Err(e) && e matches Exception::Unbox(u) && u is AlreadyBoxed),
                        DataState::Collected => final(interp).heap@ == old(interp).heap@ && (
                        r matches Err(e) && e matches Exception::Unbox(u) && u is Collected),
                        DataState::Plain => final(interp).heap@ == old(interp).heap@ && (
                        r matches Err(e) && e matches Exception::Unbox(u) && u is NotAnInstance),
                    }
                } else {
                    final(interp).heap@ == old(interp).heap@ && (r matches Err(e) && e matches
                        Exception::Unbox(u) && u is NotAnInstance)
                },
                _ => final(interp).heap@ == old(interp).heap@ && (r matches Err(e) && e matches
                    Exception::Unbox(u) && u is NotAnInstance),
            }
        }),
{
    let payload: Vec<u8> = match inner {
        Value::Str(s) => bstr::clone_bytes(s),
        Value::Sym(s) => bstr::clone_bytes(s),
        _ => Vec::new(),
    };
    boxing::box_into_value(interp, KEY_CONTAINER, payload, slf)
}

} // verus!
