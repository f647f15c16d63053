//! The foreign-object box/unbox protocol.
//!
//! A data-backed instance carries one foreign-data slot. Boxing moves a
//! host payload into the slot of a freshly allocated instance, tagged
//! with the host type's registry key; unboxing hands back read access
//! to the payload only when the asked-for host type matches the tag.
//! The collector is the single release point of a boxed payload
//! ([`Artichoke::full_gc`]), and a collected or never-boxed slot fails
//! cleanly on access — nothing is ever dereferenced after collection.

use vstd::prelude::*;

use crate::bstr;
use crate::exception::{Exception, UnboxError};
use crate::interp::{Artichoke, DataState, Instance};
use crate::value::Value;

verus! {

/// Attach a host payload to the fresh data-backed instance `slf`,
/// transferring ownership to the instance, tagged with the host type
/// `key`.
///
/// Succeeds exactly when `slf` is a live data-backed instance whose
/// slot is still empty; a slot that is already boxed, already
/// collected, or belongs to a class without foreign data fails with
/// the matching unbox error, and nothing changes.
pub fn box_into_value(interp: &mut Artichoke, key: u64, payload: Vec<u8>, slf: &Value) -> (r:
    Result<Value, Exception>)
    requires
        old(interp).wf(),
    ensures
        final(interp).wf(),
        *final(interp) == (Artichoke { heap: final(interp).heap, ..*old(interp) }),
        match *slf {
            Value::DataRef(i) => if i < old(interp).heap@.len() {
                match old(interp).heap@[i as int].state {
                    DataState::Unboxed => {
                        &&& final(interp).heap@ == old(interp).heap@.update(
                            i as int,
                            Instance {
                                state: DataState::Boxed {
                                    key,
                                    payload: final(interp).heap@[i as int].state->Boxed_payload,
                                },
                                ..old(interp).heap@[i as int]
                            },
                        )
                        &&& final(interp).heap@[i as int].state matches DataState::Boxed {
                            key: k,
                            payload: p,
                        } && k == key && p@ == payload@
                        &&& (r matches Ok(v) && v == Value::DataRef(i))
                    },
                    DataState::Boxed { .. } => final(interp).heap@ == old(interp).heap@ && (
                    r matches Err(e) && e matches Exception::Unbox(u) && u is AlreadyBoxed),
                    DataState::Collected => final(interp).heap@ == old(interp).heap@ && (
                    r matches Err(e) && e matches Exception::Unbox(u) && u is Collected),
                    DataState::Plain => final(interp).heap@ == old(interp).heap@ && (
                    r matches Err(e) && e matches Exception::Unbox(u) && u is NotAnInstance),
                }
            } else {
                final(interp).heap@ == old(interp).heap@ && (r matches Err(e) && e matches
                    Exception::Unbox(u) && u is NotAnInstance)
            },
            _ => final(interp).heap@ == old(interp).heap@ && (r matches Err(e) && e matches
                Exception::Unbox(u) && u is NotAnInstance),
        },
{
    match slf {
        Value::DataRef(i) => {
            if *i < interp.heap.len() {
                let can_box = match &interp.heap[*i].state {
                    DataState::Unboxed => Ok(()),
                    DataState::Boxed { .. } => Err(Exception::Unbox(UnboxError::AlreadyBoxed)),
                    DataState::Collected => Err(Exception::Unbox(UnboxError::Collected)),
                    DataState::Plain => Err(Exception::Unbox(UnboxError::NotAnInstance)),
                };
                match can_box {
                    Ok(()) => {
                        let mut slot = Instance {
                            class: 0,
                            state: DataState::Plain,
                            frozen: false,
                        };
                        vstd::pervasive::VecAdditionalExecFns::set_and_swap(
                            &mut interp.heap,
                            *i,
                            &mut slot,
                        );
                        slot.state = DataState::Boxed { key, payload };
                        vstd::pervasive::VecAdditionalExecFns::set_and_swap(
                            &mut interp.heap,
                            *i,
                            &mut slot,
                        );
                        proof {
                            assert(interp.heap@ =~= old(interp).heap@.update(
                                *i as int,
                                Instance {
                                    state: interp.heap@[*i as int].state,
                                    ..old(interp).heap@[*i as int]
                                },
                            ));
                        }
                        Ok(Value::DataRef(*i))
                    },
                    Err(e) => Err(e),
                }
            } else {
                Err(Exception::Unbox(UnboxError::NotAnInstance))
            }
        },
        _ => Err(Exception::Unbox(UnboxError::NotAnInstance)),
    }
}

/// Read the host payload boxed into `value` under the host type `key`.
///
/// Ownership stays with the instance: the caller receives a copy of
/// the payload's bytes. Succeeds exactly when `value` is a live
/// data-backed instance whose slot is boxed under `key`; a slot boxed
/// under a different host type fails with a type-mismatch error, and
/// an empty or collected slot fails with the matching unbox error —
/// never a stale read.
pub fn unbox_from_value(interp: &Artichoke, key: u64, value: &Value) -> (r: Result<
    Vec<u8>,
    Exception,
>)
    ensures
        match *value {
            Value::DataRef(i) => if i < interp.heap@.len() {
                match interp.heap@[i as int].state {
                    DataState::Boxed { key: k, payload } => if k == key {
                        r matches Ok(p) && p@ == payload@
                    } else {
                        (r matches Err(e) && e matches Exception::Unbox(u) && u
                            == (UnboxError::WrongType { expected: key, actual: k }))
                    },
                    DataState::Unboxed => (r matches Err(e) && e matches Exception::Unbox(u) && u
                        is NotBoxed),
                    DataState::Collected => (r matches Err(e) && e matches Exception::Unbox(u)
                        && u is Collected),
                    DataState::Plain => (r matches Err(e) && e matches Exception::Unbox(u) && u
                        is NotAnInstance),
                }
            } else {
                r matches Err(e) && e matches Exception::Unbox(u) && u is NotAnInstance
            },
            _ => r matches Err(e) && e matches Exception::Unbox(u) && u is NotAnInstance,
        },
{
    match value {
        Value::DataRef(i) => {
            if *i < interp.heap.len() {
                match &interp.heap[*i].state {
                    DataState::Boxed { key: k, payload } => {
                        if *k == key {
                            Ok(bstr::clone_bytes(payload))
                        } else {
                            Err(
                                Exception::Unbox(
                                    UnboxError::WrongType { expected: key, actual: *k },
                                ),
                            )
                        }
                    },
                    DataState::Unboxed => Err(Exception::Unbox(UnboxError::NotBoxed)),
                    DataState::Collected => Err(Exception::Unbox(UnboxError::Collected)),
                    DataState::Plain => Err(Exception::Unbox(UnboxError::NotAnInstance)),
                }
            } else {
                Err(Exception::Unbox(UnboxError::NotAnInstance))
            }
        },
        _ => Err(Exception::Unbox(UnboxError::NotAnInstance)),
    }
}

} // verus!
