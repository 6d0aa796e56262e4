//! The type-erased container that carries one message.

use std::any::Any;
use std::any::TypeId;
use vstd::prelude::*;
use vstd::std_specs::cmp::PartialEqSpecImpl;
use crate::inbox::Exit;

verus! {

/// `std::any::TypeId`, the identity of a type at run time.  Nothing is known
/// of a value but whether it equals another.
#[verifier::external_type_specification]
#[verifier::external_body]
pub struct ExTypeId(TypeId);

/// A boxed value of some sendable `'static` type, held as `dyn Any`.
/// Nothing inside is open to proof; what the library reads of it goes
/// through [`payload_type`] and [`payload_exit`].
#[verifier::external_body]
#[derive(Debug)]
pub struct Payload {
    inner: Box<dyn Any + Send>,
}

/// What `Any::type_id` returns for the value inside a payload: the identity of
/// that value's type.
pub uninterp spec fn payload_type(payload: Payload) -> TypeId;

/// What `downcast_ref::<Exit>` returns for a payload, by value: the exit signal
/// inside, or `None` when the payload holds a value of another type.
pub uninterp spec fn payload_exit(payload: Payload) -> Option<Exit>;

/// Boxes `message` with `Box::new` and forgets its type.  Nothing is claimed
/// of the result.
#[verifier::external_body]
fn payload_new<M: Send + 'static>(message: M) -> (payload: Payload) {
    Payload { inner: Box::new(message) }
}

/// Boxes an exit signal with `Box::new` and forgets its type.  Claims that
/// `downcast_ref::<Exit>` on the result finds that signal again.
#[verifier::external_body]
fn payload_from_exit(exit: Exit) -> (payload: Payload)
    ensures
        payload_exit(payload) == Some(exit),
{
    Payload { inner: Box::new(exit) }
}

/// Calls `Any::type_id` on the boxed value (not on the box).  Claims that the
/// result is the identity named by [`payload_type`].
#[verifier::external_body]
fn payload_type_id(payload: &Payload) -> (id: TypeId)
    ensures
        id == payload_type(*payload),
{
    (*payload.inner).type_id()
}

/// Calls `Box<dyn Any + Send>::downcast`, which hands the value out when it is
/// a `T`.  Nothing is claimed of the result.
#[verifier::external_body]
fn payload_downcast<T: 'static>(payload: Payload) -> (value: Option<T>) {
    payload.inner.downcast::<T>().ok().map(|boxed| *boxed)
}

/// Calls `downcast_ref` on the boxed value, which lends the value out when it
/// is a `T`.  Nothing is claimed of the result.
#[verifier::external_body]
fn payload_downcast_ref<T: 'static>(payload: &Payload) -> (value: Option<&T>) {
    payload.inner.downcast_ref::<T>()
}

/// Calls `downcast_ref::<Exit>` on the boxed value and copies the signal out.
/// Claims that the result is the signal named by [`payload_exit`].
#[verifier::external_body]
fn payload_as_exit(payload: &Payload) -> (exit: Option<Exit>)
    ensures
        exit == payload_exit(*payload),
{
    payload.inner.downcast_ref::<Exit>().copied()
}

/// Calls `TypeId::of::<T>()`.  Nothing is claimed of the result.
#[verifier::external_body]
pub(crate) fn type_id_of<T: 'static>() -> (id: TypeId) {
    TypeId::of::<T>()
}

/// Compares two type identities with `==`.  Claims that the comparison is
/// true exactly when the two are the same identity.
#[verifier::external_body]
fn type_id_eq(left: TypeId, right: TypeId) -> (same: bool)
    ensures
        same == (left == right),
{
    left == right
}

/// One message: a value of any sendable `'static` type, together with the
/// size of that type in bytes.  The value's type is recovered at run time.
#[derive(Debug)]
pub struct Envelope {
    pub(crate) size: usize,
    pub(crate) message: Payload,
}

impl Envelope {
    /// The size in bytes recorded for the value inside.
    pub open(crate) spec fn spec_size(&self) -> usize {
        self.size
    }

    /// The identity of the type of the value inside.
    pub open(crate) spec fn type_id(&self) -> TypeId {
        payload_type(self.message)
    }

    /// The exit signal inside, when the value inside is one.
    pub open(crate) spec fn exit_notice(&self) -> Option<Exit> {
        payload_exit(self.message)
    }

    /// Wraps `message`, recording the size of its type.
    pub fn new<M: Sized + Send + 'static>(message: M) -> (envelope: Envelope)
        ensures
            envelope.spec_size() as nat == vstd::layout::size_of::<M>(),
    {
        Envelope { size: core::mem::size_of::<M>(), message: payload_new(message) }
    }

    /// Wraps an exit signal, as the runtime does when a trapped signal is
    /// handed to a process as an ordinary message.
    pub fn from_exit(exit: Exit) -> (envelope: Envelope)
        ensures
            envelope.exit_notice() == Some(exit),
            envelope.spec_size() as nat == vstd::layout::size_of::<Exit>(),
    {
        Envelope { size: core::mem::size_of::<Exit>(), message: payload_from_exit(exit) }
    }

    /// Takes the value out when it is a `T`; the envelope is consumed either
    /// way.
    pub fn downcast<T: 'static>(self) -> (value: Option<T>) {
        payload_downcast::<T>(self.message)
    }

    /// Lends the value out when it is a `T`.
    pub fn downcast_ref<T: 'static>(&self) -> (value: Option<&T>) {
        payload_downcast_ref::<T>(&self.message)
    }

    /// The exit signal inside, when the value inside is one.
    pub fn as_exit(&self) -> (exit: Option<Exit>)
        ensures
            exit == self.exit_notice(),
    {
        payload_as_exit(&self.message)
    }

    /// The identity of the type of the value inside.
    pub fn id(&self) -> (id: TypeId)
        ensures
            id == self.type_id(),
    {
        payload_type_id(&self.message)
    }

    /// Whether the value inside has the type that `id` identifies.
    pub fn has_type(&self, id: TypeId) -> (held: bool)
        ensures
            held == (self.type_id() == id),
    {
        type_id_eq(self.id(), id)
    }

    /// Whether the value inside is a `T`: the identity of `T` is looked up and
    /// handed to [`Envelope::has_type`].
    pub fn is<T: 'static>(&self) -> (held: bool) {
        self.has_type(type_id_of::<T>())
    }

    /// The size in bytes recorded for the value inside.
    pub fn size(&self) -> (size: usize)
        ensures
            size == self.spec_size(),
    {
        self.size
    }
}

impl<T: PartialEq + Send + 'static> PartialEq<T> for Envelope {
    /// True when the envelope holds a `T` that `==` finds equal to `other`.
    fn eq(&self, other: &T) -> (same: bool) {
        match self.downcast_ref::<T>() {
            Some(this) => this == other,
            None => false,
        }
    }
}

impl<T: PartialEq + Send + 'static> PartialEqSpecImpl<T> for Envelope {
    /// Nothing is promised of `==` between an envelope and a typed value: what
    /// the envelope holds is not open to proof.
    open spec fn obeys_eq_spec() -> bool {
        false
    }

    open spec fn eq_spec(&self, other: &T) -> bool {
        false
    }
}

} // verus!
