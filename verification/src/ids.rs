//! Core identifier types shared by the worker-facing API: entity ids,
//! typed request ids, and component authority states.

use vstd::prelude::*;
use vstd::string::StringExecFns;
use core::marker::PhantomData;
use crate::text;

verus! {

/// Identifies one entity in a simulation.
#[derive(Debug, Copy, Clone, PartialEq, Eq, Structural, Hash, PartialOrd, Ord)]
pub struct EntityId {
    pub id: i64,
}

impl EntityId {
    pub fn new(id: i64) -> (r: EntityId)
        ensures
            r.id == id,
    {
        EntityId { id }
    }

    /// An entity id handed out by the runtime is always positive; zero and
    /// negative values mark sentinel or unassigned ids.
    pub fn is_valid(&self) -> (r: bool)
        ensures
            r == (self.id > 0),
    {
        self.id > 0
    }

    pub fn to_string(&self) -> (s: String)
        ensures
            s@ == "EntityId: "@ + text::dec_signed(self.id as int),
    {
        let mut s = String::from_str("EntityId: ");
        s.append(text::i64_to_dec(self.id).as_str());
        s
    }
}

/// Identifies one in-flight request of kind `T`.
#[derive(Debug, PartialEq, Eq, Hash, PartialOrd, Ord)]
pub struct RequestId<T> {
    id: u32,
    _type: PhantomData<T>,
}

impl<T> Clone for RequestId<T> {
    fn clone(&self) -> (r: Self)
        ensures
            r.spec_id() == self.spec_id(),
    {
        RequestId { id: self.id, _type: PhantomData }
    }
}

impl<T> Copy for RequestId<T> {

}

impl<T> RequestId<T> {
    /// The numeric value of the request id.
    pub closed spec fn spec_id(&self) -> u32 {
        self.id
    }

    pub fn new(id: u32) -> (r: RequestId<T>)
        ensures
            r.spec_id() == id,
    {
        RequestId { id, _type: PhantomData }
    }

    pub fn to_string(&self) -> (s: String)
        ensures
            s@ == "RequestId: "@ + text::dec_digits(self.spec_id() as nat),
    {
        let mut s = String::from_str("RequestId: ");
        s.append(text::u32_to_dec(self.id).as_str());
        s
    }
}

/// The authority this worker holds over a component of an entity.
#[derive(Debug, Copy, Clone, PartialEq, Eq, Structural, Hash)]
pub enum Authority {
    Authoritative,
    AuthorityLossImminent,
    NotAuthoritative,
}

impl Authority {
    /// Whether the worker may currently write to the component: it may both
    /// while fully authoritative and while authority loss is pending.
    pub fn has_authority(&self) -> (r: bool)
        ensures
            r == (*self != Authority::NotAuthoritative),
    {
        *self != Authority::NotAuthoritative
    }

    /// Decodes the wire representation of an authority state.  The wire
    /// carries no values beyond the three states.
    pub fn from(auth: u8) -> (r: Authority)
        requires
            auth < 3,
        ensures
            r == (match auth {
                0u8 => Authority::NotAuthoritative,
                1u8 => Authority::Authoritative,
                _ => Authority::AuthorityLossImminent,
            }),
    {
        match auth {
            0 => Authority::NotAuthoritative,
            1 => Authority::Authoritative,
            _ => Authority::AuthorityLossImminent,
        }
    }
}

} // verus!
