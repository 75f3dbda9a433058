//! An entity under construction: a collection of serialized component
//! values and component handles, at most one per component id.

use vstd::prelude::*;
use vstd::string::StringExecFns;
use crate::schema::{DecodeError, SchemaComponentData};
use crate::text;

verus! {

/// One schema component kind: its globally unique numeric id and its
/// serialization.  Generated component types implement it; the runtime
/// glue that carries entities to the engine relies on it.
pub trait Component: Sized {
    /// The globally unique id of the component, at the specification
    /// level.
    spec fn spec_id() -> u32;

    /// The globally unique id of the component.
    fn component_id() -> (id: u32)
        ensures
            id == Self::spec_id(),
    ;

    /// Serializes one value of the component.  The trait promises nothing
    /// of the result: callers state what holds whatever came back.
    fn serialize_data(&self) -> Result<SchemaComponentData, DecodeError>;
}

/// Owns one unserialized component value until the entity is handed off
/// or dropped.
trait ErasedComponent {

}

impl<C: Component> ErasedComponent for C {

}

/// A type-erased handle that owns a component value.
struct UserHandle {
    inner: Box<dyn ErasedComponent>,
}

/// Relies on `Box::new` and the unsizing coercion to `dyn`, which carry no
/// specification: the box owns the component until the handle drops.
#[verifier::external_body]
fn erase_component<C: Component + 'static>(component: C) -> UserHandle {
    UserHandle { inner: Box::new(component) }
}

enum ComponentSlot {
    SchemaData(SchemaComponentData),
    Handle(UserHandle),
}

/// A collection of components keyed by component id.
pub struct Entity {
    components: Vec<(u32, ComponentSlot)>,
}

impl Entity {
    /// The component ids held, in insertion order.
    pub closed spec fn ids(&self) -> Seq<u32> {
        Seq::new(self.components@.len(), |i: int| self.components@[i].0)
    }

    /// No component id occurs twice.
    pub open spec fn wf(&self) -> bool {
        forall|i: int, j: int|
            0 <= i < j < self.ids().len() ==> self.ids()[i] != self.ids()[j]
    }

    pub fn new() -> (r: Entity)
        ensures
            r.ids() == Seq::<u32>::empty(),
            r.wf(),
    {
        let r = Entity { components: Vec::new() };
        proof {
            assert(r.ids() =~= Seq::<u32>::empty());
        }
        r
    }

    /// Adds a component, owning it as a handle.  Succeeds exactly when
    /// the entity does not yet hold the component's id.
    pub fn add<C: Component + 'static>(&mut self, component: C) -> (r: Result<(), String>)
        requires
            old(self).wf(),
        ensures
            final(self).wf(),
            r is Ok <==> !old(self).ids().contains(C::spec_id()),
            r is Ok ==> final(self).ids() == old(self).ids().push(C::spec_id()),
            r is Err ==> final(self).ids() == old(self).ids(),
    {
        self.add_handle(component)
    }

    /// Adds `component` without serializing it: the handle owns the value
    /// until the entity is handed off or dropped.  Succeeds exactly when
    /// the entity does not yet hold the component's id.
    pub fn add_handle<C: Component + 'static>(&mut self, component: C) -> (r: Result<(), String>)
        requires
            old(self).wf(),
        ensures
            final(self).wf(),
            r is Ok <==> !old(self).ids().contains(C::spec_id()),
            r is Ok ==> final(self).ids() == old(self).ids().push(C::spec_id()),
            r is Err ==> final(self).ids() == old(self).ids(),
    {
        let id = C::component_id();
        self.pre_add_check(id)?;
        let ghost prev = self.ids();
        let handle = erase_component(component);
        self.components.push((id, ComponentSlot::Handle(handle)));
        proof {
            assert(self.ids() =~= prev.push(id));
        }
        Ok(())
    }

    /// Adds a component in serialized form.  A held id is refused; a
    /// fresh id is added unless serialization itself failed, which the
    /// `Component` trait leaves open.
    pub fn add_serialized<C: Component>(&mut self, component: &C) -> (r: Result<(), String>)
        requires
            old(self).wf(),
        ensures
            final(self).wf(),
            old(self).ids().contains(C::spec_id()) ==> r is Err,
            r is Ok ==> !old(self).ids().contains(C::spec_id()) && final(self).ids() == old(
                self,
            ).ids().push(C::spec_id()),
            r is Err ==> final(self).ids() == old(self).ids(),
    {
        let id = C::component_id();
        self.pre_add_check(id)?;
        let schema_data = match component.serialize_data() {
            Ok(d) => d,
            Err(e) => {
                return Err(e.message());
            },
        };
        let ghost prev = self.ids();
        self.components.push((id, ComponentSlot::SchemaData(schema_data)));
        proof {
            assert(self.ids() =~= prev.push(id));
        }
        Ok(())
    }

    /// Refuses a component id the entity already holds.
    pub fn pre_add_check(&self, id: u32) -> (r: Result<(), String>)
        ensures
            r is Ok <==> !self.ids().contains(id),
    {
        let mut j: usize = 0;
        while j < self.components.len()
            invariant
                j <= self.components.len(),
                self.ids().len() == self.components@.len(),
                forall|i: int| 0 <= i < j ==> self.ids()[i] != id,
            decreases self.components.len() - j,
        {
            if self.components[j].0 == id {
                proof {
                    assert(self.ids()[j as int] == id);
                }
                let mut message = String::from_str("Duplicate component with ID ");
                message.append(text::u32_to_dec(id).as_str());
                message.append(" added to `Entity`.");
                return Err(message);
            }
            j = j + 1;
        }
        proof {
            assert(forall|i: int| 0 <= i < self.ids().len() ==> self.ids()[i] != id);
        }
        Ok(())
    }
}

} // verus!
