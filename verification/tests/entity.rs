use std::cell::RefCell;
use std::rc::Rc;

use spatialos_codegen::entity::{Component, Entity};
use spatialos_codegen::schema::{DecodeError, SchemaComponentData};

pub struct TestComponent(Rc<RefCell<bool>>);

// `spec_id` is the trait's specification-level id; an implementation
// compiled outside the verifier provides it as a plain stub returning
// the same value as `component_id`.
impl Component for TestComponent {
    fn spec_id() -> u32 {
        1234
    }

    fn component_id() -> u32 {
        1234
    }

    fn serialize_data(&self) -> Result<SchemaComponentData, DecodeError> {
        panic!("not serialized in this test")
    }
}

impl Drop for TestComponent {
    fn drop(&mut self) {
        self.0.replace(true);
    }
}

#[test]
fn free_handle_on_drop_entity() {
    let was_dropped = Rc::new(RefCell::new(false));

    {
        let mut entity = Entity::new();
        let _ = entity.add_handle(TestComponent(was_dropped.clone()));
    }

    assert!(*was_dropped.borrow(), "Component handle wasn't dropped");
}

pub struct PlainComponent(u32);

impl Component for PlainComponent {
    fn spec_id() -> u32 {
        77
    }

    fn component_id() -> u32 {
        77
    }

    fn serialize_data(&self) -> Result<SchemaComponentData, DecodeError> {
        let mut data = SchemaComponentData::new();
        data.fields.add_u32(1, self.0);
        Ok(data)
    }
}

#[test]
fn duplicate_component_id_is_refused() {
    let mut entity = Entity::new();
    assert!(entity.add_serialized(&PlainComponent(5)).is_ok());
    let err = entity.add_serialized(&PlainComponent(6)).unwrap_err();
    assert_eq!(err, "Duplicate component with ID 77 added to `Entity`.");
    let err = entity.add_handle(PlainComponent(7)).unwrap_err();
    assert_eq!(err, "Duplicate component with ID 77 added to `Entity`.");
}

#[test]
fn add_goes_through_the_handle_path() {
    let mut entity = Entity::new();
    assert!(entity.add(PlainComponent(5)).is_ok());
    assert!(entity.add(PlainComponent(6)).is_err());
}
