//! Typed code for the `example` package of the test schema: an enum with
//! its numeric wire conversions, plain record types, and the components
//! exercising entity-id and enum fields.

use vstd::prelude::*;
use crate::ids::EntityId;
use crate::entity::Component;
use crate::schema::{
    DecodeError, DecodeErrorView, FieldValue, SchemaCommandRequest, SchemaCommandResponse, SchemaComponentData,
    SchemaComponentUpdate, SchemaObject, SchemaValue, decodes_to, entity_id_field, enum_field,
    field_of, i32_field,
};

verus! {

/// A schema enum of two declared values.
#[derive(Debug, Clone, Copy, PartialEq, Eq, Structural, Hash)]
#[allow(non_camel_case_types)]
pub enum TestEnum {
    FIRST,
    SECOND,
}

impl TestEnum {
    /// The variant a numeric wire value names.  Values outside the
    /// declared set have no variant: decoders reject them first.
    pub open spec fn spec_from(value: u32) -> TestEnum {
        if value == 0 {
            TestEnum::FIRST
        } else {
            TestEnum::SECOND
        }
    }

    pub open spec fn spec_as_u32(self) -> u32 {
        match self {
            TestEnum::FIRST => 0,
            TestEnum::SECOND => 1,
        }
    }

    /// Converts a declared numeric value to its variant.
    pub fn from(value: u32) -> (r: TestEnum)
        requires
            value < 2,
        ensures
            r == Self::spec_from(value),
    {
        match value {
            0 => TestEnum::FIRST,
            _ => TestEnum::SECOND,
        }
    }

    pub fn as_u32(self) -> (r: u32)
        ensures
            r == self.spec_as_u32(),
    {
        match self {
            TestEnum::FIRST => 0,
            TestEnum::SECOND => 1,
        }
    }
}

/// The numeric conversions of the enum invert one another on the declared
/// values.
pub proof fn lemma_test_enum_roundtrip(e: TestEnum, value: u32)
    ensures
        TestEnum::spec_from(e.spec_as_u32()) == e,
        value < 2 ==> TestEnum::spec_from(value).spec_as_u32() == value,
{
}

/// The payload of the example test command.
#[derive(Debug, Clone)]
pub struct CommandData {
    pub value: i32,
}

pub struct CommandDataView {
    pub value: i32,
}

impl View for CommandData {
    type V = CommandDataView;

    open spec fn view(&self) -> CommandDataView {
        CommandDataView { value: self.value }
    }
}

impl CommandData {
    pub open spec fn spec_encode(v: CommandDataView) -> Seq<(u32, FieldValue)> {
        seq![(1u32, FieldValue::I32(v.value))]
    }

    pub open spec fn spec_decode(s: Seq<(u32, FieldValue)>) -> Result<CommandDataView, DecodeErrorView> {
        Ok(CommandDataView { value: i32_field(s, 1) })
    }

    pub fn from_type(input: &SchemaObject) -> (r: Result<CommandData, DecodeError>)
        ensures
            decodes_to(r, Self::spec_decode(input@)),
    {
        let value = match input.get_first(1) {
            Some(SchemaValue::I32(v)) => *v,
            _ => 0i32,
        };
        Ok(CommandData { value })
    }

    pub fn to_type(input: &CommandData, output: &mut SchemaObject) -> (r: Result<(), DecodeError>)
        ensures
            r is Ok,
            final(output)@ == old(output)@ + Self::spec_encode(input@),
    {
        output.add_i32(1, input.value);
        proof {
            assert(final(output)@ =~= old(output)@ + Self::spec_encode(input@));
        }
        Ok(())
    }
}

/// Serializing a command payload and decoding the result returns the
/// payload.
pub proof fn lemma_command_data_roundtrip(v: CommandDataView)
    ensures
        CommandData::spec_decode(CommandData::spec_encode(v)) == Ok::<CommandDataView, DecodeErrorView>(
            v,
        ),
{
    broadcast use crate::schema::lemma_field_of_push;

    let s0 = Seq::<(u32, FieldValue)>::empty();
    let p = (1u32, FieldValue::I32(v.value));
    assert(CommandData::spec_encode(v) =~= s0.push(p));
    assert(field_of(s0.push(p), 1) =~= seq![p.1]);
}

/// A plain record type with one scalar field.
#[derive(Debug, Clone)]
pub struct TestType {
    pub value: i32,
}

pub struct TestTypeView {
    pub value: i32,
}

impl View for TestType {
    type V = TestTypeView;

    open spec fn view(&self) -> TestTypeView {
        TestTypeView { value: self.value }
    }
}

impl TestType {
    pub open spec fn spec_encode(v: TestTypeView) -> Seq<(u32, FieldValue)> {
        seq![(1u32, FieldValue::I32(v.value))]
    }

    pub open spec fn spec_decode(s: Seq<(u32, FieldValue)>) -> Result<TestTypeView, DecodeErrorView> {
        Ok(TestTypeView { value: i32_field(s, 1) })
    }

    pub fn from_type(input: &SchemaObject) -> (r: Result<TestType, DecodeError>)
        ensures
            decodes_to(r, Self::spec_decode(input@)),
    {
        let value = match input.get_first(1) {
            Some(SchemaValue::I32(v)) => *v,
            _ => 0i32,
        };
        Ok(TestType { value })
    }

    pub fn to_type(input: &TestType, output: &mut SchemaObject) -> (r: Result<(), DecodeError>)
        ensures
            r is Ok,
            final(output)@ == old(output)@ + Self::spec_encode(input@),
    {
        output.add_i32(1, input.value);
        proof {
            assert(final(output)@ =~= old(output)@ + Self::spec_encode(input@));
        }
        Ok(())
    }
}

/// Serializing a test-type value and decoding the result returns the
/// value.
pub proof fn lemma_test_type_roundtrip(v: TestTypeView)
    ensures
        TestType::spec_decode(TestType::spec_encode(v)) == Ok::<TestTypeView, DecodeErrorView>(v),
{
    broadcast use crate::schema::lemma_field_of_push;

    let s0 = Seq::<(u32, FieldValue)>::empty();
    let p = (1u32, FieldValue::I32(v.value));
    assert(TestType::spec_encode(v) =~= s0.push(p));
    assert(field_of(s0.push(p), 1) =~= seq![p.1]);
}

/// A component holding one entity-id field.
#[derive(Debug, Clone)]
pub struct EntityIdTest {
    pub eid: EntityId,
}

pub struct EntityIdTestView {
    pub eid: EntityId,
}

impl View for EntityIdTest {
    type V = EntityIdTestView;

    open spec fn view(&self) -> EntityIdTestView {
        EntityIdTestView { eid: self.eid }
    }
}

#[derive(Debug, Clone, Default)]
pub struct EntityIdTestUpdate {
    pub eid: Option<EntityId>,
}

pub struct EntityIdTestUpdateView {
    pub eid: Option<EntityId>,
}

impl View for EntityIdTestUpdate {
    type V = EntityIdTestUpdateView;

    open spec fn view(&self) -> EntityIdTestUpdateView {
        EntityIdTestUpdateView { eid: self.eid }
    }
}

impl EntityIdTest {
    pub open spec fn spec_encode(v: EntityIdTestView) -> Seq<(u32, FieldValue)> {
        seq![(1u32, FieldValue::EntityId(v.eid.id))]
    }

    pub open spec fn spec_decode(s: Seq<(u32, FieldValue)>) -> Result<
        EntityIdTestView,
        DecodeErrorView,
    > {
        Ok(EntityIdTestView { eid: EntityId { id: entity_id_field(s, 1) } })
    }

    pub fn from_type(input: &SchemaObject) -> (r: Result<EntityIdTest, DecodeError>)
        ensures
            decodes_to(r, Self::spec_decode(input@)),
    {
        let eid = match input.get_first(1) {
            Some(SchemaValue::EntityId(e)) => *e,
            _ => EntityId::new(0),
        };
        Ok(EntityIdTest { eid })
    }

    pub fn to_type(input: &EntityIdTest, output: &mut SchemaObject) -> (r: Result<(), DecodeError>)
        ensures
            r is Ok,
            final(output)@ == old(output)@ + Self::spec_encode(input@),
    {
        output.add_entity_id(1, input.eid);
        proof {
            assert(final(output)@ =~= old(output)@ + Self::spec_encode(input@));
        }
        Ok(())
    }

    /// Whole-field merge: a present id replaces the held one.
    pub fn merge(&mut self, update: EntityIdTestUpdate)
        ensures
            final(self)@.eid == (match update@.eid {
                Some(v) => v,
                None => old(self)@.eid,
            }),
    {
        if let Some(value) = update.eid {
            self.eid = value;
        }
    }

    pub fn from_data(data: &SchemaComponentData) -> (r: Result<EntityIdTest, DecodeError>)
        ensures
            decodes_to(r, Self::spec_decode(data.fields@)),
    {
        EntityIdTest::from_type(&data.fields)
    }

    pub fn from_update(update: &SchemaComponentUpdate) -> (r: Result<
        EntityIdTestUpdate,
        DecodeError,
    >)
        ensures
            decodes_to(r, EntityIdTestUpdate::spec_decode(update.fields@)),
    {
        EntityIdTestUpdate::from_type(&update.fields)
    }

    /// `EntityIdTest` declares no commands, so every command index is
    /// unknown and decoding reports it to the caller.
    pub fn from_request(command_index: u32, request: &SchemaCommandRequest) -> (r: Result<
        EntityIdTestCommandRequest,
        DecodeError,
    >)
        ensures
            (r matches Err(e) && e@ == DecodeErrorView::UnknownCommandIndex {
                component: "EntityIdTest"@,
                command_index,
            }),
    {
        let _ = request;
        Err(DecodeError::UnknownCommandIndex { component: "EntityIdTest", command_index })
    }

    pub fn from_response(command_index: u32, response: &SchemaCommandResponse) -> (r: Result<
        EntityIdTestCommandResponse,
        DecodeError,
    >)
        ensures
            (r matches Err(e) && e@ == DecodeErrorView::UnknownCommandIndex {
                component: "EntityIdTest"@,
                command_index,
            }),
    {
        let _ = response;
        Err(DecodeError::UnknownCommandIndex { component: "EntityIdTest", command_index })
    }

    pub fn to_data(data: &EntityIdTest) -> (r: Result<SchemaComponentData, DecodeError>)
        ensures
            r is Ok,
            r->Ok_0.fields@ == Self::spec_encode(data@),
    {
        let mut serialized = SchemaComponentData::new();
        EntityIdTest::to_type(data, &mut serialized.fields)?;
        proof {
            assert(serialized.fields@ =~= Self::spec_encode(data@));
        }
        Ok(serialized)
    }

    pub fn to_update(update: &EntityIdTestUpdate) -> (r: Result<
        SchemaComponentUpdate,
        DecodeError,
    >)
        ensures
            r is Ok,
            r->Ok_0.fields@ == EntityIdTestUpdate::spec_encode(update@),
    {
        let mut serialized = SchemaComponentUpdate::new();
        EntityIdTestUpdate::to_type(update, &mut serialized.fields)?;
        proof {
            assert(serialized.fields@ =~= EntityIdTestUpdate::spec_encode(update@));
        }
        Ok(serialized)
    }
}

impl EntityIdTestUpdate {
    pub open spec fn spec_encode(v: EntityIdTestUpdateView) -> Seq<(u32, FieldValue)> {
        match v.eid {
            Some(e) => seq![(1u32, FieldValue::EntityId(e.id))],
            None => Seq::empty(),
        }
    }

    pub open spec fn spec_decode(s: Seq<(u32, FieldValue)>) -> Result<
        EntityIdTestUpdateView,
        DecodeErrorView,
    > {
        Ok(
            EntityIdTestUpdateView {
                eid: if field_of(s, 1).len() > 0 {
                    Some(EntityId { id: entity_id_field(s, 1) })
                } else {
                    None
                },
            },
        )
    }

    pub fn from_type(input: &SchemaObject) -> (r: Result<EntityIdTestUpdate, DecodeError>)
        ensures
            decodes_to(r, Self::spec_decode(input@)),
    {
        let eid = match input.get_first(1) {
            Some(SchemaValue::EntityId(e)) => Some(*e),
            Some(_) => Some(EntityId::new(0)),
            None => None,
        };
        Ok(EntityIdTestUpdate { eid })
    }

    pub fn to_type(input: &EntityIdTestUpdate, output: &mut SchemaObject) -> (r: Result<
        (),
        DecodeError,
    >)
        ensures
            r is Ok,
            final(output)@ == old(output)@ + Self::spec_encode(input@),
    {
        if let Some(value) = input.eid {
            output.add_entity_id(1, value);
        }
        proof {
            assert(final(output)@ =~= old(output)@ + Self::spec_encode(input@));
        }
        Ok(())
    }

    /// Merging one update into another keeps the later writer per field.
    pub fn merge(&mut self, update: EntityIdTestUpdate)
        ensures
            final(self)@.eid == (match update@.eid {
                Some(v) => Some(v),
                None => old(self)@.eid,
            }),
    {
        if update.eid.is_some() {
            self.eid = update.eid;
        }
    }
}

/// `EntityIdTest` declares no commands, so no value of this type is ever
/// produced; the placeholder variant only keeps the type inhabited.
#[derive(Debug, Clone)]
pub enum EntityIdTestCommandRequest {
    NoCommands,
}

#[derive(Debug, Clone)]
pub enum EntityIdTestCommandResponse {
    NoCommands,
}

/// Serializing an entity-id component value and decoding the result
/// returns the value.
pub proof fn lemma_entity_id_test_roundtrip(v: EntityIdTestView)
    ensures
        EntityIdTest::spec_decode(EntityIdTest::spec_encode(v)) == Ok::<
            EntityIdTestView,
            DecodeErrorView,
        >(v),
{
    broadcast use crate::schema::lemma_field_of_push;

    let s0 = Seq::<(u32, FieldValue)>::empty();
    let p = (1u32, FieldValue::EntityId(v.eid.id));
    assert(EntityIdTest::spec_encode(v) =~= s0.push(p));
    assert(field_of(s0.push(p), 1) =~= seq![p.1]);
}

/// A component holding one enum field.
#[derive(Debug, Clone)]
pub struct EnumTestComponent {
    pub test: TestEnum,
}

pub struct EnumTestComponentView {
    pub test: TestEnum,
}

impl View for EnumTestComponent {
    type V = EnumTestComponentView;

    open spec fn view(&self) -> EnumTestComponentView {
        EnumTestComponentView { test: self.test }
    }
}

#[derive(Debug, Clone, Default)]
pub struct EnumTestComponentUpdate {
    pub test: Option<TestEnum>,
}

pub struct EnumTestComponentUpdateView {
    pub test: Option<TestEnum>,
}

impl View for EnumTestComponentUpdate {
    type V = EnumTestComponentUpdateView;

    open spec fn view(&self) -> EnumTestComponentUpdateView {
        EnumTestComponentUpdateView { test: self.test }
    }
}

impl EnumTestComponent {
    pub open spec fn spec_encode(v: EnumTestComponentView) -> Seq<(u32, FieldValue)> {
        seq![(1u32, FieldValue::Enum(v.test.spec_as_u32()))]
    }

    /// An enum value outside the declared set is fatal: there is no
    /// unknown-variant fallback.
    pub open spec fn spec_decode(s: Seq<(u32, FieldValue)>) -> Result<
        EnumTestComponentView,
        DecodeErrorView,
    > {
        if enum_field(s, 1) < 2 {
            Ok(EnumTestComponentView { test: TestEnum::spec_from(enum_field(s, 1)) })
        } else {
            Err(
                DecodeErrorView::UnknownEnumValue {
                    enum_name: "TestEnum"@,
                    field_id: 1,
                    value: enum_field(s, 1),
                },
            )
        }
    }

    pub fn from_type(input: &SchemaObject) -> (r: Result<EnumTestComponent, DecodeError>)
        ensures
            decodes_to(r, Self::spec_decode(input@)),
    {
        let value = match input.get_first(1) {
            Some(SchemaValue::Enum(v)) => *v,
            _ => 0u32,
        };
        if value >= 2 {
            return Err(DecodeError::UnknownEnumValue { enum_name: "TestEnum", field_id: 1, value });
        }
        Ok(EnumTestComponent { test: TestEnum::from(value) })
    }

    pub fn to_type(input: &EnumTestComponent, output: &mut SchemaObject) -> (r: Result<
        (),
        DecodeError,
    >)
        ensures
            r is Ok,
            final(output)@ == old(output)@ + Self::spec_encode(input@),
    {
        output.add_enum_value(1, input.test.as_u32());
        proof {
            assert(final(output)@ =~= old(output)@ + Self::spec_encode(input@));
        }
        Ok(())
    }

    /// Whole-field merge: a present value replaces the held one.
    pub fn merge(&mut self, update: EnumTestComponentUpdate)
        ensures
            final(self)@.test == (match update@.test {
                Some(v) => v,
                None => old(self)@.test,
            }),
    {
        if let Some(value) = update.test {
            self.test = value;
        }
    }

    pub fn from_data(data: &SchemaComponentData) -> (r: Result<EnumTestComponent, DecodeError>)
        ensures
            decodes_to(r, Self::spec_decode(data.fields@)),
    {
        EnumTestComponent::from_type(&data.fields)
    }

    pub fn from_update(update: &SchemaComponentUpdate) -> (r: Result<
        EnumTestComponentUpdate,
        DecodeError,
    >)
        ensures
            decodes_to(r, EnumTestComponentUpdate::spec_decode(update.fields@)),
    {
        EnumTestComponentUpdate::from_type(&update.fields)
    }

    /// `EnumTestComponent` declares no commands, so every command index is
    /// unknown and decoding reports it to the caller.
    pub fn from_request(command_index: u32, request: &SchemaCommandRequest) -> (r: Result<
        EnumTestComponentCommandRequest,
        DecodeError,
    >)
        ensures
            (r matches Err(e) && e@ == DecodeErrorView::UnknownCommandIndex {
                component: "EnumTestComponent"@,
                command_index,
            }),
    {
        let _ = request;
        Err(DecodeError::UnknownCommandIndex { component: "EnumTestComponent", command_index })
    }

    pub fn from_response(command_index: u32, response: &SchemaCommandResponse) -> (r: Result<
        EnumTestComponentCommandResponse,
        DecodeError,
    >)
        ensures
            (r matches Err(e) && e@ == DecodeErrorView::UnknownCommandIndex {
                component: "EnumTestComponent"@,
                command_index,
            }),
    {
        let _ = response;
        Err(DecodeError::UnknownCommandIndex { component: "EnumTestComponent", command_index })
    }

    pub fn to_data(data: &EnumTestComponent) -> (r: Result<SchemaComponentData, DecodeError>)
        ensures
            r is Ok,
            r->Ok_0.fields@ == Self::spec_encode(data@),
    {
        let mut serialized = SchemaComponentData::new();
        EnumTestComponent::to_type(data, &mut serialized.fields)?;
        proof {
            assert(serialized.fields@ =~= Self::spec_encode(data@));
        }
        Ok(serialized)
    }

    pub fn to_update(update: &EnumTestComponentUpdate) -> (r: Result<
        SchemaComponentUpdate,
        DecodeError,
    >)
        ensures
            r is Ok,
            r->Ok_0.fields@ == EnumTestComponentUpdate::spec_encode(update@),
    {
        let mut serialized = SchemaComponentUpdate::new();
        EnumTestComponentUpdate::to_type(update, &mut serialized.fields)?;
        proof {
            assert(serialized.fields@ =~= EnumTestComponentUpdate::spec_encode(update@));
        }
        Ok(serialized)
    }
}

impl EnumTestComponentUpdate {
    pub open spec fn spec_encode(v: EnumTestComponentUpdateView) -> Seq<(u32, FieldValue)> {
        match v.test {
            Some(e) => seq![(1u32, FieldValue::Enum(e.spec_as_u32()))],
            None => Seq::empty(),
        }
    }

    pub open spec fn spec_decode(s: Seq<(u32, FieldValue)>) -> Result<
        EnumTestComponentUpdateView,
        DecodeErrorView,
    > {
        if field_of(s, 1).len() > 0 {
            if enum_field(s, 1) < 2 {
                Ok(EnumTestComponentUpdateView { test: Some(TestEnum::spec_from(enum_field(s, 1))) })
            } else {
                Err(
                DecodeErrorView::UnknownEnumValue {
                    enum_name: "TestEnum"@,
                    field_id: 1,
                    value: enum_field(s, 1),
                },
            )
            }
        } else {
            Ok(EnumTestComponentUpdateView { test: None })
        }
    }

    pub fn from_type(input: &SchemaObject) -> (r: Result<EnumTestComponentUpdate, DecodeError>)
        ensures
            decodes_to(r, Self::spec_decode(input@)),
    {
        match input.get_first(1) {
            Some(v) => {
                let value = match v {
                    SchemaValue::Enum(n) => *n,
                    _ => 0u32,
                };
                if value >= 2 {
                    return Err(DecodeError::UnknownEnumValue { enum_name: "TestEnum", field_id: 1, value });
                }
                Ok(EnumTestComponentUpdate { test: Some(TestEnum::from(value)) })
            },
            None => Ok(EnumTestComponentUpdate { test: None }),
        }
    }

    pub fn to_type(input: &EnumTestComponentUpdate, output: &mut SchemaObject) -> (r: Result<
        (),
        DecodeError,
    >)
        ensures
            r is Ok,
            final(output)@ == old(output)@ + Self::spec_encode(input@),
    {
        if let Some(value) = input.test {
            output.add_enum_value(1, value.as_u32());
        }
        proof {
            assert(final(output)@ =~= old(output)@ + Self::spec_encode(input@));
        }
        Ok(())
    }

    /// Merging one update into another keeps the later writer per field.
    pub fn merge(&mut self, update: EnumTestComponentUpdate)
        ensures
            final(self)@.test == (match update@.test {
                Some(v) => Some(v),
                None => old(self)@.test,
            }),
    {
        if update.test.is_some() {
            self.test = update.test;
        }
    }
}

/// `EnumTestComponent` declares no commands, so no value of this type is
/// ever produced; the placeholder variant only keeps the type inhabited.
#[derive(Debug, Clone)]
pub enum EnumTestComponentCommandRequest {
    NoCommands,
}

#[derive(Debug, Clone)]
pub enum EnumTestComponentCommandResponse {
    NoCommands,
}

/// Serializing an enum component value and decoding the result returns
/// the value; decoding any numeric value outside the declared set fails
/// with the enum's own error.
pub proof fn lemma_enum_test_component_roundtrip(v: EnumTestComponentView)
    ensures
        EnumTestComponent::spec_decode(EnumTestComponent::spec_encode(v)) == Ok::<
            EnumTestComponentView,
            DecodeErrorView,
        >(v),
{
    broadcast use crate::schema::lemma_field_of_push;

    let s0 = Seq::<(u32, FieldValue)>::empty();
    let p = (1u32, FieldValue::Enum(v.test.spec_as_u32()));
    assert(EnumTestComponent::spec_encode(v) =~= s0.push(p));
    assert(field_of(s0.push(p), 1) =~= seq![p.1]);
    lemma_test_enum_roundtrip(v.test, 0);
}

/// The request and response unions of the `Example` component's test
/// command, each wrapping the command's payload type.
#[derive(Debug, Clone)]
pub enum ExampleCommandRequest {
    TestCommand(CommandData),
}

#[derive(Debug, Clone)]
pub enum ExampleCommandResponse {
    TestCommand(CommandData),
}

/// `Rotate` declares no commands, so no value of this type is ever
/// produced; the placeholder variant only keeps the type inhabited.
#[derive(Debug, Clone)]
pub enum RotateCommandRequest {
    NoCommands,
}

#[derive(Debug, Clone)]
pub enum RotateCommandResponse {
    NoCommands,
}

impl Component for EntityIdTest {
    open spec fn spec_id() -> u32 {
        2001
    }

    fn component_id() -> u32 {
        2001
    }

    fn serialize_data(&self) -> Result<SchemaComponentData, DecodeError> {
        EntityIdTest::to_data(self)
    }
}

impl Component for EnumTestComponent {
    open spec fn spec_id() -> u32 {
        2002
    }

    fn component_id() -> u32 {
        2002
    }

    fn serialize_data(&self) -> Result<SchemaComponentData, DecodeError> {
        EnumTestComponent::to_data(self)
    }
}

/// Serializing an entity-id update and decoding the result returns the
/// update, with present and absent fields preserved.
pub proof fn lemma_entity_id_test_update_roundtrip(v: EntityIdTestUpdateView)
    ensures
        EntityIdTestUpdate::spec_decode(EntityIdTestUpdate::spec_encode(v)) == Ok::<
            EntityIdTestUpdateView,
            DecodeErrorView,
        >(v),
{
    broadcast use crate::schema::lemma_field_of_push;

    let s0 = Seq::<(u32, FieldValue)>::empty();
    match v.eid {
        Some(e) => {
            let p = (1u32, FieldValue::EntityId(e.id));
            assert(EntityIdTestUpdate::spec_encode(v) =~= s0.push(p));
            assert(field_of(s0.push(p), 1) =~= seq![p.1]);
        },
        None => {
            assert(field_of(EntityIdTestUpdate::spec_encode(v), 1).len() == 0);
        },
    }
}

/// Serializing an enum update and decoding the result returns the
/// update, with present and absent fields preserved.
pub proof fn lemma_enum_test_component_update_roundtrip(v: EnumTestComponentUpdateView)
    ensures
        EnumTestComponentUpdate::spec_decode(EnumTestComponentUpdate::spec_encode(v)) == Ok::<
            EnumTestComponentUpdateView,
            DecodeErrorView,
        >(v),
{
    broadcast use crate::schema::lemma_field_of_push;

    let s0 = Seq::<(u32, FieldValue)>::empty();
    match v.test {
        Some(e) => {
            let p = (1u32, FieldValue::Enum(e.spec_as_u32()));
            assert(EnumTestComponentUpdate::spec_encode(v) =~= s0.push(p));
            assert(field_of(s0.push(p), 1) =~= seq![p.1]);
            lemma_test_enum_roundtrip(e, 0);
        },
        None => {
            assert(field_of(EnumTestComponentUpdate::spec_encode(v), 1).len() == 0);
        },
    }
}

/// Decoding an enum field with a number outside the declared set fails
/// fast, for every wire object: decoding succeeds exactly on declared
/// numbers, and the failure is the fatal unknown-enum-value report —
/// never the recoverable unknown-command-index one.
pub proof fn lemma_unknown_enum_value_fatal(s: Seq<(u32, FieldValue)>)
    ensures
        EnumTestComponent::spec_decode(s) is Ok <==> enum_field(s, 1) < 2,
        enum_field(s, 1) >= 2 ==> EnumTestComponent::spec_decode(s) == Err::<
            EnumTestComponentView,
            DecodeErrorView,
        >(
            DecodeErrorView::UnknownEnumValue {
                enum_name: "TestEnum"@,
                field_id: 1,
                value: enum_field(s, 1),
            },
        ),
        EnumTestComponent::spec_decode(s) matches Err(e) ==> e is UnknownEnumValue,
{
}

} // verus!
