//! Typed code for the components of the `improbable` standard package, as
//! the generator lays them out: a value record and a nullable update record
//! per component, whole-field merge, and command request/response dispatch
//! keyed by command index.

use vstd::prelude::*;
use vstd::string::StringExecFns;
use crate::id_map::{
    OrderedIdMap, lemma_spec_insert_append, sorted_keys, spec_insert,
};
use crate::entity::Component;
use crate::schema::{
    DecodeError, DecodeErrorView, FieldValue, SchemaCommandRequest, SchemaCommandResponse, SchemaComponentData,
    SchemaComponentUpdate, SchemaObject, SchemaValue, as_object, as_text, decodes_to, field_of,
    lemma_field_of_absent, lemma_field_of_concat, lemma_field_of_push, lemma_field_of_uniform,
    object_field, text_field, u32_field,
};

verus! {

/// Names the entity type of an entity.
#[derive(Debug, Clone)]
pub struct Metadata {
    pub entity_type: String,
}

pub struct MetadataView {
    pub entity_type: Seq<char>,
}

impl View for Metadata {
    type V = MetadataView;

    open spec fn view(&self) -> MetadataView {
        MetadataView { entity_type: self.entity_type@ }
    }
}

/// A partial update of [`Metadata`]: a present field overwrites, an absent
/// field leaves the target untouched.
#[derive(Debug, Clone, Default)]
pub struct MetadataUpdate {
    pub entity_type: Option<String>,
}

pub struct MetadataUpdateView {
    pub entity_type: Option<Seq<char>>,
}

impl View for MetadataUpdate {
    type V = MetadataUpdateView;

    open spec fn view(&self) -> MetadataUpdateView {
        MetadataUpdateView {
            entity_type: match self.entity_type {
                Some(ref s) => Some(s@),
                None => None,
            },
        }
    }
}

impl Metadata {
    pub open spec fn spec_encode(v: MetadataView) -> Seq<(u32, FieldValue)> {
        seq![(1u32, FieldValue::Text(v.entity_type))]
    }

    pub open spec fn spec_decode(s: Seq<(u32, FieldValue)>) -> Result<MetadataView, DecodeErrorView> {
        Ok(MetadataView { entity_type: text_field(s, 1) })
    }

    pub fn from_type(input: &SchemaObject) -> (r: Result<Metadata, DecodeError>)
        ensures
            decodes_to(r, Self::spec_decode(input@)),
    {
        let entity_type = match input.get_first(1) {
            Some(SchemaValue::Text(s)) => s.clone(),
            _ => String::new(),
        };
        Ok(Metadata { entity_type })
    }

    pub fn to_type(input: &Metadata, output: &mut SchemaObject) -> (r: Result<(), DecodeError>)
        ensures
            r is Ok,
            final(output)@ == old(output)@ + Self::spec_encode(input@),
    {
        output.add_text(1, input.entity_type.as_str());
        proof {
            assert(final(output)@ =~= old(output)@ + Self::spec_encode(input@));
        }
        Ok(())
    }

    /// Whole-field merge: a field present in the update overwrites, an
    /// absent field leaves the current value.
    pub fn merge(&mut self, update: MetadataUpdate)
        ensures
            final(self)@.entity_type == (match update@.entity_type {
                Some(t) => t,
                None => old(self)@.entity_type,
            }),
    {
        if let Some(value) = update.entity_type {
            self.entity_type = value;
        }
    }

    pub fn from_data(data: &SchemaComponentData) -> (r: Result<Metadata, DecodeError>)
        ensures
            decodes_to(r, Self::spec_decode(data.fields@)),
    {
        Metadata::from_type(&data.fields)
    }

    pub fn from_update(update: &SchemaComponentUpdate) -> (r: Result<MetadataUpdate, DecodeError>)
        ensures
            decodes_to(r, MetadataUpdate::spec_decode(update.fields@)),
    {
        MetadataUpdate::from_type(&update.fields)
    }

    /// `Metadata` declares no commands, so every command index is unknown
    /// and decoding reports it to the caller.
    pub fn from_request(command_index: u32, request: &SchemaCommandRequest) -> (r: Result<
        MetadataCommandRequest,
        DecodeError,
    >)
        ensures
            (r matches Err(e) && e@ == DecodeErrorView::UnknownCommandIndex {
                component: "Metadata"@,
                command_index,
            }),
    {
        let _ = request;
        Err(DecodeError::UnknownCommandIndex { component: "Metadata", command_index })
    }

    pub fn from_response(command_index: u32, response: &SchemaCommandResponse) -> (r: Result<
        MetadataCommandResponse,
        DecodeError,
    >)
        ensures
            (r matches Err(e) && e@ == DecodeErrorView::UnknownCommandIndex {
                component: "Metadata"@,
                command_index,
            }),
    {
        let _ = response;
        Err(DecodeError::UnknownCommandIndex { component: "Metadata", command_index })
    }

    pub fn to_data(data: &Metadata) -> (r: Result<SchemaComponentData, DecodeError>)
        ensures
            r is Ok,
            r->Ok_0.fields@ == Self::spec_encode(data@),
    {
        let mut serialized = SchemaComponentData::new();
        Metadata::to_type(data, &mut serialized.fields)?;
        proof {
            assert(serialized.fields@ =~= Self::spec_encode(data@));
        }
        Ok(serialized)
    }

    pub fn to_update(update: &MetadataUpdate) -> (r: Result<SchemaComponentUpdate, DecodeError>)
        ensures
            r is Ok,
            r->Ok_0.fields@ == MetadataUpdate::spec_encode(update@),
    {
        let mut serialized = SchemaComponentUpdate::new();
        MetadataUpdate::to_type(update, &mut serialized.fields)?;
        proof {
            assert(serialized.fields@ =~= MetadataUpdate::spec_encode(update@));
        }
        Ok(serialized)
    }




}

impl MetadataUpdate {
    pub open spec fn spec_encode(v: MetadataUpdateView) -> Seq<(u32, FieldValue)> {
        match v.entity_type {
            Some(t) => seq![(1u32, FieldValue::Text(t))],
            None => Seq::empty(),
        }
    }

    pub open spec fn spec_decode(s: Seq<(u32, FieldValue)>) -> Result<
        MetadataUpdateView,
        DecodeErrorView,
    > {
        Ok(
            MetadataUpdateView {
                entity_type: if field_of(s, 1).len() > 0 {
                    Some(text_field(s, 1))
                } else {
                    None
                },
            },
        )
    }

    pub fn from_type(input: &SchemaObject) -> (r: Result<MetadataUpdate, DecodeError>)
        ensures
            decodes_to(r, Self::spec_decode(input@)),
    {
        let mut output = MetadataUpdate { entity_type: None };
        if input.count(1) > 0 {
            let value = match input.get_first(1) {
                Some(SchemaValue::Text(s)) => s.clone(),
                _ => String::new(),
            };
            output.entity_type = Some(value);
        }
        Ok(output)
    }

    pub fn to_type(input: &MetadataUpdate, output: &mut SchemaObject) -> (r: Result<
        (),
        DecodeError,
    >)
        ensures
            r is Ok,
            final(output)@ == old(output)@ + Self::spec_encode(input@),
    {
        if let Some(ref value) = input.entity_type {
            output.add_text(1, value.as_str());
        }
        proof {
            assert(final(output)@ =~= old(output)@ + Self::spec_encode(input@));
        }
        Ok(())
    }

    /// Merging one update into another keeps the later writer per field.
    pub fn merge(&mut self, update: MetadataUpdate)
        ensures
            final(self)@.entity_type == (match update@.entity_type {
                Some(t) => Some(t),
                None => old(self)@.entity_type,
            }),
    {
        if update.entity_type.is_some() {
            self.entity_type = update.entity_type;
        }
    }
}

/// `Metadata` declares no commands, so no value of this type is ever
/// produced; the placeholder variant only keeps the type inhabited.
#[derive(Debug, Clone)]
pub enum MetadataCommandRequest {
    NoCommands,
}

#[derive(Debug, Clone)]
pub enum MetadataCommandResponse {
    NoCommands,
}

/// Serializing a metadata value and decoding the result returns the value.
pub proof fn lemma_metadata_roundtrip(v: MetadataView)
    ensures
        Metadata::spec_decode(Metadata::spec_encode(v)) == Ok::<MetadataView, DecodeErrorView>(v),
{
    broadcast use lemma_field_of_push;

    let s0 = Seq::<(u32, FieldValue)>::empty();
    let p = (1u32, FieldValue::Text(v.entity_type));
    assert(Metadata::spec_encode(v) =~= s0.push(p));
    assert(field_of(s0.push(p), 1) =~= seq![FieldValue::Text(v.entity_type)]);
}

/// Serializing an update and decoding the result returns the update, with
/// present and absent fields preserved.
pub proof fn lemma_metadata_update_roundtrip(v: MetadataUpdateView)
    ensures
        MetadataUpdate::spec_decode(MetadataUpdate::spec_encode(v)) == Ok::<
            MetadataUpdateView,
            DecodeErrorView,
        >(v),
{
    broadcast use lemma_field_of_push;

    let s0 = Seq::<(u32, FieldValue)>::empty();
    match v.entity_type {
        Some(t) => {
            let p = (1u32, FieldValue::Text(t));
            assert(MetadataUpdate::spec_encode(v) =~= s0.push(p));
            assert(field_of(s0.push(p), 1) =~= seq![FieldValue::Text(t)]);
        },
        None => {
            assert(field_of(MetadataUpdate::spec_encode(v), 1).len() == 0);
        },
    }
}

/// Marks an entity as persisted across snapshots.  The component carries
/// no fields.
#[derive(Debug, Clone)]
pub struct Persistence {

}

pub struct PersistenceView {

}

impl View for Persistence {
    type V = PersistenceView;

    open spec fn view(&self) -> PersistenceView {
        PersistenceView {  }
    }
}

#[derive(Debug, Clone, Default)]
pub struct PersistenceUpdate {

}

pub struct PersistenceUpdateView {

}

impl View for PersistenceUpdate {
    type V = PersistenceUpdateView;

    open spec fn view(&self) -> PersistenceUpdateView {
        PersistenceUpdateView {  }
    }
}

impl Persistence {
    pub open spec fn spec_encode(v: PersistenceView) -> Seq<(u32, FieldValue)> {
        Seq::empty()
    }

    pub open spec fn spec_decode(s: Seq<(u32, FieldValue)>) -> Result<
        PersistenceView,
        DecodeErrorView,
    > {
        Ok(PersistenceView {  })
    }

    pub fn from_type(input: &SchemaObject) -> (r: Result<Persistence, DecodeError>)
        ensures
            decodes_to(r, Self::spec_decode(input@)),
    {
        let _ = input;
        Ok(Persistence {  })
    }

    pub fn to_type(input: &Persistence, output: &mut SchemaObject) -> (r: Result<(), DecodeError>)
        ensures
            r is Ok,
            final(output)@ == old(output)@ + Self::spec_encode(input@),
    {
        let _ = input;
        proof {
            assert(final(output)@ =~= old(output)@ + Self::spec_encode(input@));
        }
        Ok(())
    }

    pub fn merge(&mut self, update: PersistenceUpdate) {
        let _ = update;
    }

    pub fn from_data(data: &SchemaComponentData) -> (r: Result<Persistence, DecodeError>)
        ensures
            decodes_to(r, Self::spec_decode(data.fields@)),
    {
        Persistence::from_type(&data.fields)
    }

    pub fn from_update(update: &SchemaComponentUpdate) -> (r: Result<
        PersistenceUpdate,
        DecodeError,
    >)
        ensures
            decodes_to(r, PersistenceUpdate::spec_decode(update.fields@)),
    {
        PersistenceUpdate::from_type(&update.fields)
    }

    pub fn from_request(command_index: u32, request: &SchemaCommandRequest) -> (r: Result<
        PersistenceCommandRequest,
        DecodeError,
    >)
        ensures
            (r matches Err(e) && e@ == DecodeErrorView::UnknownCommandIndex {
                component: "Persistence"@,
                command_index,
            }),
    {
        let _ = request;
        Err(DecodeError::UnknownCommandIndex { component: "Persistence", command_index })
    }

    pub fn from_response(command_index: u32, response: &SchemaCommandResponse) -> (r: Result<
        PersistenceCommandResponse,
        DecodeError,
    >)
        ensures
            (r matches Err(e) && e@ == DecodeErrorView::UnknownCommandIndex {
                component: "Persistence"@,
                command_index,
            }),
    {
        let _ = response;
        Err(DecodeError::UnknownCommandIndex { component: "Persistence", command_index })
    }

    pub fn to_data(data: &Persistence) -> (r: Result<SchemaComponentData, DecodeError>)
        ensures
            r is Ok,
            r->Ok_0.fields@ == Self::spec_encode(data@),
    {
        let mut serialized = SchemaComponentData::new();
        Persistence::to_type(data, &mut serialized.fields)?;
        proof {
            assert(serialized.fields@ =~= Self::spec_encode(data@));
        }
        Ok(serialized)
    }

    pub fn to_update(update: &PersistenceUpdate) -> (r: Result<SchemaComponentUpdate, DecodeError>)
        ensures
            r is Ok,
            r->Ok_0.fields@ == PersistenceUpdate::spec_encode(update@),
    {
        let mut serialized = SchemaComponentUpdate::new();
        PersistenceUpdate::to_type(update, &mut serialized.fields)?;
        proof {
            assert(serialized.fields@ =~= PersistenceUpdate::spec_encode(update@));
        }
        Ok(serialized)
    }




}

impl PersistenceUpdate {
    pub open spec fn spec_encode(v: PersistenceUpdateView) -> Seq<(u32, FieldValue)> {
        Seq::empty()
    }

    pub open spec fn spec_decode(s: Seq<(u32, FieldValue)>) -> Result<
        PersistenceUpdateView,
        DecodeErrorView,
    > {
        Ok(PersistenceUpdateView {  })
    }

    pub fn from_type(input: &SchemaObject) -> (r: Result<PersistenceUpdate, DecodeError>)
        ensures
            decodes_to(r, Self::spec_decode(input@)),
    {
        let _ = input;
        Ok(PersistenceUpdate {  })
    }

    pub fn to_type(input: &PersistenceUpdate, output: &mut SchemaObject) -> (r: Result<
        (),
        DecodeError,
    >)
        ensures
            r is Ok,
            final(output)@ == old(output)@ + Self::spec_encode(input@),
    {
        let _ = input;
        proof {
            assert(final(output)@ =~= old(output)@ + Self::spec_encode(input@));
        }
        Ok(())
    }

    pub fn merge(&mut self, update: PersistenceUpdate) {
        let _ = update;
    }
}

#[derive(Debug, Clone)]
pub enum PersistenceCommandRequest {
    NoCommands,
}

#[derive(Debug, Clone)]
pub enum PersistenceCommandResponse {
    NoCommands,
}

/// One set of worker attributes.
#[derive(Debug, Clone)]
pub struct WorkerAttributeSet {
    pub attribute: Vec<String>,
}

pub struct WorkerAttributeSetView {
    pub attribute: Seq<Seq<char>>,
}

impl View for WorkerAttributeSet {
    type V = WorkerAttributeSetView;

    open spec fn view(&self) -> WorkerAttributeSetView {
        WorkerAttributeSetView {
            attribute: Seq::new(self.attribute@.len(), |i: int| self.attribute@[i]@),
        }
    }
}

impl WorkerAttributeSet {
    pub open spec fn spec_encode(v: WorkerAttributeSetView) -> Seq<(u32, FieldValue)> {
        Seq::new(v.attribute.len(), |i: int| (1u32, FieldValue::Text(v.attribute[i])))
    }

    pub open spec fn spec_decode(s: Seq<(u32, FieldValue)>) -> Result<
        WorkerAttributeSetView,
        DecodeErrorView,
    > {
        Ok(
            WorkerAttributeSetView {
                attribute: Seq::new(field_of(s, 1).len(), |i: int| as_text(field_of(s, 1)[i])),
            },
        )
    }

    pub fn from_type(input: &SchemaObject) -> (r: Result<WorkerAttributeSet, DecodeError>)
        ensures
            decodes_to(r, Self::spec_decode(input@)),
    {
        let n = input.count(1);
        let mut attribute: Vec<String> = Vec::new();
        let mut i: usize = 0;
        while i < n
            invariant
                i <= n,
                n == field_of(input@, 1).len(),
                attribute@.len() == i,
                forall|k: int| 0 <= k < i ==> attribute@[k]@ == as_text(field_of(input@, 1)[k]),
            decreases n - i,
        {
            let value = match input.get_at(1, i) {
                Some(SchemaValue::Text(s)) => s.clone(),
                _ => String::new(),
            };
            attribute.push(value);
            i = i + 1;
        }
        let r = WorkerAttributeSet { attribute };
        proof {
            assert(r@.attribute =~= Self::spec_decode(input@)->Ok_0.attribute);
        }
        Ok(r)
    }

    pub fn to_type(input: &WorkerAttributeSet, output: &mut SchemaObject) -> (r: Result<
        (),
        DecodeError,
    >)
        ensures
            r is Ok,
            final(output)@ == old(output)@ + Self::spec_encode(input@),
    {
        let mut i: usize = 0;
        while i < input.attribute.len()
            invariant
                i <= input.attribute.len(),
                output@ =~= old(output)@ + Seq::new(
                    i as nat,
                    |k: int| (1u32, FieldValue::Text(input.attribute@[k]@)),
                ),
            decreases input.attribute.len() - i,
        {
            output.add_text(1, input.attribute[i].as_str());
            proof {
                assert(output@ =~= old(output)@ + Seq::new(
                    (i + 1) as nat,
                    |k: int| (1u32, FieldValue::Text(input.attribute@[k]@)),
                ));
            }
            i = i + 1;
        }
        proof {
            assert(final(output)@ =~= old(output)@ + Self::spec_encode(input@));
        }
        Ok(())
    }
}

/// Serializing an attribute set and decoding the result returns the set.
pub proof fn lemma_worker_attribute_set_roundtrip(v: WorkerAttributeSetView)
    ensures
        WorkerAttributeSet::spec_decode(WorkerAttributeSet::spec_encode(v)) == Ok::<
            WorkerAttributeSetView,
            DecodeErrorView,
        >(v),
{
    let e = WorkerAttributeSet::spec_encode(v);
    lemma_field_of_uniform(e, 1);
    assert forall|i: int| 0 <= i < v.attribute.len() implies as_text(field_of(e, 1)[i])
        == v.attribute[i] by {
        assert(e[i] == (1u32, FieldValue::Text(v.attribute[i])));
    }
    assert(WorkerAttributeSet::spec_decode(e)->Ok_0.attribute =~= v.attribute);
}

/// Any of several alternative attribute sets satisfies the requirement.
#[derive(Debug, Clone)]
pub struct WorkerRequirementSet {
    pub attribute_set: Vec<WorkerAttributeSet>,
}

pub struct WorkerRequirementSetView {
    pub attribute_set: Seq<WorkerAttributeSetView>,
}

impl View for WorkerRequirementSet {
    type V = WorkerRequirementSetView;

    open spec fn view(&self) -> WorkerRequirementSetView {
        WorkerRequirementSetView {
            attribute_set: Seq::new(self.attribute_set@.len(), |i: int| self.attribute_set@[i]@),
        }
    }
}

impl WorkerRequirementSet {
    pub open spec fn spec_encode(v: WorkerRequirementSetView) -> Seq<(u32, FieldValue)> {
        Seq::new(
            v.attribute_set.len(),
            |i: int| (1u32, FieldValue::Object(WorkerAttributeSet::spec_encode(v.attribute_set[i]))),
        )
    }

    pub open spec fn spec_decode(s: Seq<(u32, FieldValue)>) -> Result<
        WorkerRequirementSetView,
        DecodeErrorView,
    > {
        Ok(
            WorkerRequirementSetView {
                attribute_set: Seq::new(
                    field_of(s, 1).len(),
                    |i: int| WorkerAttributeSet::spec_decode(as_object(field_of(s, 1)[i]))->Ok_0,
                ),
            },
        )
    }

    pub fn from_type(input: &SchemaObject) -> (r: Result<WorkerRequirementSet, DecodeError>)
        ensures
            decodes_to(r, Self::spec_decode(input@)),
    {
        let n = input.count(1);
        let mut attribute_set: Vec<WorkerAttributeSet> = Vec::new();
        let mut i: usize = 0;
        while i < n
            invariant
                i <= n,
                n == field_of(input@, 1).len(),
                attribute_set@.len() == i,
                forall|k: int|
                    0 <= k < i ==> attribute_set@[k]@ == WorkerAttributeSet::spec_decode(
                        as_object(field_of(input@, 1)[k]),
                    )->Ok_0,
            decreases n - i,
        {
            let element = match input.get_at(1, i) {
                Some(SchemaValue::Object(o)) => WorkerAttributeSet::from_type(o)?,
                _ => {
                    let empty = SchemaObject::new();
                    WorkerAttributeSet::from_type(&empty)?
                },
            };
            attribute_set.push(element);
            i = i + 1;
        }
        let r = WorkerRequirementSet { attribute_set };
        proof {
            assert(r@.attribute_set =~= Self::spec_decode(input@)->Ok_0.attribute_set);
        }
        Ok(r)
    }

    pub fn to_type(input: &WorkerRequirementSet, output: &mut SchemaObject) -> (r: Result<
        (),
        DecodeError,
    >)
        ensures
            r is Ok,
            final(output)@ == old(output)@ + Self::spec_encode(input@),
    {
        let mut i: usize = 0;
        while i < input.attribute_set.len()
            invariant
                i <= input.attribute_set.len(),
                output@ =~= old(output)@ + Seq::new(
                    i as nat,
                    |k: int| (
                        1u32,
                        FieldValue::Object(
                            WorkerAttributeSet::spec_encode(input.attribute_set@[k]@),
                        ),
                    ),
                ),
            decreases input.attribute_set.len() - i,
        {
            let mut element = SchemaObject::new();
            WorkerAttributeSet::to_type(&input.attribute_set[i], &mut element)?;
            output.add_object(1, element);
            proof {
                assert(output@ =~= old(output)@ + Seq::new(
                    (i + 1) as nat,
                    |k: int| (
                        1u32,
                        FieldValue::Object(
                            WorkerAttributeSet::spec_encode(input.attribute_set@[k]@),
                        ),
                    ),
                ));
            }
            i = i + 1;
        }
        proof {
            assert(final(output)@ =~= old(output)@ + Self::spec_encode(input@));
        }
        Ok(())
    }
}

/// Serializing a requirement set and decoding the result returns the set.
pub proof fn lemma_worker_requirement_set_roundtrip(v: WorkerRequirementSetView)
    ensures
        WorkerRequirementSet::spec_decode(WorkerRequirementSet::spec_encode(v)) == Ok::<
            WorkerRequirementSetView,
            DecodeErrorView,
        >(v),
{
    let e = WorkerRequirementSet::spec_encode(v);
    lemma_field_of_uniform(e, 1);
    let d = WorkerRequirementSet::spec_decode(e)->Ok_0.attribute_set;
    assert forall|i: int| 0 <= i < v.attribute_set.len() implies d[i] == v.attribute_set[i] by {
        assert(e[i] == (
            1u32,
            FieldValue::Object(WorkerAttributeSet::spec_encode(v.attribute_set[i])),
        ));
        lemma_worker_attribute_set_roundtrip(v.attribute_set[i]);
    }
    assert(d =~= v.attribute_set);
}

/// Read and per-component write access control of an entity.
#[derive(Debug)]
pub struct EntityAcl {
    pub read_acl: WorkerRequirementSet,
    pub component_write_acl: OrderedIdMap<WorkerRequirementSet>,
}

pub struct EntityAclView {
    pub read_acl: WorkerRequirementSetView,
    pub component_write_acl: Seq<(u32, WorkerRequirementSetView)>,
}

impl View for EntityAcl {
    type V = EntityAclView;

    open spec fn view(&self) -> EntityAclView {
        EntityAclView {
            read_acl: self.read_acl@,
            component_write_acl: self.component_write_acl@,
        }
    }
}

#[derive(Debug, Default)]
pub struct EntityAclUpdate {
    pub read_acl: Option<WorkerRequirementSet>,
    pub component_write_acl: Option<OrderedIdMap<WorkerRequirementSet>>,
}

pub struct EntityAclUpdateView {
    pub read_acl: Option<WorkerRequirementSetView>,
    pub component_write_acl: Option<Seq<(u32, WorkerRequirementSetView)>>,
}

impl View for EntityAclUpdate {
    type V = EntityAclUpdateView;

    open spec fn view(&self) -> EntityAclUpdateView {
        EntityAclUpdateView {
            read_acl: match self.read_acl {
                Some(ref v) => Some(v@),
                None => None,
            },
            component_write_acl: match self.component_write_acl {
                Some(ref m) => Some(m@),
                None => None,
            },
        }
    }
}

/// The wire entries of one write-acl map pair: the key under field 1, the
/// requirement set under field 2.
pub open spec fn spec_encode_acl_pair(p: (u32, WorkerRequirementSetView)) -> Seq<
    (u32, FieldValue),
> {
    seq![
        (1u32, FieldValue::U32(p.0)),
        (2u32, FieldValue::Object(WorkerRequirementSet::spec_encode(p.1))),
    ]
}

pub open spec fn spec_encode_acl_map(m: Seq<(u32, WorkerRequirementSetView)>) -> Seq<
    (u32, FieldValue),
> {
    Seq::new(m.len(), |i: int| (2u32, FieldValue::Object(spec_encode_acl_pair(m[i]))))
}

/// The key and value a decoder reads from one map-pair object.
pub open spec fn spec_decode_acl_pair(e: FieldValue) -> (u32, WorkerRequirementSetView) {
    (
        u32_field(as_object(e), 1),
        WorkerRequirementSet::spec_decode(object_field(as_object(e), 2))->Ok_0,
    )
}

/// Decoding folds the wire pairs into the key-sorted map in order of
/// appearance; a repeated key keeps the last value.
pub open spec fn spec_decode_acl_map(entries: Seq<FieldValue>) -> Seq<
    (u32, WorkerRequirementSetView),
>
    decreases entries.len(),
{
    if entries.len() == 0 {
        Seq::empty()
    } else {
        spec_insert(
            spec_decode_acl_map(entries.drop_last()),
            spec_decode_acl_pair(entries.last()).0,
            spec_decode_acl_pair(entries.last()).1,
        )
    }
}

impl EntityAcl {
    pub open spec fn spec_encode(v: EntityAclView) -> Seq<(u32, FieldValue)> {
        seq![(1u32, FieldValue::Object(WorkerRequirementSet::spec_encode(v.read_acl)))]
            + spec_encode_acl_map(v.component_write_acl)
    }

    pub open spec fn spec_decode(s: Seq<(u32, FieldValue)>) -> Result<EntityAclView, DecodeErrorView> {
        Ok(
            EntityAclView {
                read_acl: WorkerRequirementSet::spec_decode(object_field(s, 1))->Ok_0,
                component_write_acl: spec_decode_acl_map(field_of(s, 2)),
            },
        )
    }

    pub fn from_type(input: &SchemaObject) -> (r: Result<EntityAcl, DecodeError>)
        ensures
            decodes_to(r, Self::spec_decode(input@)),
            r matches Ok(acl) ==> acl.component_write_acl.wf(),
    {
        let read_acl = match input.get_first(1) {
            Some(SchemaValue::Object(o)) => WorkerRequirementSet::from_type(o)?,
            _ => {
                let empty = SchemaObject::new();
                WorkerRequirementSet::from_type(&empty)?
            },
        };
        let n = input.count(2);
        let mut component_write_acl: OrderedIdMap<WorkerRequirementSet> = OrderedIdMap::new();
        let mut i: usize = 0;
        proof {
            assert(field_of(input@, 2).take(0) =~= Seq::<FieldValue>::empty());
        }
        while i < n
            invariant
                i <= n,
                n == field_of(input@, 2).len(),
                component_write_acl.wf(),
                component_write_acl@ == spec_decode_acl_map(field_of(input@, 2).take(i as int)),
            decreases n - i,
        {
            let ghost fs = field_of(input@, 2);
            let (key, value) = match input.get_at(2, i) {
                Some(SchemaValue::Object(kv)) => {
                    let key = match kv.get_first(1) {
                        Some(SchemaValue::U32(k)) => *k,
                        _ => 0u32,
                    };
                    let value = match kv.get_first(2) {
                        Some(SchemaValue::Object(o)) => WorkerRequirementSet::from_type(o)?,
                        _ => {
                            let empty = SchemaObject::new();
                            WorkerRequirementSet::from_type(&empty)?
                        },
                    };
                    (key, value)
                },
                _ => {
                    let empty = SchemaObject::new();
                    (0u32, WorkerRequirementSet::from_type(&empty)?)
                },
            };
            proof {
                assert((key, value@) == spec_decode_acl_pair(fs[i as int]));
            }
            component_write_acl.insert(key, value);
            proof {
                assert(fs.take(i + 1).drop_last() =~= fs.take(i as int));
                assert(fs.take(i + 1).last() == fs[i as int]);
            }
            i = i + 1;
        }
        proof {
            assert(field_of(input@, 2).take(n as int) =~= field_of(input@, 2));
        }
        Ok(EntityAcl { read_acl, component_write_acl })
    }

    pub fn to_type(input: &EntityAcl, output: &mut SchemaObject) -> (r: Result<(), DecodeError>)
        ensures
            r is Ok,
            final(output)@ == old(output)@ + Self::spec_encode(input@),
    {
        let mut read_acl_obj = SchemaObject::new();
        WorkerRequirementSet::to_type(&input.read_acl, &mut read_acl_obj)?;
        output.add_object(1, read_acl_obj);
        let ghost mid = output@;
        proof {
            assert(mid =~= old(output)@ + seq![
                (1u32, FieldValue::Object(WorkerRequirementSet::spec_encode(input@.read_acl))),
            ]);
        }
        let mut i: usize = 0;
        while i < input.component_write_acl.len()
            invariant
                i <= input.component_write_acl@.len(),
                output@ =~= mid + spec_encode_acl_map(input.component_write_acl@.take(i as int)),
            decreases input.component_write_acl@.len() - i,
        {
            let entry = input.component_write_acl.index(i);
            let mut pair = SchemaObject::new();
            pair.add_u32(1, entry.0);
            let mut inner = SchemaObject::new();
            WorkerRequirementSet::to_type(&entry.1, &mut inner)?;
            pair.add_object(2, inner);
            proof {
                assert(pair@ =~= spec_encode_acl_pair(input.component_write_acl@[i as int]));
            }
            output.add_object(2, pair);
            proof {
                assert(input.component_write_acl@.take(i + 1).drop_last()
                    =~= input.component_write_acl@.take(i as int));
                assert(output@ =~= mid + spec_encode_acl_map(
                    input.component_write_acl@.take(i + 1),
                ));
            }
            i = i + 1;
        }
        proof {
            assert(input.component_write_acl@.take(input.component_write_acl@.len() as int)
                =~= input.component_write_acl@);
            assert(final(output)@ =~= old(output)@ + Self::spec_encode(input@));
        }
        Ok(())
    }

    /// Whole-field merge: each field present in the update replaces the
    /// target field as a whole; the map is never merged entry-wise.
    pub fn merge(&mut self, update: EntityAclUpdate)
        ensures
            final(self)@.read_acl == (match update@.read_acl {
                Some(v) => v,
                None => old(self)@.read_acl,
            }),
            final(self)@.component_write_acl == (match update@.component_write_acl {
                Some(m) => m,
                None => old(self)@.component_write_acl,
            }),
    {
        if let Some(value) = update.read_acl {
            self.read_acl = value;
        }
        if let Some(value) = update.component_write_acl {
            self.component_write_acl = value;
        }
    }

    pub fn from_data(data: &SchemaComponentData) -> (r: Result<EntityAcl, DecodeError>)
        ensures
            decodes_to(r, Self::spec_decode(data.fields@)),
    {
        EntityAcl::from_type(&data.fields)
    }

    pub fn from_update(update: &SchemaComponentUpdate) -> (r: Result<EntityAclUpdate, DecodeError>)
        ensures
            decodes_to(r, EntityAclUpdate::spec_decode(update.fields@)),
    {
        EntityAclUpdate::from_type(&update.fields)
    }

    /// `EntityAcl` declares no commands, so every command index is unknown
    /// and decoding reports it to the caller.
    pub fn from_request(command_index: u32, request: &SchemaCommandRequest) -> (r: Result<
        EntityAclCommandRequest,
        DecodeError,
    >)
        ensures
            (r matches Err(e) && e@ == DecodeErrorView::UnknownCommandIndex {
                component: "EntityAcl"@,
                command_index,
            }),
    {
        let _ = request;
        Err(DecodeError::UnknownCommandIndex { component: "EntityAcl", command_index })
    }

    pub fn from_response(command_index: u32, response: &SchemaCommandResponse) -> (r: Result<
        EntityAclCommandResponse,
        DecodeError,
    >)
        ensures
            (r matches Err(e) && e@ == DecodeErrorView::UnknownCommandIndex {
                component: "EntityAcl"@,
                command_index,
            }),
    {
        let _ = response;
        Err(DecodeError::UnknownCommandIndex { component: "EntityAcl", command_index })
    }

    pub fn to_data(data: &EntityAcl) -> (r: Result<SchemaComponentData, DecodeError>)
        ensures
            r is Ok,
            r->Ok_0.fields@ == Self::spec_encode(data@),
    {
        let mut serialized = SchemaComponentData::new();
        EntityAcl::to_type(data, &mut serialized.fields)?;
        proof {
            assert(serialized.fields@ =~= Self::spec_encode(data@));
        }
        Ok(serialized)
    }

    pub fn to_update(update: &EntityAclUpdate) -> (r: Result<SchemaComponentUpdate, DecodeError>)
        ensures
            r is Ok,
            r->Ok_0.fields@ == EntityAclUpdate::spec_encode(update@),
    {
        let mut serialized = SchemaComponentUpdate::new();
        EntityAclUpdate::to_type(update, &mut serialized.fields)?;
        proof {
            assert(serialized.fields@ =~= EntityAclUpdate::spec_encode(update@));
        }
        Ok(serialized)
    }
}

impl EntityAclUpdate {
    pub open spec fn spec_encode(v: EntityAclUpdateView) -> Seq<(u32, FieldValue)> {
        (match v.read_acl {
            Some(ra) => seq![(1u32, FieldValue::Object(WorkerRequirementSet::spec_encode(ra)))],
            None => Seq::empty(),
        }) + (match v.component_write_acl {
            Some(m) => spec_encode_acl_map(m),
            None => Seq::empty(),
        })
    }

    pub open spec fn spec_decode(s: Seq<(u32, FieldValue)>) -> Result<
        EntityAclUpdateView,
        DecodeErrorView,
    > {
        Ok(
            EntityAclUpdateView {
                read_acl: if field_of(s, 1).len() > 0 {
                    Some(WorkerRequirementSet::spec_decode(object_field(s, 1))->Ok_0)
                } else {
                    None
                },
                component_write_acl: if field_of(s, 2).len() > 0 {
                    Some(spec_decode_acl_map(field_of(s, 2)))
                } else {
                    None
                },
            },
        )
    }

    pub fn from_type(input: &SchemaObject) -> (r: Result<EntityAclUpdate, DecodeError>)
        ensures
            decodes_to(r, Self::spec_decode(input@)),
    {
        let read_acl = match input.get_first(1) {
            Some(SchemaValue::Object(o)) => Some(WorkerRequirementSet::from_type(o)?),
            Some(_) => {
                let empty = SchemaObject::new();
                Some(WorkerRequirementSet::from_type(&empty)?)
            },
            None => None,
        };
        let component_write_acl = if input.count(2) > 0 {
            let n = input.count(2);
            let mut m: OrderedIdMap<WorkerRequirementSet> = OrderedIdMap::new();
            let mut i: usize = 0;
            proof {
                assert(field_of(input@, 2).take(0) =~= Seq::<FieldValue>::empty());
            }
            while i < n
                invariant
                    i <= n,
                    n == field_of(input@, 2).len(),
                    m.wf(),
                    m@ == spec_decode_acl_map(field_of(input@, 2).take(i as int)),
                decreases n - i,
            {
                let ghost fs = field_of(input@, 2);
                let (key, value) = match input.get_at(2, i) {
                    Some(SchemaValue::Object(kv)) => {
                        let key = match kv.get_first(1) {
                            Some(SchemaValue::U32(k)) => *k,
                            _ => 0u32,
                        };
                        let value = match kv.get_first(2) {
                            Some(SchemaValue::Object(o)) => WorkerRequirementSet::from_type(o)?,
                            _ => {
                                let empty = SchemaObject::new();
                                WorkerRequirementSet::from_type(&empty)?
                            },
                        };
                        (key, value)
                    },
                    _ => {
                        let empty = SchemaObject::new();
                        (0u32, WorkerRequirementSet::from_type(&empty)?)
                    },
                };
                proof {
                    assert((key, value@) == spec_decode_acl_pair(fs[i as int]));
                }
                m.insert(key, value);
                proof {
                    assert(fs.take(i + 1).drop_last() =~= fs.take(i as int));
                    assert(fs.take(i + 1).last() == fs[i as int]);
                }
                i = i + 1;
            }
            proof {
                assert(field_of(input@, 2).take(n as int) =~= field_of(input@, 2));
            }
            Some(m)
        } else {
            None
        };
        Ok(EntityAclUpdate { read_acl, component_write_acl })
    }

    pub fn to_type(input: &EntityAclUpdate, output: &mut SchemaObject) -> (r: Result<
        (),
        DecodeError,
    >)
        ensures
            r is Ok,
            final(output)@ == old(output)@ + Self::spec_encode(input@),
    {
        if let Some(ref value) = input.read_acl {
            let mut obj = SchemaObject::new();
            WorkerRequirementSet::to_type(value, &mut obj)?;
            output.add_object(1, obj);
        }
        let ghost mid = output@;
        proof {
            assert(mid =~= old(output)@ + (match input@.read_acl {
                Some(ra) => seq![
                    (1u32, FieldValue::Object(WorkerRequirementSet::spec_encode(ra))),
                ],
                None => Seq::<(u32, FieldValue)>::empty(),
            }));
        }
        if let Some(ref m) = input.component_write_acl {
            let mut i: usize = 0;
            while i < m.len()
                invariant
                    i <= m@.len(),
                    output@ =~= mid + spec_encode_acl_map(m@.take(i as int)),
                decreases m@.len() - i,
            {
                let entry = m.index(i);
                let mut pair = SchemaObject::new();
                pair.add_u32(1, entry.0);
                let mut inner = SchemaObject::new();
                WorkerRequirementSet::to_type(&entry.1, &mut inner)?;
                pair.add_object(2, inner);
                proof {
                    assert(pair@ =~= spec_encode_acl_pair(m@[i as int]));
                }
                output.add_object(2, pair);
                proof {
                    assert(m@.take(i + 1).drop_last() =~= m@.take(i as int));
                    assert(output@ =~= mid + spec_encode_acl_map(m@.take(i + 1)));
                }
                i = i + 1;
            }
            proof {
                assert(m@.take(m@.len() as int) =~= m@);
            }
        }
        proof {
            assert(final(output)@ =~= old(output)@ + Self::spec_encode(input@));
        }
        Ok(())
    }

    /// Merging one update into another keeps the later writer per field.
    pub fn merge(&mut self, update: EntityAclUpdate)
        ensures
            final(self)@.read_acl == (match update@.read_acl {
                Some(v) => Some(v),
                None => old(self)@.read_acl,
            }),
            final(self)@.component_write_acl == (match update@.component_write_acl {
                Some(m) => Some(m),
                None => old(self)@.component_write_acl,
            }),
    {
        if update.read_acl.is_some() {
            self.read_acl = update.read_acl;
        }
        if update.component_write_acl.is_some() {
            self.component_write_acl = update.component_write_acl;
        }
    }
}

/// `EntityAcl` declares no commands, so no value of this type is ever
/// produced; the placeholder variant only keeps the type inhabited.
#[derive(Debug, Clone)]
pub enum EntityAclCommandRequest {
    NoCommands,
}

#[derive(Debug, Clone)]
pub enum EntityAclCommandResponse {
    NoCommands,
}

/// Decoding the wire pairs that a key-sorted map serialized to rebuilds
/// the same map.
pub proof fn lemma_acl_map_roundtrip(m: Seq<(u32, WorkerRequirementSetView)>)
    requires
        sorted_keys(m),
    ensures
        spec_decode_acl_map(field_of(spec_encode_acl_map(m), 2)) == m,
    decreases m.len(),
{
    let e = spec_encode_acl_map(m);
    lemma_field_of_uniform(e, 2);
    lemma_acl_map_entries_decode(m);
}

/// The fold of the encoded pairs, taken in order, reproduces a key-sorted
/// map: each key inserted is above all keys before it, so each insert
/// appends.
proof fn lemma_acl_map_entries_decode(m: Seq<(u32, WorkerRequirementSetView)>)
    requires
        sorted_keys(m),
    ensures
        spec_decode_acl_map(field_of(spec_encode_acl_map(m), 2)) == m,
    decreases m.len(),
{
    broadcast use crate::schema::lemma_field_of_push;

    let e = spec_encode_acl_map(m);
    lemma_field_of_uniform(e, 2);
    let fs = field_of(e, 2);
    if m.len() == 0 {
        assert(fs =~= Seq::<FieldValue>::empty());
        assert(spec_decode_acl_map(fs) =~= m);
    } else {
        let prefix = m.drop_last();
        assert(sorted_keys(prefix));
        lemma_acl_map_entries_decode(prefix);
        let ep = spec_encode_acl_map(prefix);
        lemma_field_of_uniform(ep, 2);
        let fsp = field_of(ep, 2);
        assert forall|k: int| 0 <= k < fsp.len() implies fsp[k] == fs[k] by {
            assert(ep[k] == e[k]);
        }
        assert(fs.drop_last() =~= fsp);
        assert(fs.last() == e[m.len() - 1].1);
        lemma_acl_pair_roundtrip(m.last());
        assert(spec_decode_acl_pair(fs.last()) == m.last());
        lemma_spec_insert_append(prefix, m.last().0, m.last().1);
        assert(spec_decode_acl_map(fs) =~= m);
    }
}

/// One encoded map pair decodes to its key and value.
pub proof fn lemma_acl_pair_roundtrip(p: (u32, WorkerRequirementSetView))
    ensures
        spec_decode_acl_pair(FieldValue::Object(spec_encode_acl_pair(p))) == p,
{
    broadcast use crate::schema::lemma_field_of_push;

    let s0 = Seq::<(u32, FieldValue)>::empty();
    let a = (1u32, FieldValue::U32(p.0));
    let b = (2u32, FieldValue::Object(WorkerRequirementSet::spec_encode(p.1)));
    assert(spec_encode_acl_pair(p) =~= s0.push(a).push(b));
    assert(field_of(s0.push(a).push(b), 1) =~= seq![FieldValue::U32(p.0)]);
    assert(field_of(s0.push(a).push(b), 2) =~= seq![
        FieldValue::Object(WorkerRequirementSet::spec_encode(p.1)),
    ]);
    lemma_worker_requirement_set_roundtrip(p.1);
}

/// Serializing an access-control value whose write-acl map is key-sorted
/// and decoding the result returns the value.
pub proof fn lemma_entity_acl_roundtrip(v: EntityAclView)
    requires
        sorted_keys(v.component_write_acl),
    ensures
        EntityAcl::spec_decode(EntityAcl::spec_encode(v)) == Ok::<EntityAclView, DecodeErrorView>(v),
{
    let head = seq![(1u32, FieldValue::Object(WorkerRequirementSet::spec_encode(v.read_acl)))];
    let tail = spec_encode_acl_map(v.component_write_acl);
    let e = EntityAcl::spec_encode(v);
    assert(e =~= head + tail);
    crate::schema::lemma_field_of_concat(head, tail, 1);
    crate::schema::lemma_field_of_concat(head, tail, 2);
    broadcast use crate::schema::lemma_field_of_push;

    let s0 = Seq::<(u32, FieldValue)>::empty();
    assert(head =~= s0.push(head[0]));
    assert(field_of(s0.push(head[0]), 1) =~= seq![head[0].1]);
    assert(field_of(s0.push(head[0]), 2) =~= Seq::<FieldValue>::empty());
    lemma_field_of_uniform(tail, 2);
    lemma_field_of_absent(tail, 1);
    assert(field_of(e, 1) =~= seq![head[0].1]);
    assert(field_of(e, 2) =~= field_of(tail, 2));
    lemma_worker_requirement_set_roundtrip(v.read_acl);
    lemma_acl_map_roundtrip(v.component_write_acl);
    assert(EntityAcl::spec_decode(e)->Ok_0.component_write_acl == v.component_write_acl);
}

/// `Interest` carries no commands; the placeholder variant only keeps the
/// type inhabited.
#[derive(Debug, Clone)]
pub enum InterestCommandRequest {
    NoCommands,
}

#[derive(Debug, Clone)]
pub enum InterestCommandResponse {
    NoCommands,
}

/// `Position` carries no commands; the placeholder variant only keeps the
/// type inhabited.
#[derive(Debug, Clone)]
pub enum PositionCommandRequest {
    NoCommands,
}

#[derive(Debug, Clone)]
pub enum PositionCommandResponse {
    NoCommands,
}

impl Component for EntityAcl {
    open spec fn spec_id() -> u32 {
        50
    }

    fn component_id() -> u32 {
        50
    }

    fn serialize_data(&self) -> Result<SchemaComponentData, DecodeError> {
        EntityAcl::to_data(self)
    }
}

impl Component for Metadata {
    open spec fn spec_id() -> u32 {
        53
    }

    fn component_id() -> u32 {
        53
    }

    fn serialize_data(&self) -> Result<SchemaComponentData, DecodeError> {
        Metadata::to_data(self)
    }
}

impl Component for Persistence {
    open spec fn spec_id() -> u32 {
        55
    }

    fn component_id() -> u32 {
        55
    }

    fn serialize_data(&self) -> Result<SchemaComponentData, DecodeError> {
        Persistence::to_data(self)
    }
}

/// Serializing an access-control update and decoding the result returns
/// the update, with present and absent fields preserved per field.
pub proof fn lemma_entity_acl_update_roundtrip(v: EntityAclUpdateView)
    requires
        v.component_write_acl matches Some(m) ==> (sorted_keys(m) && m.len() > 0),
    ensures
        EntityAclUpdate::spec_decode(EntityAclUpdate::spec_encode(v)) == Ok::<
            EntityAclUpdateView,
            DecodeErrorView,
        >(v),
{
    let a = (match v.read_acl {
        Some(ra) => seq![(1u32, FieldValue::Object(WorkerRequirementSet::spec_encode(ra)))],
        None => Seq::<(u32, FieldValue)>::empty(),
    });
    let b = (match v.component_write_acl {
        Some(m) => spec_encode_acl_map(m),
        None => Seq::<(u32, FieldValue)>::empty(),
    });
    let e = EntityAclUpdate::spec_encode(v);
    assert(e =~= a + b);
    lemma_field_of_concat(a, b, 1);
    lemma_field_of_concat(a, b, 2);
    broadcast use crate::schema::lemma_field_of_push;

    let s0 = Seq::<(u32, FieldValue)>::empty();
    match v.read_acl {
        Some(ra) => {
            assert(a =~= s0.push(a[0]));
            assert(field_of(s0.push(a[0]), 1) =~= seq![a[0].1]);
            assert(field_of(s0.push(a[0]), 2) =~= Seq::<FieldValue>::empty());
            lemma_worker_requirement_set_roundtrip(ra);
        },
        None => {
            assert(field_of(a, 1).len() == 0);
            assert(field_of(a, 2).len() == 0);
        },
    }
    match v.component_write_acl {
        Some(m) => {
            lemma_field_of_uniform(b, 2);
            lemma_field_of_absent(b, 1);
            lemma_acl_map_roundtrip(m);
            assert(field_of(e, 2) =~= field_of(b, 2));
        },
        None => {
            assert(field_of(b, 2).len() == 0);
            assert(field_of(b, 1).len() == 0);
        },
    }
    assert(field_of(e, 1) =~= field_of(a, 1));
}

/// Serializing the field-less persistence marker and decoding the result
/// returns it; its update round-trips the same way.
pub proof fn lemma_persistence_roundtrip(v: PersistenceView, u: PersistenceUpdateView)
    ensures
        Persistence::spec_decode(Persistence::spec_encode(v)) == Ok::<PersistenceView, DecodeErrorView>(
            v,
        ),
        PersistenceUpdate::spec_decode(PersistenceUpdate::spec_encode(u)) == Ok::<
            PersistenceUpdateView,
            DecodeErrorView,
        >(u),
{
}

} // verus!
