//! A typed model of the schema wire format.
//!
//! Serialized component data is a sequence of `(field id, value)` entries;
//! a field may occur any number of times (absent, singular, or repeated).
//! Decoders read the entries of one field id in order of appearance;
//! encoders append entries.  Nested records are values that hold a whole
//! object of their own.

use vstd::prelude::*;
use vstd::string::StringExecFns;
use crate::ids::EntityId;
use crate::text;

verus! {

/// The mathematical value of one schema wire value.
pub enum FieldValue {
    Bool(bool),
    U32(u32),
    U64(u64),
    I32(i32),
    I64(i64),
    Enum(u32),
    Text(Seq<char>),
    Bytes(Seq<u8>),
    EntityId(i64),
    Object(Seq<(u32, FieldValue)>),
}

/// One schema wire value.
pub enum SchemaValue {
    Bool(bool),
    U32(u32),
    U64(u64),
    I32(i32),
    I64(i64),
    Enum(u32),
    Text(String),
    Bytes(Vec<u8>),
    EntityId(EntityId),
    Object(SchemaObject),
}

/// A serialized object: the ordered entries of all its fields.
pub struct SchemaObject {
    entries: Vec<(u32, SchemaValue)>,
}

pub open spec fn value_view(v: SchemaValue) -> FieldValue
    decreases v,
{
    match v {
        SchemaValue::Bool(b) => FieldValue::Bool(b),
        SchemaValue::U32(x) => FieldValue::U32(x),
        SchemaValue::U64(x) => FieldValue::U64(x),
        SchemaValue::I32(x) => FieldValue::I32(x),
        SchemaValue::I64(x) => FieldValue::I64(x),
        SchemaValue::Enum(x) => FieldValue::Enum(x),
        SchemaValue::Text(s) => FieldValue::Text(s@),
        SchemaValue::Bytes(b) => FieldValue::Bytes(b@),
        SchemaValue::EntityId(e) => FieldValue::EntityId(e.id),
        SchemaValue::Object(o) => FieldValue::Object(object_view(o)),
    }
}

pub closed spec fn entries_view(s: Seq<(u32, SchemaValue)>) -> Seq<(u32, FieldValue)>
    decreases s,
{
    if s.len() == 0 {
        Seq::empty()
    } else {
        entries_view(s.drop_last()).push((s.last().0, value_view(s.last().1)))
    }
}

pub closed spec fn object_view(o: SchemaObject) -> Seq<(u32, FieldValue)>
    decreases o,
{
    entries_view(o.entries@)
}

/// The view of an entry sequence is its pointwise view.
pub broadcast proof fn lemma_entries_view(s: Seq<(u32, SchemaValue)>)
    ensures
        (#[trigger] entries_view(s)).len() == s.len(),
        forall|k: int|
            0 <= k < s.len() ==> entries_view(s)[k] == (s[k].0, value_view(s[k].1)),
    decreases s.len(),
{
    if s.len() > 0 {
        lemma_entries_view(s.drop_last());
    }
}

impl View for SchemaValue {
    type V = FieldValue;

    open spec fn view(&self) -> FieldValue {
        value_view(*self)
    }
}

impl View for SchemaObject {
    type V = Seq<(u32, FieldValue)>;

    open spec fn view(&self) -> Seq<(u32, FieldValue)> {
        object_view(*self)
    }
}

/// The values stored under field `id`, in order of appearance.
pub open spec fn field_of(s: Seq<(u32, FieldValue)>, id: u32) -> Seq<FieldValue>
    decreases s.len(),
{
    if s.len() == 0 {
        Seq::empty()
    } else {
        let rest = field_of(s.drop_last(), id);
        if s.last().0 == id {
            rest.push(s.last().1)
        } else {
            rest
        }
    }
}

pub broadcast proof fn lemma_field_of_push(s: Seq<(u32, FieldValue)>, p: (u32, FieldValue), id: u32)
    ensures
        #[trigger] field_of(s.push(p), id) == if p.0 == id {
            field_of(s, id).push(p.1)
        } else {
            field_of(s, id)
        },
{
    assert(s.push(p).drop_last() =~= s);
    assert(s.push(p).last() == p);
}

pub proof fn lemma_field_of_concat(a: Seq<(u32, FieldValue)>, b: Seq<(u32, FieldValue)>, id: u32)
    ensures
        field_of(a + b, id) == field_of(a, id) + field_of(b, id),
    decreases b.len(),
{
    if b.len() == 0 {
        assert(a + b =~= a);
        assert(field_of(a, id) + field_of(b, id) =~= field_of(a, id));
    } else {
        lemma_field_of_concat(a, b.drop_last(), id);
        assert((a + b).drop_last() =~= a + b.drop_last());
        assert((a + b).last() == b.last());
        if b.last().0 == id {
            assert(field_of(a, id) + field_of(b, id) =~= (field_of(a, id) + field_of(
                b.drop_last(),
                id,
            )).push(b.last().1));
        }
    }
}

// What a decoder makes of a wire value when it expects a given kind: a
// value of another kind reads as the kind's default, exactly as a missing
// field does.

pub open spec fn as_bool(v: FieldValue) -> bool {
    match v {
        FieldValue::Bool(b) => b,
        _ => false,
    }
}

pub open spec fn as_u32(v: FieldValue) -> u32 {
    match v {
        FieldValue::U32(x) => x,
        _ => 0,
    }
}

pub open spec fn as_u64(v: FieldValue) -> u64 {
    match v {
        FieldValue::U64(x) => x,
        _ => 0,
    }
}

pub open spec fn as_i32(v: FieldValue) -> i32 {
    match v {
        FieldValue::I32(x) => x,
        _ => 0,
    }
}

pub open spec fn as_i64(v: FieldValue) -> i64 {
    match v {
        FieldValue::I64(x) => x,
        _ => 0,
    }
}

pub open spec fn as_enum(v: FieldValue) -> u32 {
    match v {
        FieldValue::Enum(x) => x,
        _ => 0,
    }
}

pub open spec fn as_text(v: FieldValue) -> Seq<char> {
    match v {
        FieldValue::Text(s) => s,
        _ => Seq::empty(),
    }
}

pub open spec fn as_bytes(v: FieldValue) -> Seq<u8> {
    match v {
        FieldValue::Bytes(b) => b,
        _ => Seq::empty(),
    }
}

pub open spec fn as_entity_id(v: FieldValue) -> i64 {
    match v {
        FieldValue::EntityId(e) => e,
        _ => 0,
    }
}

pub open spec fn as_object(v: FieldValue) -> Seq<(u32, FieldValue)> {
    match v {
        FieldValue::Object(o) => o,
        _ => Seq::empty(),
    }
}

// The value a decoder reads for a singular field: the first entry of the
// field, or the kind's default when the field is absent.

pub open spec fn bool_field(s: Seq<(u32, FieldValue)>, id: u32) -> bool {
    if field_of(s, id).len() > 0 {
        as_bool(field_of(s, id)[0])
    } else {
        false
    }
}

pub open spec fn u32_field(s: Seq<(u32, FieldValue)>, id: u32) -> u32 {
    if field_of(s, id).len() > 0 {
        as_u32(field_of(s, id)[0])
    } else {
        0
    }
}

pub open spec fn u64_field(s: Seq<(u32, FieldValue)>, id: u32) -> u64 {
    if field_of(s, id).len() > 0 {
        as_u64(field_of(s, id)[0])
    } else {
        0
    }
}

pub open spec fn i32_field(s: Seq<(u32, FieldValue)>, id: u32) -> i32 {
    if field_of(s, id).len() > 0 {
        as_i32(field_of(s, id)[0])
    } else {
        0
    }
}

pub open spec fn i64_field(s: Seq<(u32, FieldValue)>, id: u32) -> i64 {
    if field_of(s, id).len() > 0 {
        as_i64(field_of(s, id)[0])
    } else {
        0
    }
}

pub open spec fn enum_field(s: Seq<(u32, FieldValue)>, id: u32) -> u32 {
    if field_of(s, id).len() > 0 {
        as_enum(field_of(s, id)[0])
    } else {
        0
    }
}

pub open spec fn text_field(s: Seq<(u32, FieldValue)>, id: u32) -> Seq<char> {
    if field_of(s, id).len() > 0 {
        as_text(field_of(s, id)[0])
    } else {
        Seq::empty()
    }
}

pub open spec fn bytes_field(s: Seq<(u32, FieldValue)>, id: u32) -> Seq<u8> {
    if field_of(s, id).len() > 0 {
        as_bytes(field_of(s, id)[0])
    } else {
        Seq::empty()
    }
}

pub open spec fn entity_id_field(s: Seq<(u32, FieldValue)>, id: u32) -> i64 {
    if field_of(s, id).len() > 0 {
        as_entity_id(field_of(s, id)[0])
    } else {
        0
    }
}

pub open spec fn object_field(s: Seq<(u32, FieldValue)>, id: u32) -> Seq<(u32, FieldValue)> {
    if field_of(s, id).len() > 0 {
        as_object(field_of(s, id)[0])
    } else {
        Seq::empty()
    }
}

impl SchemaObject {
    pub fn new() -> (r: SchemaObject)
        ensures
            r@ == Seq::<(u32, FieldValue)>::empty(),
    {
        let r = SchemaObject { entries: Vec::new() };
        proof {
            lemma_entries_view(r.entries@);
            assert(r@ =~= Seq::<(u32, FieldValue)>::empty());
        }
        r
    }

    /// How many entries field `id` holds.
    pub fn count(&self, id: u32) -> (r: usize)
        ensures
            r == field_of(self@, id).len(),
    {
        let mut n: usize = 0;
        let mut j: usize = 0;
        proof {
            lemma_entries_view(self.entries@);
            assert(self@.take(0) =~= Seq::<(u32, FieldValue)>::empty());
        }
        while j < self.entries.len()
            invariant
                j <= self.entries.len(),
                self@.len() == self.entries@.len(),
                n == field_of(self@.take(j as int), id).len(),
                n <= j,
            decreases self.entries.len() - j,
        {
            proof {
                lemma_entries_view(self.entries@);
                assert(self@.take(j + 1).drop_last() =~= self@.take(j as int));
                assert(self@.take(j + 1).last() == self@[j as int]);
                assert(self@[j as int].0 == self.entries@[j as int].0);
            }
            if self.entries[j].0 == id {
                n = n + 1;
            }
            j = j + 1;
        }
        proof {
            assert(self@.take(self.entries@.len() as int) =~= self@);
        }
        n
    }

    /// The first value of field `id`, if the field is present.
    pub fn get_first(&self, id: u32) -> (r: Option<&SchemaValue>)
        ensures
            match r {
                Some(v) => field_of(self@, id).len() > 0 && v@ == field_of(self@, id)[0],
                None => field_of(self@, id).len() == 0,
            },
    {
        let mut j: usize = 0;
        proof {
            lemma_entries_view(self.entries@);
            assert(self@.take(0) =~= Seq::<(u32, FieldValue)>::empty());
        }
        while j < self.entries.len()
            invariant
                j <= self.entries.len(),
                self@.len() == self.entries@.len(),
                field_of(self@.take(j as int), id).len() == 0,
            decreases self.entries.len() - j,
        {
            proof {
                lemma_entries_view(self.entries@);
                assert(self@.take(j + 1).drop_last() =~= self@.take(j as int));
                assert(self@.take(j + 1).last() == self@[j as int]);
                assert(self@[j as int] == (
                    self.entries@[j as int].0,
                    value_view(self.entries@[j as int].1),
                ));
            }
            if self.entries[j].0 == id {
                proof {
                    assert(field_of(self@.take(j + 1), id) == field_of(
                        self@.take(j as int),
                        id,
                    ).push(self@[j as int].1));
                    lemma_field_of_take_prefix(self@, id, j + 1);
                    assert(field_of(self@.take(j + 1), id)[0] == self@[j as int].1);
                    assert(field_of(self@, id)[0] == self@[j as int].1);
                }
                return Some(&self.entries[j].1);
            }
            j = j + 1;
        }
        proof {
            assert(self@.take(self.entries@.len() as int) =~= self@);
        }
        None
    }

    /// The `i`-th value of field `id`, if the field holds that many.
    pub fn get_at(&self, id: u32, i: usize) -> (r: Option<&SchemaValue>)
        ensures
            match r {
                Some(v) => i < field_of(self@, id).len() && v@ == field_of(self@, id)[i as int],
                None => i >= field_of(self@, id).len(),
            },
    {
        let mut n: usize = 0;
        let mut j: usize = 0;
        proof {
            lemma_entries_view(self.entries@);
            assert(self@.take(0) =~= Seq::<(u32, FieldValue)>::empty());
        }
        while j < self.entries.len()
            invariant
                j <= self.entries.len(),
                self@.len() == self.entries@.len(),
                n == field_of(self@.take(j as int), id).len(),
                n <= i,
            decreases self.entries.len() - j,
        {
            proof {
                lemma_entries_view(self.entries@);
                assert(self@.take(j + 1).drop_last() =~= self@.take(j as int));
                assert(self@.take(j + 1).last() == self@[j as int]);
                assert(self@[j as int] == (
                    self.entries@[j as int].0,
                    value_view(self.entries@[j as int].1),
                ));
            }
            if self.entries[j].0 == id {
                if n == i {
                    proof {
                        assert(field_of(self@.take(j + 1), id) == field_of(
                            self@.take(j as int),
                            id,
                        ).push(self@[j as int].1));
                        lemma_field_of_take_prefix(self@, id, j + 1);
                        assert(field_of(self@.take(j + 1), id)[i as int] == self@[j as int].1);
                        assert(field_of(self@, id)[i as int] == self@[j as int].1);
                    }
                    return Some(&self.entries[j].1);
                }
                n = n + 1;
            }
            j = j + 1;
        }
        proof {
            assert(self@.take(self.entries@.len() as int) =~= self@);
        }
        None
    }

    fn push_value(&mut self, id: u32, v: SchemaValue)
        ensures
            final(self)@ == old(self)@.push((id, value_view(v))),
    {
        let ghost prev = self@;
        self.entries.push((id, v));
        proof {
            lemma_entries_view(old(self).entries@);
            lemma_entries_view(self.entries@);
            assert(self@ =~= prev.push((id, value_view(v))));
        }
    }

    pub fn add_bool(&mut self, id: u32, v: bool)
        ensures
            final(self)@ == old(self)@.push((id, FieldValue::Bool(v))),
    {
        self.push_value(id, SchemaValue::Bool(v));
    }

    pub fn add_u32(&mut self, id: u32, v: u32)
        ensures
            final(self)@ == old(self)@.push((id, FieldValue::U32(v))),
    {
        self.push_value(id, SchemaValue::U32(v));
    }

    pub fn add_u64(&mut self, id: u32, v: u64)
        ensures
            final(self)@ == old(self)@.push((id, FieldValue::U64(v))),
    {
        self.push_value(id, SchemaValue::U64(v));
    }

    pub fn add_i32(&mut self, id: u32, v: i32)
        ensures
            final(self)@ == old(self)@.push((id, FieldValue::I32(v))),
    {
        self.push_value(id, SchemaValue::I32(v));
    }

    pub fn add_i64(&mut self, id: u32, v: i64)
        ensures
            final(self)@ == old(self)@.push((id, FieldValue::I64(v))),
    {
        self.push_value(id, SchemaValue::I64(v));
    }

    pub fn add_enum_value(&mut self, id: u32, v: u32)
        ensures
            final(self)@ == old(self)@.push((id, FieldValue::Enum(v))),
    {
        self.push_value(id, SchemaValue::Enum(v));
    }

    pub fn add_entity_id(&mut self, id: u32, v: EntityId)
        ensures
            final(self)@ == old(self)@.push((id, FieldValue::EntityId(v.id))),
    {
        self.push_value(id, SchemaValue::EntityId(v));
    }

    pub fn add_text(&mut self, id: u32, v: &str)
        ensures
            final(self)@ == old(self)@.push((id, FieldValue::Text(v@))),
    {
        self.push_value(id, SchemaValue::Text(String::from_str(v)));
    }

    pub fn add_bytes(&mut self, id: u32, v: Vec<u8>)
        ensures
            final(self)@ == old(self)@.push((id, FieldValue::Bytes(v@))),
    {
        self.push_value(id, SchemaValue::Bytes(v));
    }

    pub fn add_object(&mut self, id: u32, v: SchemaObject)
        ensures
            final(self)@ == old(self)@.push((id, FieldValue::Object(v@))),
    {
        self.push_value(id, SchemaValue::Object(v));
    }
}

/// When a prefix of `s` already holds entries of field `id`, those entries
/// stay the initial entries of the field in all of `s`.
pub proof fn lemma_field_of_take_prefix(s: Seq<(u32, FieldValue)>, id: u32, j: int)
    requires
        0 <= j <= s.len(),
    ensures
        field_of(s, id).len() >= field_of(s.take(j), id).len(),
        forall|k: int|
            0 <= k < field_of(s.take(j), id).len() ==> field_of(s, id)[k] == #[trigger] field_of(
                s.take(j),
                id,
            )[k],
{
    assert(s =~= s.take(j) + s.skip(j));
    lemma_field_of_concat(s.take(j), s.skip(j), id);
}

/// Relates an executable decode result to its specification: the decoder
/// returns exactly what the specification decodes, up to the view.
pub open spec fn decodes_to<T: View>(r: Result<T, DecodeError>, d: Result<
    T::V,
    DecodeErrorView,
>) -> bool {
    match r {
        Ok(v) => d == Ok::<T::V, DecodeErrorView>(v@),
        Err(e) => d == Err::<T::V, DecodeErrorView>(e@),
    }
}

/// In a sequence whose entries all carry one field id, the field holds
/// exactly the entries' values, in order.
pub proof fn lemma_field_of_uniform(s: Seq<(u32, FieldValue)>, id: u32)
    requires
        forall|k: int| 0 <= k < s.len() ==> (#[trigger] s[k]).0 == id,
    ensures
        field_of(s, id).len() == s.len(),
        forall|k: int| 0 <= k < s.len() ==> field_of(s, id)[k] == (#[trigger] s[k]).1,
    decreases s.len(),
{
    if s.len() > 0 {
        lemma_field_of_uniform(s.drop_last(), id);
        assert(s.last().0 == id);
        assert(field_of(s, id) == field_of(s.drop_last(), id).push(s.last().1));
        assert forall|k: int| 0 <= k < s.len() implies field_of(s, id)[k] == (#[trigger] s[k]).1 by {
            if k < s.len() - 1 {
                assert(s.drop_last()[k] == s[k]);
            } else {
                assert(s[k] == s.last());
            }
        }
    }
}

/// In a sequence with no entry of a field id, that field is empty.
pub proof fn lemma_field_of_absent(s: Seq<(u32, FieldValue)>, id: u32)
    requires
        forall|k: int| 0 <= k < s.len() ==> (#[trigger] s[k]).0 != id,
    ensures
        field_of(s, id).len() == 0,
    decreases s.len(),
{
    if s.len() > 0 {
        lemma_field_of_absent(s.drop_last(), id);
    }
}

/// The serialized data of one whole component value.
pub struct SchemaComponentData {
    pub fields: SchemaObject,
}

impl SchemaComponentData {
    pub fn new() -> (r: SchemaComponentData)
        ensures
            r.fields@ == Seq::<(u32, FieldValue)>::empty(),
    {
        SchemaComponentData { fields: SchemaObject::new() }
    }
}

/// The serialized form of one partial component update.
pub struct SchemaComponentUpdate {
    pub fields: SchemaObject,
}

impl SchemaComponentUpdate {
    pub fn new() -> (r: SchemaComponentUpdate)
        ensures
            r.fields@ == Seq::<(u32, FieldValue)>::empty(),
    {
        SchemaComponentUpdate { fields: SchemaObject::new() }
    }
}

/// The serialized payload of one command request.
pub struct SchemaCommandRequest {
    pub object: SchemaObject,
}

impl SchemaCommandRequest {
    pub fn new() -> (r: SchemaCommandRequest)
        ensures
            r.object@ == Seq::<(u32, FieldValue)>::empty(),
    {
        SchemaCommandRequest { object: SchemaObject::new() }
    }
}

/// The serialized payload of one command response.
pub struct SchemaCommandResponse {
    pub object: SchemaObject,
}

impl SchemaCommandResponse {
    pub fn new() -> (r: SchemaCommandResponse)
        ensures
            r.object@ == Seq::<(u32, FieldValue)>::empty(),
    {
        SchemaCommandResponse { object: SchemaObject::new() }
    }
}

/// Why a decoder rejected its input.
///
/// An out-of-range enum value means the data does not match the schema the
/// code was generated from: fatal for the caller.  An unknown command index
/// may only be version skew across a wire boundary: reported per call.
/// Each case names the entity it arose in, so a report can be read without
/// rerunning.
#[derive(Debug, Clone, Copy, PartialEq, Eq)]
pub enum DecodeError {
    /// A numeric enum value outside the declared value set.
    UnknownEnumValue { enum_name: &'static str, field_id: u32, value: u32 },
    /// A command index no command of the component declares.
    UnknownCommandIndex { component: &'static str, command_index: u32 },
}

pub enum DecodeErrorView {
    UnknownEnumValue { enum_name: Seq<char>, field_id: u32, value: u32 },
    UnknownCommandIndex { component: Seq<char>, command_index: u32 },
}

impl View for DecodeError {
    type V = DecodeErrorView;

    open spec fn view(&self) -> DecodeErrorView {
        match *self {
            DecodeError::UnknownEnumValue { enum_name, field_id, value } => {
                DecodeErrorView::UnknownEnumValue { enum_name: enum_name@, field_id, value }
            },
            DecodeError::UnknownCommandIndex { component, command_index } => {
                DecodeErrorView::UnknownCommandIndex { component: component@, command_index }
            },
        }
    }
}

impl DecodeError {
    pub fn message(&self) -> (s: String)
        ensures
            s@ == (match self@ {
                DecodeErrorView::UnknownEnumValue { enum_name, field_id, value } => {
                    "unknown value "@ + text::dec_digits(value as nat) + " for enum "@ + enum_name
                        + " in field "@ + text::dec_digits(field_id as nat)
                },
                DecodeErrorView::UnknownCommandIndex { component, command_index } => {
                    "unknown command index "@ + text::dec_digits(command_index as nat)
                        + " in component "@ + component
                },
            }),
    {
        match self {
            DecodeError::UnknownEnumValue { enum_name, field_id, value } => {
                let mut s = String::from_str("unknown value ");
                s.append(text::u32_to_dec(*value).as_str());
                s.append(" for enum ");
                s.append(enum_name);
                s.append(" in field ");
                s.append(text::u32_to_dec(*field_id).as_str());
                s
            },
            DecodeError::UnknownCommandIndex { component, command_index } => {
                let mut s = String::from_str("unknown command index ");
                s.append(text::u32_to_dec(*command_index).as_str());
                s.append(" in component ");
                s.append(component);
                s
            },
        }
    }
}

} // verus!
