//! Typed code for the components of the restricted system package:
//! worker bookkeeping components, including the one component of the
//! example schema that declares a command.

use vstd::prelude::*;
use vstd::string::StringExecFns;
use crate::entity::Component;
use crate::schema::{
    DecodeError, DecodeErrorView, FieldValue, SchemaCommandRequest, SchemaCommandResponse, SchemaComponentData,
    SchemaComponentUpdate, SchemaObject, SchemaValue, bytes_field, decodes_to,
    enum_field, field_of, object_field, text_field, u32_field, u64_field,
};

verus! {

/// The connection state of a worker.
#[derive(Debug, Clone, Copy, PartialEq, Eq, Structural, Hash)]
#[allow(non_camel_case_types)]
pub enum Connection_ConnectionStatus {
    UNKNOWN,
    AWAITING_WORKER_CONNECTION,
    CONNECTED,
    DISCONNECTED,
}

impl Connection_ConnectionStatus {
    /// The status a numeric wire value names.  Values outside the declared
    /// set have no status: decoders reject them first.
    pub open spec fn spec_from(value: u32) -> Connection_ConnectionStatus {
        if value == 0 {
            Connection_ConnectionStatus::UNKNOWN
        } else if value == 1 {
            Connection_ConnectionStatus::AWAITING_WORKER_CONNECTION
        } else if value == 2 {
            Connection_ConnectionStatus::CONNECTED
        } else {
            Connection_ConnectionStatus::DISCONNECTED
        }
    }

    pub open spec fn spec_as_u32(self) -> u32 {
        match self {
            Connection_ConnectionStatus::UNKNOWN => 0,
            Connection_ConnectionStatus::AWAITING_WORKER_CONNECTION => 1,
            Connection_ConnectionStatus::CONNECTED => 2,
            Connection_ConnectionStatus::DISCONNECTED => 3,
        }
    }

    /// Converts a declared numeric value to its status.
    pub fn from(value: u32) -> (r: Connection_ConnectionStatus)
        requires
            value < 4,
        ensures
            r == Self::spec_from(value),
    {
        match value {
            0 => Connection_ConnectionStatus::UNKNOWN,
            1 => Connection_ConnectionStatus::AWAITING_WORKER_CONNECTION,
            2 => Connection_ConnectionStatus::CONNECTED,
            _ => Connection_ConnectionStatus::DISCONNECTED,
        }
    }

    pub fn as_u32(self) -> (r: u32)
        ensures
            r == self.spec_as_u32(),
    {
        match self {
            Connection_ConnectionStatus::UNKNOWN => 0,
            Connection_ConnectionStatus::AWAITING_WORKER_CONNECTION => 1,
            Connection_ConnectionStatus::CONNECTED => 2,
            Connection_ConnectionStatus::DISCONNECTED => 3,
        }
    }
}

/// The numeric conversions of a connection status invert one another.
pub proof fn lemma_connection_status_roundtrip(s: Connection_ConnectionStatus, value: u32)
    ensures
        Connection_ConnectionStatus::spec_from(s.spec_as_u32()) == s,
        value < 4 ==> Connection_ConnectionStatus::spec_from(value).spec_as_u32() == value,
{
}

/// The connection details of one worker.
#[derive(Debug, Clone)]
pub struct Connection {
    pub status: Connection_ConnectionStatus,
    pub data_latency_ms: u32,
    pub connected_since_utc: u64,
}

pub struct ConnectionView {
    pub status: Connection_ConnectionStatus,
    pub data_latency_ms: u32,
    pub connected_since_utc: u64,
}

impl View for Connection {
    type V = ConnectionView;

    open spec fn view(&self) -> ConnectionView {
        ConnectionView {
            status: self.status,
            data_latency_ms: self.data_latency_ms,
            connected_since_utc: self.connected_since_utc,
        }
    }
}

impl Connection {
    pub open spec fn spec_encode(v: ConnectionView) -> Seq<(u32, FieldValue)> {
        seq![
            (1u32, FieldValue::Enum(v.status.spec_as_u32())),
            (2u32, FieldValue::U32(v.data_latency_ms)),
            (3u32, FieldValue::U64(v.connected_since_utc)),
        ]
    }

    /// A status value outside the declared set is fatal: schema drift is
    /// never silently tolerated.
    pub open spec fn spec_decode(s: Seq<(u32, FieldValue)>) -> Result<ConnectionView, DecodeErrorView> {
        if enum_field(s, 1) < 4 {
            Ok(
                ConnectionView {
                    status: Connection_ConnectionStatus::spec_from(enum_field(s, 1)),
                    data_latency_ms: u32_field(s, 2),
                    connected_since_utc: u64_field(s, 3),
                },
            )
        } else {
            Err(
                DecodeErrorView::UnknownEnumValue {
                    enum_name: "Connection_ConnectionStatus"@,
                    field_id: 1,
                    value: enum_field(s, 1),
                },
            )
        }
    }

    pub fn from_type(input: &SchemaObject) -> (r: Result<Connection, DecodeError>)
        ensures
            decodes_to(r, Self::spec_decode(input@)),
    {
        let status_value = match input.get_first(1) {
            Some(SchemaValue::Enum(v)) => *v,
            _ => 0u32,
        };
        if status_value >= 4 {
            return Err(
                DecodeError::UnknownEnumValue {
                    enum_name: "Connection_ConnectionStatus",
                    field_id: 1,
                    value: status_value,
                },
            );
        }
        let data_latency_ms = match input.get_first(2) {
            Some(SchemaValue::U32(v)) => *v,
            _ => 0u32,
        };
        let connected_since_utc = match input.get_first(3) {
            Some(SchemaValue::U64(v)) => *v,
            _ => 0u64,
        };
        Ok(
            Connection {
                status: Connection_ConnectionStatus::from(status_value),
                data_latency_ms,
                connected_since_utc,
            },
        )
    }

    pub fn to_type(input: &Connection, output: &mut SchemaObject) -> (r: Result<(), DecodeError>)
        ensures
            r is Ok,
            final(output)@ == old(output)@ + Self::spec_encode(input@),
    {
        output.add_enum_value(1, input.status.as_u32());
        output.add_u32(2, input.data_latency_ms);
        output.add_u64(3, input.connected_since_utc);
        proof {
            assert(final(output)@ =~= old(output)@ + Self::spec_encode(input@));
        }
        Ok(())
    }
}

/// Serializing a connection value and decoding the result returns the
/// value.
pub proof fn lemma_connection_roundtrip(v: ConnectionView)
    ensures
        Connection::spec_decode(Connection::spec_encode(v)) == Ok::<ConnectionView, DecodeErrorView>(v),
{
    broadcast use crate::schema::lemma_field_of_push;

    let s0 = Seq::<(u32, FieldValue)>::empty();
    let a = (1u32, FieldValue::Enum(v.status.spec_as_u32()));
    let b = (2u32, FieldValue::U32(v.data_latency_ms));
    let c = (3u32, FieldValue::U64(v.connected_since_utc));
    let e = Connection::spec_encode(v);
    assert(e =~= s0.push(a).push(b).push(c));
    assert(field_of(s0.push(a).push(b).push(c), 1) =~= seq![a.1]);
    assert(field_of(s0.push(a).push(b).push(c), 2) =~= seq![b.1]);
    assert(field_of(s0.push(a).push(b).push(c), 3) =~= seq![c.1]);
    lemma_connection_status_roundtrip(v.status, 0);
}

/// The payload of the worker disconnect command request: no fields.
#[derive(Debug, Clone)]
pub struct DisconnectRequest {

}

pub struct DisconnectRequestView {

}

impl View for DisconnectRequest {
    type V = DisconnectRequestView;

    open spec fn view(&self) -> DisconnectRequestView {
        DisconnectRequestView {  }
    }
}

impl DisconnectRequest {
    pub open spec fn spec_encode(v: DisconnectRequestView) -> Seq<(u32, FieldValue)> {
        Seq::empty()
    }

    pub open spec fn spec_decode(s: Seq<(u32, FieldValue)>) -> Result<
        DisconnectRequestView,
        DecodeErrorView,
    > {
        Ok(DisconnectRequestView {  })
    }

    pub fn from_type(input: &SchemaObject) -> (r: Result<DisconnectRequest, DecodeError>)
        ensures
            decodes_to(r, Self::spec_decode(input@)),
    {
        let _ = input;
        Ok(DisconnectRequest {  })
    }

    pub fn to_type(input: &DisconnectRequest, output: &mut SchemaObject) -> (r: Result<
        (),
        DecodeError,
    >)
        ensures
            r is Ok,
            final(output)@ == old(output)@ + Self::spec_encode(input@),
    {
        let _ = input;
        proof {
            assert(final(output)@ =~= old(output)@ + Self::spec_encode(input@));
        }
        Ok(())
    }
}

/// The payload of the worker disconnect command response: no fields.
#[derive(Debug, Clone)]
pub struct DisconnectResponse {

}

pub struct DisconnectResponseView {

}

impl View for DisconnectResponse {
    type V = DisconnectResponseView;

    open spec fn view(&self) -> DisconnectResponseView {
        DisconnectResponseView {  }
    }
}

impl DisconnectResponse {
    pub open spec fn spec_encode(v: DisconnectResponseView) -> Seq<(u32, FieldValue)> {
        Seq::empty()
    }

    pub open spec fn spec_decode(s: Seq<(u32, FieldValue)>) -> Result<
        DisconnectResponseView,
        DecodeErrorView,
    > {
        Ok(DisconnectResponseView {  })
    }

    pub fn from_type(input: &SchemaObject) -> (r: Result<DisconnectResponse, DecodeError>)
        ensures
            decodes_to(r, Self::spec_decode(input@)),
    {
        let _ = input;
        Ok(DisconnectResponse {  })
    }

    pub fn to_type(input: &DisconnectResponse, output: &mut SchemaObject) -> (r: Result<
        (),
        DecodeError,
    >)
        ensures
            r is Ok,
            final(output)@ == old(output)@ + Self::spec_encode(input@),
    {
        let _ = input;
        proof {
            assert(final(output)@ =~= old(output)@ + Self::spec_encode(input@));
        }
        Ok(())
    }
}

/// The identity a player connected with.
#[derive(Debug, Clone)]
pub struct PlayerIdentity {
    pub player_identifier: String,
    pub provider: String,
    pub metadata: Vec<u8>,
}

pub struct PlayerIdentityView {
    pub player_identifier: Seq<char>,
    pub provider: Seq<char>,
    pub metadata: Seq<u8>,
}

impl View for PlayerIdentity {
    type V = PlayerIdentityView;

    open spec fn view(&self) -> PlayerIdentityView {
        PlayerIdentityView {
            player_identifier: self.player_identifier@,
            provider: self.provider@,
            metadata: self.metadata@,
        }
    }
}

impl PlayerIdentity {
    pub open spec fn spec_encode(v: PlayerIdentityView) -> Seq<(u32, FieldValue)> {
        seq![
            (1u32, FieldValue::Text(v.player_identifier)),
            (2u32, FieldValue::Text(v.provider)),
            (3u32, FieldValue::Bytes(v.metadata)),
        ]
    }

    pub open spec fn spec_decode(s: Seq<(u32, FieldValue)>) -> Result<
        PlayerIdentityView,
        DecodeErrorView,
    > {
        Ok(
            PlayerIdentityView {
                player_identifier: text_field(s, 1),
                provider: text_field(s, 2),
                metadata: bytes_field(s, 3),
            },
        )
    }

    pub fn from_type(input: &SchemaObject) -> (r: Result<PlayerIdentity, DecodeError>)
        ensures
            decodes_to(r, Self::spec_decode(input@)),
    {
        let player_identifier = match input.get_first(1) {
            Some(SchemaValue::Text(s)) => s.clone(),
            _ => String::new(),
        };
        let provider = match input.get_first(2) {
            Some(SchemaValue::Text(s)) => s.clone(),
            _ => String::new(),
        };
        let metadata = match input.get_first(3) {
            Some(SchemaValue::Bytes(b)) => b.clone(),
            _ => Vec::new(),
        };
        let r = PlayerIdentity { player_identifier, provider, metadata };
        proof {
            assert(r@.metadata =~= Self::spec_decode(input@)->Ok_0.metadata);
        }
        Ok(r)
    }

    pub fn to_type(input: &PlayerIdentity, output: &mut SchemaObject) -> (r: Result<
        (),
        DecodeError,
    >)
        ensures
            r is Ok,
            final(output)@ == old(output)@ + Self::spec_encode(input@),
    {
        output.add_text(1, input.player_identifier.as_str());
        output.add_text(2, input.provider.as_str());
        let metadata = input.metadata.clone();
        proof {
            assert(metadata@ =~= input.metadata@);
        }
        output.add_bytes(3, metadata);
        proof {
            assert(final(output)@ =~= old(output)@ + Self::spec_encode(input@));
        }
        Ok(())
    }
}

/// Serializing a player identity and decoding the result returns the
/// identity.
pub proof fn lemma_player_identity_roundtrip(v: PlayerIdentityView)
    ensures
        PlayerIdentity::spec_decode(PlayerIdentity::spec_encode(v)) == Ok::<
            PlayerIdentityView,
            DecodeErrorView,
        >(v),
{
    broadcast use crate::schema::lemma_field_of_push;

    let s0 = Seq::<(u32, FieldValue)>::empty();
    let a = (1u32, FieldValue::Text(v.player_identifier));
    let b = (2u32, FieldValue::Text(v.provider));
    let c = (3u32, FieldValue::Bytes(v.metadata));
    assert(PlayerIdentity::spec_encode(v) =~= s0.push(a).push(b).push(c));
    assert(field_of(s0.push(a).push(b).push(c), 1) =~= seq![a.1]);
    assert(field_of(s0.push(a).push(b).push(c), 2) =~= seq![b.1]);
    assert(field_of(s0.push(a).push(b).push(c), 3) =~= seq![c.1]);
}

/// A player's client worker.
#[derive(Debug, Clone)]
pub struct PlayerClient {
    pub player_identity: PlayerIdentity,
}

pub struct PlayerClientView {
    pub player_identity: PlayerIdentityView,
}

impl View for PlayerClient {
    type V = PlayerClientView;

    open spec fn view(&self) -> PlayerClientView {
        PlayerClientView { player_identity: self.player_identity@ }
    }
}

#[derive(Debug, Clone, Default)]
pub struct PlayerClientUpdate {
    pub player_identity: Option<PlayerIdentity>,
}

pub struct PlayerClientUpdateView {
    pub player_identity: Option<PlayerIdentityView>,
}

impl View for PlayerClientUpdate {
    type V = PlayerClientUpdateView;

    open spec fn view(&self) -> PlayerClientUpdateView {
        PlayerClientUpdateView {
            player_identity: match self.player_identity {
                Some(ref v) => Some(v@),
                None => None,
            },
        }
    }
}

impl PlayerClient {
    pub open spec fn spec_encode(v: PlayerClientView) -> Seq<(u32, FieldValue)> {
        seq![(1u32, FieldValue::Object(PlayerIdentity::spec_encode(v.player_identity)))]
    }

    pub open spec fn spec_decode(s: Seq<(u32, FieldValue)>) -> Result<
        PlayerClientView,
        DecodeErrorView,
    > {
        Ok(
            PlayerClientView {
                player_identity: PlayerIdentity::spec_decode(object_field(s, 1))->Ok_0,
            },
        )
    }

    pub fn from_type(input: &SchemaObject) -> (r: Result<PlayerClient, DecodeError>)
        ensures
            decodes_to(r, Self::spec_decode(input@)),
    {
        let player_identity = match input.get_first(1) {
            Some(SchemaValue::Object(o)) => PlayerIdentity::from_type(o)?,
            _ => {
                let empty = SchemaObject::new();
                PlayerIdentity::from_type(&empty)?
            },
        };
        Ok(PlayerClient { player_identity })
    }

    pub fn to_type(input: &PlayerClient, output: &mut SchemaObject) -> (r: Result<(), DecodeError>)
        ensures
            r is Ok,
            final(output)@ == old(output)@ + Self::spec_encode(input@),
    {
        let mut identity_obj = SchemaObject::new();
        PlayerIdentity::to_type(&input.player_identity, &mut identity_obj)?;
        output.add_object(1, identity_obj);
        proof {
            assert(final(output)@ =~= old(output)@ + Self::spec_encode(input@));
        }
        Ok(())
    }

    /// Whole-field merge: a present identity replaces the held one.
    pub fn merge(&mut self, update: PlayerClientUpdate)
        ensures
            final(self)@.player_identity == (match update@.player_identity {
                Some(v) => v,
                None => old(self)@.player_identity,
            }),
    {
        if let Some(value) = update.player_identity {
            self.player_identity = value;
        }
    }

    pub fn from_data(data: &SchemaComponentData) -> (r: Result<PlayerClient, DecodeError>)
        ensures
            decodes_to(r, Self::spec_decode(data.fields@)),
    {
        PlayerClient::from_type(&data.fields)
    }

    pub fn from_update(update: &SchemaComponentUpdate) -> (r: Result<
        PlayerClientUpdate,
        DecodeError,
    >)
        ensures
            decodes_to(r, PlayerClientUpdate::spec_decode(update.fields@)),
    {
        PlayerClientUpdate::from_type(&update.fields)
    }

    /// `PlayerClient` declares no commands, so every command index is
    /// unknown and decoding reports it to the caller.
    pub fn from_request(command_index: u32, request: &SchemaCommandRequest) -> (r: Result<
        PlayerClientCommandRequest,
        DecodeError,
    >)
        ensures
            (r matches Err(e) && e@ == DecodeErrorView::UnknownCommandIndex {
                component: "PlayerClient"@,
                command_index,
            }),
    {
        let _ = request;
        Err(DecodeError::UnknownCommandIndex { component: "PlayerClient", command_index })
    }

    pub fn from_response(command_index: u32, response: &SchemaCommandResponse) -> (r: Result<
        PlayerClientCommandResponse,
        DecodeError,
    >)
        ensures
            (r matches Err(e) && e@ == DecodeErrorView::UnknownCommandIndex {
                component: "PlayerClient"@,
                command_index,
            }),
    {
        let _ = response;
        Err(DecodeError::UnknownCommandIndex { component: "PlayerClient", command_index })
    }

    pub fn to_data(data: &PlayerClient) -> (r: Result<SchemaComponentData, DecodeError>)
        ensures
            r is Ok,
            r->Ok_0.fields@ == Self::spec_encode(data@),
    {
        let mut serialized = SchemaComponentData::new();
        PlayerClient::to_type(data, &mut serialized.fields)?;
        proof {
            assert(serialized.fields@ =~= Self::spec_encode(data@));
        }
        Ok(serialized)
    }

    pub fn to_update(update: &PlayerClientUpdate) -> (r: Result<SchemaComponentUpdate, DecodeError>)
        ensures
            r is Ok,
            r->Ok_0.fields@ == PlayerClientUpdate::spec_encode(update@),
    {
        let mut serialized = SchemaComponentUpdate::new();
        PlayerClientUpdate::to_type(update, &mut serialized.fields)?;
        proof {
            assert(serialized.fields@ =~= PlayerClientUpdate::spec_encode(update@));
        }
        Ok(serialized)
    }
}

impl PlayerClientUpdate {
    pub open spec fn spec_encode(v: PlayerClientUpdateView) -> Seq<(u32, FieldValue)> {
        match v.player_identity {
            Some(pi) => seq![(1u32, FieldValue::Object(PlayerIdentity::spec_encode(pi)))],
            None => Seq::empty(),
        }
    }

    pub open spec fn spec_decode(s: Seq<(u32, FieldValue)>) -> Result<
        PlayerClientUpdateView,
        DecodeErrorView,
    > {
        Ok(
            PlayerClientUpdateView {
                player_identity: if field_of(s, 1).len() > 0 {
                    Some(PlayerIdentity::spec_decode(object_field(s, 1))->Ok_0)
                } else {
                    None
                },
            },
        )
    }

    pub fn from_type(input: &SchemaObject) -> (r: Result<PlayerClientUpdate, DecodeError>)
        ensures
            decodes_to(r, Self::spec_decode(input@)),
    {
        let player_identity = match input.get_first(1) {
            Some(SchemaValue::Object(o)) => Some(PlayerIdentity::from_type(o)?),
            Some(_) => {
                let empty = SchemaObject::new();
                Some(PlayerIdentity::from_type(&empty)?)
            },
            None => None,
        };
        Ok(PlayerClientUpdate { player_identity })
    }

    pub fn to_type(input: &PlayerClientUpdate, output: &mut SchemaObject) -> (r: Result<
        (),
        DecodeError,
    >)
        ensures
            r is Ok,
            final(output)@ == old(output)@ + Self::spec_encode(input@),
    {
        if let Some(ref value) = input.player_identity {
            let mut obj = SchemaObject::new();
            PlayerIdentity::to_type(value, &mut obj)?;
            output.add_object(1, obj);
        }
        proof {
            assert(final(output)@ =~= old(output)@ + Self::spec_encode(input@));
        }
        Ok(())
    }

    /// Merging one update into another keeps the later writer per field.
    pub fn merge(&mut self, update: PlayerClientUpdate)
        ensures
            final(self)@.player_identity == (match update@.player_identity {
                Some(v) => Some(v),
                None => old(self)@.player_identity,
            }),
    {
        if update.player_identity.is_some() {
            self.player_identity = update.player_identity;
        }
    }
}

/// `PlayerClient` declares no commands, so no value of this type is ever
/// produced; the placeholder variant only keeps the type inhabited.
#[derive(Debug, Clone)]
pub enum PlayerClientCommandRequest {
    NoCommands,
}

#[derive(Debug, Clone)]
pub enum PlayerClientCommandResponse {
    NoCommands,
}

/// Serializing a player client value and decoding the result returns the
/// value.
pub proof fn lemma_player_client_roundtrip(v: PlayerClientView)
    ensures
        PlayerClient::spec_decode(PlayerClient::spec_encode(v)) == Ok::<
            PlayerClientView,
            DecodeErrorView,
        >(v),
{
    broadcast use crate::schema::lemma_field_of_push;

    let s0 = Seq::<(u32, FieldValue)>::empty();
    let a = (1u32, FieldValue::Object(PlayerIdentity::spec_encode(v.player_identity)));
    assert(PlayerClient::spec_encode(v) =~= s0.push(a));
    assert(field_of(s0.push(a), 1) =~= seq![a.1]);
    lemma_player_identity_roundtrip(v.player_identity);
}

/// A system-managed component with no fields.
#[derive(Debug, Clone)]
pub struct System {

}

pub struct SystemView {

}

impl View for System {
    type V = SystemView;

    open spec fn view(&self) -> SystemView {
        SystemView {  }
    }
}

#[derive(Debug, Clone, Default)]
pub struct SystemUpdate {

}

pub struct SystemUpdateView {

}

impl View for SystemUpdate {
    type V = SystemUpdateView;

    open spec fn view(&self) -> SystemUpdateView {
        SystemUpdateView {  }
    }
}

impl System {
    pub open spec fn spec_encode(v: SystemView) -> Seq<(u32, FieldValue)> {
        Seq::empty()
    }

    pub open spec fn spec_decode(s: Seq<(u32, FieldValue)>) -> Result<SystemView, DecodeErrorView> {
        Ok(SystemView {  })
    }

    pub fn from_type(input: &SchemaObject) -> (r: Result<System, DecodeError>)
        ensures
            decodes_to(r, Self::spec_decode(input@)),
    {
        let _ = input;
        Ok(System {  })
    }

    pub fn to_type(input: &System, output: &mut SchemaObject) -> (r: Result<(), DecodeError>)
        ensures
            r is Ok,
            final(output)@ == old(output)@ + Self::spec_encode(input@),
    {
        let _ = input;
        proof {
            assert(final(output)@ =~= old(output)@ + Self::spec_encode(input@));
        }
        Ok(())
    }

    pub fn merge(&mut self, update: SystemUpdate) {
        let _ = update;
    }

    pub fn from_data(data: &SchemaComponentData) -> (r: Result<System, DecodeError>)
        ensures
            decodes_to(r, Self::spec_decode(data.fields@)),
    {
        System::from_type(&data.fields)
    }

    pub fn from_update(update: &SchemaComponentUpdate) -> (r: Result<SystemUpdate, DecodeError>)
        ensures
            decodes_to(r, SystemUpdate::spec_decode(update.fields@)),
    {
        SystemUpdate::from_type(&update.fields)
    }

    /// `System` declares no commands, so every command index is unknown
    /// and decoding reports it to the caller.
    pub fn from_request(command_index: u32, request: &SchemaCommandRequest) -> (r: Result<
        SystemCommandRequest,
        DecodeError,
    >)
        ensures
            (r matches Err(e) && e@ == DecodeErrorView::UnknownCommandIndex {
                component: "System"@,
                command_index,
            }),
    {
        let _ = request;
        Err(DecodeError::UnknownCommandIndex { component: "System", command_index })
    }

    pub fn from_response(command_index: u32, response: &SchemaCommandResponse) -> (r: Result<
        SystemCommandResponse,
        DecodeError,
    >)
        ensures
            (r matches Err(e) && e@ == DecodeErrorView::UnknownCommandIndex {
                component: "System"@,
                command_index,
            }),
    {
        let _ = response;
        Err(DecodeError::UnknownCommandIndex { component: "System", command_index })
    }

    pub fn to_data(data: &System) -> (r: Result<SchemaComponentData, DecodeError>)
        ensures
            r is Ok,
            r->Ok_0.fields@ == Self::spec_encode(data@),
    {
        let mut serialized = SchemaComponentData::new();
        System::to_type(data, &mut serialized.fields)?;
        proof {
            assert(serialized.fields@ =~= Self::spec_encode(data@));
        }
        Ok(serialized)
    }

    pub fn to_update(update: &SystemUpdate) -> (r: Result<SchemaComponentUpdate, DecodeError>)
        ensures
            r is Ok,
            r->Ok_0.fields@ == SystemUpdate::spec_encode(update@),
    {
        let mut serialized = SchemaComponentUpdate::new();
        SystemUpdate::to_type(update, &mut serialized.fields)?;
        proof {
            assert(serialized.fields@ =~= SystemUpdate::spec_encode(update@));
        }
        Ok(serialized)
    }
}

impl SystemUpdate {
    pub open spec fn spec_encode(v: SystemUpdateView) -> Seq<(u32, FieldValue)> {
        Seq::empty()
    }

    pub open spec fn spec_decode(s: Seq<(u32, FieldValue)>) -> Result<
        SystemUpdateView,
        DecodeErrorView,
    > {
        Ok(SystemUpdateView {  })
    }

    pub fn from_type(input: &SchemaObject) -> (r: Result<SystemUpdate, DecodeError>)
        ensures
            decodes_to(r, Self::spec_decode(input@)),
    {
        let _ = input;
        Ok(SystemUpdate {  })
    }

    pub fn to_type(input: &SystemUpdate, output: &mut SchemaObject) -> (r: Result<(), DecodeError>)
        ensures
            r is Ok,
            final(output)@ == old(output)@ + Self::spec_encode(input@),
    {
        let _ = input;
        proof {
            assert(final(output)@ =~= old(output)@ + Self::spec_encode(input@));
        }
        Ok(())
    }

    pub fn merge(&mut self, update: SystemUpdate) {
        let _ = update;
    }
}

/// `System` declares no commands, so no value of this type is ever
/// produced; the placeholder variant only keeps the type inhabited.
#[derive(Debug, Clone)]
pub enum SystemCommandRequest {
    NoCommands,
}

#[derive(Debug, Clone)]
pub enum SystemCommandResponse {
    NoCommands,
}

/// One worker known to the runtime.
#[derive(Debug, Clone)]
pub struct Worker {
    pub worker_id: String,
    pub worker_type: String,
    pub connection: Connection,
}

pub struct WorkerView {
    pub worker_id: Seq<char>,
    pub worker_type: Seq<char>,
    pub connection: ConnectionView,
}

impl View for Worker {
    type V = WorkerView;

    open spec fn view(&self) -> WorkerView {
        WorkerView {
            worker_id: self.worker_id@,
            worker_type: self.worker_type@,
            connection: self.connection@,
        }
    }
}

#[derive(Debug, Clone, Default)]
pub struct WorkerUpdate {
    pub worker_id: Option<String>,
    pub worker_type: Option<String>,
    pub connection: Option<Connection>,
}

pub struct WorkerUpdateView {
    pub worker_id: Option<Seq<char>>,
    pub worker_type: Option<Seq<char>>,
    pub connection: Option<ConnectionView>,
}

impl View for WorkerUpdate {
    type V = WorkerUpdateView;

    open spec fn view(&self) -> WorkerUpdateView {
        WorkerUpdateView {
            worker_id: match self.worker_id {
                Some(ref s) => Some(s@),
                None => None,
            },
            worker_type: match self.worker_type {
                Some(ref s) => Some(s@),
                None => None,
            },
            connection: match self.connection {
                Some(ref c) => Some(c@),
                None => None,
            },
        }
    }
}

impl Worker {
    pub open spec fn spec_encode(v: WorkerView) -> Seq<(u32, FieldValue)> {
        seq![
            (1u32, FieldValue::Text(v.worker_id)),
            (2u32, FieldValue::Text(v.worker_type)),
            (3u32, FieldValue::Object(Connection::spec_encode(v.connection))),
        ]
    }

    /// Decoding fails exactly when the nested connection status is outside
    /// its declared value set.
    pub open spec fn spec_decode(s: Seq<(u32, FieldValue)>) -> Result<WorkerView, DecodeErrorView> {
        match Connection::spec_decode(object_field(s, 3)) {
            Ok(c) => Ok(
                WorkerView {
                    worker_id: text_field(s, 1),
                    worker_type: text_field(s, 2),
                    connection: c,
                },
            ),
            Err(e) => Err(e),
        }
    }

    pub fn from_type(input: &SchemaObject) -> (r: Result<Worker, DecodeError>)
        ensures
            decodes_to(r, Self::spec_decode(input@)),
    {
        let worker_id = match input.get_first(1) {
            Some(SchemaValue::Text(s)) => s.clone(),
            _ => String::new(),
        };
        let worker_type = match input.get_first(2) {
            Some(SchemaValue::Text(s)) => s.clone(),
            _ => String::new(),
        };
        let connection = match input.get_first(3) {
            Some(SchemaValue::Object(o)) => Connection::from_type(o)?,
            _ => {
                let empty = SchemaObject::new();
                Connection::from_type(&empty)?
            },
        };
        Ok(Worker { worker_id, worker_type, connection })
    }

    pub fn to_type(input: &Worker, output: &mut SchemaObject) -> (r: Result<(), DecodeError>)
        ensures
            r is Ok,
            final(output)@ == old(output)@ + Self::spec_encode(input@),
    {
        output.add_text(1, input.worker_id.as_str());
        output.add_text(2, input.worker_type.as_str());
        let mut connection_obj = SchemaObject::new();
        Connection::to_type(&input.connection, &mut connection_obj)?;
        output.add_object(3, connection_obj);
        proof {
            assert(final(output)@ =~= old(output)@ + Self::spec_encode(input@));
        }
        Ok(())
    }

    /// Whole-field merge: each field present in the update replaces the
    /// target field; the nested connection is replaced as a whole.
    pub fn merge(&mut self, update: WorkerUpdate)
        ensures
            final(self)@.worker_id == (match update@.worker_id {
                Some(v) => v,
                None => old(self)@.worker_id,
            }),
            final(self)@.worker_type == (match update@.worker_type {
                Some(v) => v,
                None => old(self)@.worker_type,
            }),
            final(self)@.connection == (match update@.connection {
                Some(v) => v,
                None => old(self)@.connection,
            }),
    {
        if let Some(value) = update.worker_id {
            self.worker_id = value;
        }
        if let Some(value) = update.worker_type {
            self.worker_type = value;
        }
        if let Some(value) = update.connection {
            self.connection = value;
        }
    }

    pub fn from_data(data: &SchemaComponentData) -> (r: Result<Worker, DecodeError>)
        ensures
            decodes_to(r, Self::spec_decode(data.fields@)),
    {
        Worker::from_type(&data.fields)
    }

    pub fn from_update(update: &SchemaComponentUpdate) -> (r: Result<WorkerUpdate, DecodeError>)
        ensures
            decodes_to(r, WorkerUpdate::spec_decode(update.fields@)),
    {
        WorkerUpdate::from_type(&update.fields)
    }

    /// The request a command index selects: index 1 carries a disconnect
    /// request; every other index is unknown and reported to the caller.
    pub open spec fn spec_from_request(command_index: u32, s: Seq<(u32, FieldValue)>) -> Result<
        WorkerCommandRequestView,
        DecodeErrorView,
    > {
        if command_index == 1 {
            Ok(
                WorkerCommandRequestView::Disconnect(
                    DisconnectRequest::spec_decode(s)->Ok_0,
                ),
            )
        } else {
            Err(
                DecodeErrorView::UnknownCommandIndex {
                    component: "Worker"@,
                    command_index,
                },
            )
        }
    }

    pub open spec fn spec_from_response(command_index: u32, s: Seq<(u32, FieldValue)>) -> Result<
        WorkerCommandResponseView,
        DecodeErrorView,
    > {
        if command_index == 1 {
            Ok(
                WorkerCommandResponseView::Disconnect(
                    DisconnectResponse::spec_decode(s)->Ok_0,
                ),
            )
        } else {
            Err(
                DecodeErrorView::UnknownCommandIndex {
                    component: "Worker"@,
                    command_index,
                },
            )
        }
    }

    pub fn from_request(command_index: u32, request: &SchemaCommandRequest) -> (r: Result<
        WorkerCommandRequest,
        DecodeError,
    >)
        ensures
            decodes_to(r, Self::spec_from_request(command_index, request.object@)),
    {
        match command_index {
            1 => {
                let payload = DisconnectRequest::from_type(&request.object)?;
                Ok(WorkerCommandRequest::Disconnect(payload))
            },
            _ => Err(
                DecodeError::UnknownCommandIndex { component: "Worker", command_index },
            ),
        }
    }

    pub fn from_response(command_index: u32, response: &SchemaCommandResponse) -> (r: Result<
        WorkerCommandResponse,
        DecodeError,
    >)
        ensures
            decodes_to(r, Self::spec_from_response(command_index, response.object@)),
    {
        match command_index {
            1 => {
                let payload = DisconnectResponse::from_type(&response.object)?;
                Ok(WorkerCommandResponse::Disconnect(payload))
            },
            _ => Err(
                DecodeError::UnknownCommandIndex { component: "Worker", command_index },
            ),
        }
    }

    pub fn to_data(data: &Worker) -> (r: Result<SchemaComponentData, DecodeError>)
        ensures
            r is Ok,
            r->Ok_0.fields@ == Self::spec_encode(data@),
    {
        let mut serialized = SchemaComponentData::new();
        Worker::to_type(data, &mut serialized.fields)?;
        proof {
            assert(serialized.fields@ =~= Self::spec_encode(data@));
        }
        Ok(serialized)
    }

    pub fn to_update(update: &WorkerUpdate) -> (r: Result<SchemaComponentUpdate, DecodeError>)
        ensures
            r is Ok,
            r->Ok_0.fields@ == WorkerUpdate::spec_encode(update@),
    {
        let mut serialized = SchemaComponentUpdate::new();
        WorkerUpdate::to_type(update, &mut serialized.fields)?;
        proof {
            assert(serialized.fields@ =~= WorkerUpdate::spec_encode(update@));
        }
        Ok(serialized)
    }

    pub fn to_request(request: &WorkerCommandRequest) -> (r: Result<
        SchemaCommandRequest,
        DecodeError,
    >)
        ensures
            r is Ok,
            r->Ok_0.object@ == (match request@ {
                WorkerCommandRequestView::Disconnect(d) => DisconnectRequest::spec_encode(d),
            }),
    {
        let mut serialized = SchemaCommandRequest::new();
        match request {
            WorkerCommandRequest::Disconnect(ref data) => {
                DisconnectRequest::to_type(data, &mut serialized.object)?;
            },
        }
        proof {
            assert(serialized.object@ =~= DisconnectRequest::spec_encode(
                request@->Disconnect_0,
            ));
        }
        Ok(serialized)
    }

    pub fn to_response(response: &WorkerCommandResponse) -> (r: Result<
        SchemaCommandResponse,
        DecodeError,
    >)
        ensures
            r is Ok,
            r->Ok_0.object@ == (match response@ {
                WorkerCommandResponseView::Disconnect(d) => DisconnectResponse::spec_encode(d),
            }),
    {
        let mut serialized = SchemaCommandResponse::new();
        match response {
            WorkerCommandResponse::Disconnect(ref data) => {
                DisconnectResponse::to_type(data, &mut serialized.object)?;
            },
        }
        proof {
            assert(serialized.object@ =~= DisconnectResponse::spec_encode(
                response@->Disconnect_0,
            ));
        }
        Ok(serialized)
    }

    /// The wire index of a request: the one declared disconnect command
    /// has index 1, and serialization and dispatch share it.
    pub fn get_request_command_index(request: &WorkerCommandRequest) -> (r: u32)
        ensures
            r == 1,
    {
        match request {
            WorkerCommandRequest::Disconnect(_) => 1,
        }
    }

    pub fn get_response_command_index(response: &WorkerCommandResponse) -> (r: u32)
        ensures
            r == 1,
    {
        match response {
            WorkerCommandResponse::Disconnect(_) => 1,
        }
    }
}

impl WorkerUpdate {
    pub open spec fn spec_encode(v: WorkerUpdateView) -> Seq<(u32, FieldValue)> {
        (match v.worker_id {
            Some(t) => seq![(1u32, FieldValue::Text(t))],
            None => Seq::empty(),
        }) + (match v.worker_type {
            Some(t) => seq![(2u32, FieldValue::Text(t))],
            None => Seq::empty(),
        }) + (match v.connection {
            Some(c) => seq![(3u32, FieldValue::Object(Connection::spec_encode(c)))],
            None => Seq::empty(),
        })
    }

    pub open spec fn spec_decode(s: Seq<(u32, FieldValue)>) -> Result<
        WorkerUpdateView,
        DecodeErrorView,
    > {
        if field_of(s, 3).len() > 0 {
            match Connection::spec_decode(object_field(s, 3)) {
                Ok(c) => Ok(
                    WorkerUpdateView {
                        worker_id: if field_of(s, 1).len() > 0 {
                            Some(text_field(s, 1))
                        } else {
                            None
                        },
                        worker_type: if field_of(s, 2).len() > 0 {
                            Some(text_field(s, 2))
                        } else {
                            None
                        },
                        connection: Some(c),
                    },
                ),
                Err(e) => Err(e),
            }
        } else {
            Ok(
                WorkerUpdateView {
                    worker_id: if field_of(s, 1).len() > 0 {
                        Some(text_field(s, 1))
                    } else {
                        None
                    },
                    worker_type: if field_of(s, 2).len() > 0 {
                        Some(text_field(s, 2))
                    } else {
                        None
                    },
                    connection: None,
                },
            )
        }
    }

    pub fn from_type(input: &SchemaObject) -> (r: Result<WorkerUpdate, DecodeError>)
        ensures
            decodes_to(r, Self::spec_decode(input@)),
    {
        let worker_id = match input.get_first(1) {
            Some(SchemaValue::Text(s)) => Some(s.clone()),
            Some(_) => Some(String::new()),
            None => None,
        };
        let worker_type = match input.get_first(2) {
            Some(SchemaValue::Text(s)) => Some(s.clone()),
            Some(_) => Some(String::new()),
            None => None,
        };
        let connection = match input.get_first(3) {
            Some(SchemaValue::Object(o)) => Some(Connection::from_type(o)?),
            Some(_) => {
                let empty = SchemaObject::new();
                Some(Connection::from_type(&empty)?)
            },
            None => None,
        };
        Ok(WorkerUpdate { worker_id, worker_type, connection })
    }

    pub fn to_type(input: &WorkerUpdate, output: &mut SchemaObject) -> (r: Result<(), DecodeError>)
        ensures
            r is Ok,
            final(output)@ == old(output)@ + Self::spec_encode(input@),
    {
        if let Some(ref value) = input.worker_id {
            output.add_text(1, value.as_str());
        }
        if let Some(ref value) = input.worker_type {
            output.add_text(2, value.as_str());
        }
        if let Some(ref value) = input.connection {
            let mut obj = SchemaObject::new();
            Connection::to_type(value, &mut obj)?;
            output.add_object(3, obj);
        }
        proof {
            assert(final(output)@ =~= old(output)@ + Self::spec_encode(input@));
        }
        Ok(())
    }

    /// Merging one update into another keeps the later writer per field.
    pub fn merge(&mut self, update: WorkerUpdate)
        ensures
            final(self)@.worker_id == (match update@.worker_id {
                Some(v) => Some(v),
                None => old(self)@.worker_id,
            }),
            final(self)@.worker_type == (match update@.worker_type {
                Some(v) => Some(v),
                None => old(self)@.worker_type,
            }),
            final(self)@.connection == (match update@.connection {
                Some(v) => Some(v),
                None => old(self)@.connection,
            }),
    {
        if update.worker_id.is_some() {
            self.worker_id = update.worker_id;
        }
        if update.worker_type.is_some() {
            self.worker_type = update.worker_type;
        }
        if update.connection.is_some() {
            self.connection = update.connection;
        }
    }
}

/// The one command of `Worker`: a disconnect request, with index 1.
#[derive(Debug, Clone)]
pub enum WorkerCommandRequest {
    Disconnect(DisconnectRequest),
}

pub enum WorkerCommandRequestView {
    Disconnect(DisconnectRequestView),
}

impl View for WorkerCommandRequest {
    type V = WorkerCommandRequestView;

    open spec fn view(&self) -> WorkerCommandRequestView {
        match self {
            WorkerCommandRequest::Disconnect(d) => WorkerCommandRequestView::Disconnect(d@),
        }
    }
}

#[derive(Debug, Clone)]
pub enum WorkerCommandResponse {
    Disconnect(DisconnectResponse),
}

pub enum WorkerCommandResponseView {
    Disconnect(DisconnectResponseView),
}

impl View for WorkerCommandResponse {
    type V = WorkerCommandResponseView;

    open spec fn view(&self) -> WorkerCommandResponseView {
        match self {
            WorkerCommandResponse::Disconnect(d) => WorkerCommandResponseView::Disconnect(d@),
        }
    }
}

/// Serializing a worker value and decoding the result returns the value.
pub proof fn lemma_worker_roundtrip(v: WorkerView)
    ensures
        Worker::spec_decode(Worker::spec_encode(v)) == Ok::<WorkerView, DecodeErrorView>(v),
{
    broadcast use crate::schema::lemma_field_of_push;

    let s0 = Seq::<(u32, FieldValue)>::empty();
    let a = (1u32, FieldValue::Text(v.worker_id));
    let b = (2u32, FieldValue::Text(v.worker_type));
    let c = (3u32, FieldValue::Object(Connection::spec_encode(v.connection)));
    assert(Worker::spec_encode(v) =~= s0.push(a).push(b).push(c));
    assert(field_of(s0.push(a).push(b).push(c), 1) =~= seq![a.1]);
    assert(field_of(s0.push(a).push(b).push(c), 2) =~= seq![b.1]);
    assert(field_of(s0.push(a).push(b).push(c), 3) =~= seq![c.1]);
    lemma_connection_roundtrip(v.connection);
}

/// Serializing a command request and dispatching its index back through
/// request decoding returns the request.
pub proof fn lemma_worker_request_roundtrip(v: WorkerCommandRequestView)
    ensures
        Worker::spec_from_request(
            1,
            (match v {
                WorkerCommandRequestView::Disconnect(d) => DisconnectRequest::spec_encode(d),
            }),
        ) == Ok::<WorkerCommandRequestView, DecodeErrorView>(v),
{
}

impl Component for PlayerClient {
    open spec fn spec_id() -> u32 {
        61
    }

    fn component_id() -> u32 {
        61
    }

    fn serialize_data(&self) -> Result<SchemaComponentData, DecodeError> {
        PlayerClient::to_data(self)
    }
}

impl Component for System {
    open spec fn spec_id() -> u32 {
        59
    }

    fn component_id() -> u32 {
        59
    }

    fn serialize_data(&self) -> Result<SchemaComponentData, DecodeError> {
        System::to_data(self)
    }
}

impl Component for Worker {
    open spec fn spec_id() -> u32 {
        60
    }

    fn component_id() -> u32 {
        60
    }

    fn serialize_data(&self) -> Result<SchemaComponentData, DecodeError> {
        Worker::to_data(self)
    }
}

/// Serializing a player-client update and decoding the result returns
/// the update, with present and absent fields preserved.
pub proof fn lemma_player_client_update_roundtrip(v: PlayerClientUpdateView)
    ensures
        PlayerClientUpdate::spec_decode(PlayerClientUpdate::spec_encode(v)) == Ok::<
            PlayerClientUpdateView,
            DecodeErrorView,
        >(v),
{
    broadcast use crate::schema::lemma_field_of_push;

    let s0 = Seq::<(u32, FieldValue)>::empty();
    match v.player_identity {
        Some(pi) => {
            let p = (1u32, FieldValue::Object(PlayerIdentity::spec_encode(pi)));
            assert(PlayerClientUpdate::spec_encode(v) =~= s0.push(p));
            assert(field_of(s0.push(p), 1) =~= seq![p.1]);
            lemma_player_identity_roundtrip(pi);
        },
        None => {
            assert(field_of(PlayerClientUpdate::spec_encode(v), 1).len() == 0);
        },
    }
}

/// Serializing a worker update and decoding the result returns the
/// update, with present and absent fields preserved per field.
pub proof fn lemma_worker_update_roundtrip(v: WorkerUpdateView)
    ensures
        WorkerUpdate::spec_decode(WorkerUpdate::spec_encode(v)) == Ok::<
            WorkerUpdateView,
            DecodeErrorView,
        >(v),
{
    let a = (match v.worker_id {
        Some(t) => seq![(1u32, FieldValue::Text(t))],
        None => Seq::<(u32, FieldValue)>::empty(),
    });
    let b = (match v.worker_type {
        Some(t) => seq![(2u32, FieldValue::Text(t))],
        None => Seq::<(u32, FieldValue)>::empty(),
    });
    let c = (match v.connection {
        Some(cv) => seq![(3u32, FieldValue::Object(Connection::spec_encode(cv)))],
        None => Seq::<(u32, FieldValue)>::empty(),
    });
    let e = WorkerUpdate::spec_encode(v);
    assert(e =~= a + b + c);
    crate::schema::lemma_field_of_concat(a, b, 1);
    crate::schema::lemma_field_of_concat(a + b, c, 1);
    crate::schema::lemma_field_of_concat(a, b, 2);
    crate::schema::lemma_field_of_concat(a + b, c, 2);
    crate::schema::lemma_field_of_concat(a, b, 3);
    crate::schema::lemma_field_of_concat(a + b, c, 3);
    crate::schema::lemma_field_of_absent(b, 1);
    crate::schema::lemma_field_of_absent(c, 1);
    crate::schema::lemma_field_of_absent(a, 2);
    crate::schema::lemma_field_of_absent(c, 2);
    crate::schema::lemma_field_of_absent(a, 3);
    crate::schema::lemma_field_of_absent(b, 3);
    broadcast use crate::schema::lemma_field_of_push;

    let s0 = Seq::<(u32, FieldValue)>::empty();
    match v.worker_id {
        Some(t) => {
            assert(a =~= s0.push((1u32, FieldValue::Text(t))));
            assert(field_of(a, 1) =~= seq![FieldValue::Text(t)]);
        },
        None => {
            assert(field_of(a, 1).len() == 0);
        },
    }
    match v.worker_type {
        Some(t) => {
            assert(b =~= s0.push((2u32, FieldValue::Text(t))));
            assert(field_of(b, 2) =~= seq![FieldValue::Text(t)]);
        },
        None => {
            assert(field_of(b, 2).len() == 0);
        },
    }
    match v.connection {
        Some(cv) => {
            assert(c =~= s0.push((3u32, FieldValue::Object(Connection::spec_encode(cv)))));
            assert(field_of(c, 3) =~= seq![
                FieldValue::Object(Connection::spec_encode(cv)),
            ]);
            lemma_connection_roundtrip(cv);
        },
        None => {
            assert(field_of(c, 3).len() == 0);
        },
    }
    assert(field_of(e, 1) =~= field_of(a, 1));
    assert(field_of(e, 2) =~= field_of(b, 2));
    assert(field_of(e, 3) =~= field_of(c, 3));
}

/// Serializing the field-less system marker and decoding the result
/// returns it; its update and the disconnect payloads round-trip the
/// same way.
pub proof fn lemma_system_roundtrip(
    v: SystemView,
    u: SystemUpdateView,
    q: DisconnectRequestView,
    p: DisconnectResponseView,
)
    ensures
        System::spec_decode(System::spec_encode(v)) == Ok::<SystemView, DecodeErrorView>(v),
        SystemUpdate::spec_decode(SystemUpdate::spec_encode(u)) == Ok::<
            SystemUpdateView,
            DecodeErrorView,
        >(u),
        DisconnectRequest::spec_decode(DisconnectRequest::spec_encode(q)) == Ok::<
            DisconnectRequestView,
            DecodeErrorView,
        >(q),
        DisconnectResponse::spec_decode(DisconnectResponse::spec_encode(p)) == Ok::<
            DisconnectResponseView,
            DecodeErrorView,
        >(p),
{
}

/// Decoding a connection status outside the declared set fails fast, and
/// the failure propagates unchanged through the worker record that nests
/// it: the only failure mode of either decoder is the fatal
/// unknown-enum-value report, never the recoverable unknown-command-index
/// one.
pub proof fn lemma_unknown_status_value_fatal(s: Seq<(u32, FieldValue)>)
    ensures
        Connection::spec_decode(s) is Ok <==> enum_field(s, 1) < 4,
        enum_field(s, 1) >= 4 ==> Connection::spec_decode(s) == Err::<
            ConnectionView,
            DecodeErrorView,
        >(
            DecodeErrorView::UnknownEnumValue {
                enum_name: "Connection_ConnectionStatus"@,
                field_id: 1,
                value: enum_field(s, 1),
            },
        ),
        Connection::spec_decode(s) matches Err(e) ==> e is UnknownEnumValue,
        Worker::spec_decode(s) is Ok <==> enum_field(object_field(s, 3), 1) < 4,
        Worker::spec_decode(s) matches Err(e) ==> e is UnknownEnumValue,
{
}

} // verus!
