use spatialos_codegen::EntityId;
use spatialos_codegen::example::{
    CommandData, EntityIdTest, EntityIdTestUpdate, EnumTestComponent, EnumTestComponentUpdate,
    TestEnum, TestType,
};
use spatialos_codegen::id_map::OrderedIdMap;
use spatialos_codegen::improbable::{
    EntityAcl, EntityAclUpdate, Metadata, MetadataUpdate, Persistence, WorkerAttributeSet,
    WorkerRequirementSet,
};
use spatialos_codegen::restricted::{
    Connection, Connection_ConnectionStatus, DisconnectRequest, PlayerClient, PlayerClientUpdate,
    PlayerIdentity, System, Worker, WorkerCommandRequest, WorkerCommandResponse, WorkerUpdate,
};
use spatialos_codegen::schema::{
    DecodeError, SchemaCommandRequest, SchemaCommandResponse, SchemaComponentUpdate, SchemaObject,
};

fn attribute_set(names: &[&str]) -> WorkerAttributeSet {
    WorkerAttributeSet {
        attribute: names.iter().map(|s| s.to_string()).collect(),
    }
}

fn requirement_set(names: &[&str]) -> WorkerRequirementSet {
    WorkerRequirementSet {
        attribute_set: vec![attribute_set(names)],
    }
}

// Round trips: serialize-then-deserialize one representative value per
// field-shape kind returns an equal value.

#[test]
fn roundtrip_primitive_fields() {
    let value = TestType { value: -7 };
    let mut obj = SchemaObject::new();
    TestType::to_type(&value, &mut obj).unwrap();
    assert_eq!(TestType::from_type(&obj).unwrap().value, -7);

    let payload = CommandData { value: 41 };
    let mut obj = SchemaObject::new();
    CommandData::to_type(&payload, &mut obj).unwrap();
    assert_eq!(CommandData::from_type(&obj).unwrap().value, 41);

    let connection = Connection {
        status: Connection_ConnectionStatus::CONNECTED,
        data_latency_ms: 12,
        connected_since_utc: 99,
    };
    let mut obj = SchemaObject::new();
    Connection::to_type(&connection, &mut obj).unwrap();
    let back = Connection::from_type(&obj).unwrap();
    assert_eq!(back.status, Connection_ConnectionStatus::CONNECTED);
    assert_eq!(back.data_latency_ms, 12);
    assert_eq!(back.connected_since_utc, 99);
}

#[test]
fn roundtrip_string_and_bytes_fields() {
    let identity = PlayerIdentity {
        player_identifier: "ada".to_string(),
        provider: "prov".to_string(),
        metadata: vec![1, 2, 3],
    };
    let mut obj = SchemaObject::new();
    PlayerIdentity::to_type(&identity, &mut obj).unwrap();
    let back = PlayerIdentity::from_type(&obj).unwrap();
    assert_eq!(back.player_identifier, "ada");
    assert_eq!(back.provider, "prov");
    assert_eq!(back.metadata, vec![1, 2, 3]);
}

#[test]
fn roundtrip_entity_id_component() {
    let value = EntityIdTest {
        eid: EntityId::new(42),
    };
    let data = EntityIdTest::to_data(&value).unwrap();
    assert_eq!(EntityIdTest::from_data(&data).unwrap().eid, EntityId::new(42));
}

#[test]
fn roundtrip_nested_enum_component() {
    let value = EnumTestComponent {
        test: TestEnum::SECOND,
    };
    let data = EnumTestComponent::to_data(&value).unwrap();
    assert_eq!(EnumTestComponent::from_data(&data).unwrap().test, TestEnum::SECOND);
}

#[test]
fn roundtrip_optional_present_and_absent() {
    let present = MetadataUpdate {
        entity_type: Some("character".to_string()),
    };
    let update = Metadata::to_update(&present).unwrap();
    assert_eq!(
        Metadata::from_update(&update).unwrap().entity_type,
        Some("character".to_string())
    );

    let absent = MetadataUpdate { entity_type: None };
    let update = Metadata::to_update(&absent).unwrap();
    assert_eq!(Metadata::from_update(&update).unwrap().entity_type, None);
}

#[test]
fn roundtrip_lists_of_zero_one_and_three() {
    for names in [&[][..], &["a"][..], &["a", "b", "c"][..]] {
        let value = attribute_set(names);
        let mut obj = SchemaObject::new();
        WorkerAttributeSet::to_type(&value, &mut obj).unwrap();
        let back = WorkerAttributeSet::from_type(&obj).unwrap();
        let expected: Vec<String> = names.iter().map(|s| s.to_string()).collect();
        assert_eq!(back.attribute, expected);
    }
}

#[test]
fn roundtrip_map_of_zero_and_two_entries() {
    let empty = EntityAcl {
        read_acl: requirement_set(&["root"]),
        component_write_acl: OrderedIdMap::new(),
    };
    let data = EntityAcl::to_data(&empty).unwrap();
    let back = EntityAcl::from_data(&data).unwrap();
    assert_eq!(back.component_write_acl.len(), 0);
    assert_eq!(back.read_acl.attribute_set.len(), 1);
    assert_eq!(back.read_acl.attribute_set[0].attribute, vec!["root".to_string()]);

    let mut acl_map = OrderedIdMap::new();
    acl_map.insert(54, requirement_set(&["physics"]));
    acl_map.insert(53, requirement_set(&["client", "server"]));
    let value = EntityAcl {
        read_acl: requirement_set(&["everyone"]),
        component_write_acl: acl_map,
    };
    let data = EntityAcl::to_data(&value).unwrap();
    let back = EntityAcl::from_data(&data).unwrap();
    assert_eq!(back.component_write_acl.len(), 2);
    // Entries come back in canonical key order.
    assert_eq!(back.component_write_acl.index(0).0, 53);
    assert_eq!(
        back.component_write_acl.index(0).1.attribute_set[0].attribute,
        vec!["client".to_string(), "server".to_string()]
    );
    assert_eq!(back.component_write_acl.index(1).0, 54);
    let looked_up = back.component_write_acl.get(54).unwrap();
    assert_eq!(looked_up.attribute_set[0].attribute, vec!["physics".to_string()]);
}

#[test]
fn roundtrip_nested_type_component() {
    let value = Worker {
        worker_id: "w1".to_string(),
        worker_type: "physics".to_string(),
        connection: Connection {
            status: Connection_ConnectionStatus::AWAITING_WORKER_CONNECTION,
            data_latency_ms: 5,
            connected_since_utc: 1000,
        },
    };
    let data = Worker::to_data(&value).unwrap();
    let back = Worker::from_data(&data).unwrap();
    assert_eq!(back.worker_id, "w1");
    assert_eq!(back.worker_type, "physics");
    assert_eq!(
        back.connection.status,
        Connection_ConnectionStatus::AWAITING_WORKER_CONNECTION
    );
    assert_eq!(back.connection.connected_since_utc, 1000);

    let client = PlayerClient {
        player_identity: PlayerIdentity {
            player_identifier: "ada".to_string(),
            provider: "prov".to_string(),
            metadata: vec![],
        },
    };
    let data = PlayerClient::to_data(&client).unwrap();
    let back = PlayerClient::from_data(&data).unwrap();
    assert_eq!(back.player_identity.player_identifier, "ada");
}

#[test]
fn roundtrip_empty_components() {
    let data = Persistence::to_data(&Persistence {}).unwrap();
    assert!(Persistence::from_data(&data).is_ok());
    let data = System::to_data(&System {}).unwrap();
    assert!(System::from_data(&data).is_ok());
}

// Update merge: a present field overwrites, an absent field leaves the
// target untouched.

#[test]
fn merge_overwrites_present_and_keeps_absent() {
    let mut value = Worker {
        worker_id: "1".to_string(),
        worker_type: "2".to_string(),
        connection: Connection {
            status: Connection_ConnectionStatus::UNKNOWN,
            data_latency_ms: 0,
            connected_since_utc: 0,
        },
    };
    value.merge(WorkerUpdate {
        worker_id: Some("5".to_string()),
        worker_type: None,
        connection: None,
    });
    assert_eq!(value.worker_id, "5");
    assert_eq!(value.worker_type, "2");
}

#[test]
fn merge_update_into_update_keeps_last_writer() {
    let mut update = WorkerUpdate {
        worker_id: Some("1".to_string()),
        worker_type: Some("2".to_string()),
        connection: None,
    };
    update.merge(WorkerUpdate {
        worker_id: Some("5".to_string()),
        worker_type: None,
        connection: None,
    });
    assert_eq!(update.worker_id, Some("5".to_string()));
    assert_eq!(update.worker_type, Some("2".to_string()));
}

#[test]
fn merge_replaces_whole_map_field() {
    let mut acl_map = OrderedIdMap::new();
    acl_map.insert(1, requirement_set(&["a"]));
    let mut value = EntityAcl {
        read_acl: requirement_set(&["r"]),
        component_write_acl: acl_map,
    };
    let mut new_map = OrderedIdMap::new();
    new_map.insert(2, requirement_set(&["b"]));
    value.merge(EntityAclUpdate {
        read_acl: None,
        component_write_acl: Some(new_map),
    });
    assert_eq!(value.component_write_acl.len(), 1);
    assert_eq!(value.component_write_acl.index(0).0, 2);
    assert_eq!(value.read_acl.attribute_set[0].attribute, vec!["r".to_string()]);

    let mut other = EntityIdTest {
        eid: EntityId::new(1),
    };
    other.merge(EntityIdTestUpdate { eid: None });
    assert_eq!(other.eid, EntityId::new(1));
    other.merge(EntityIdTestUpdate {
        eid: Some(EntityId::new(9)),
    });
    assert_eq!(other.eid, EntityId::new(9));

    let mut enum_component = EnumTestComponent {
        test: TestEnum::FIRST,
    };
    enum_component.merge(EnumTestComponentUpdate {
        test: Some(TestEnum::SECOND),
    });
    assert_eq!(enum_component.test, TestEnum::SECOND);
}

// Unknown command index: a reported, per-call error, never an abort.

#[test]
fn unknown_command_index_is_reported() {
    let request = SchemaCommandRequest::new();
    match Worker::from_request(7, &request) {
        Err(DecodeError::UnknownCommandIndex {
            component,
            command_index,
        }) => {
            assert_eq!(component, "Worker");
            assert_eq!(command_index, 7);
        }
        other => panic!("expected an unknown command index, got {:?}", other),
    }
    let response = SchemaCommandResponse::new();
    assert!(matches!(
        Worker::from_response(2, &response),
        Err(DecodeError::UnknownCommandIndex {
            component: "Worker",
            command_index: 2
        })
    ));
    assert!(matches!(
        Metadata::from_request(0, &request),
        Err(DecodeError::UnknownCommandIndex {
            component: "Metadata",
            command_index: 0
        })
    ));
}

#[test]
fn declared_command_index_dispatches() {
    let serialized =
        Worker::to_request(&WorkerCommandRequest::Disconnect(DisconnectRequest {})).unwrap();
    assert!(matches!(
        Worker::from_request(1, &serialized),
        Ok(WorkerCommandRequest::Disconnect(_))
    ));
    assert_eq!(
        Worker::get_request_command_index(&WorkerCommandRequest::Disconnect(DisconnectRequest {})),
        1
    );
    assert_eq!(
        Worker::get_response_command_index(&WorkerCommandResponse::Disconnect(
            spatialos_codegen::restricted::DisconnectResponse {}
        )),
        1
    );
}

// Unknown enum value: fails fast with a failure mode distinct from the
// command-index case.

#[test]
fn unknown_enum_value_fails_decoding() {
    let mut obj = SchemaObject::new();
    obj.add_enum_value(1, 2);
    match EnumTestComponent::from_type(&obj) {
        Err(DecodeError::UnknownEnumValue {
            enum_name,
            field_id,
            value,
        }) => {
            assert_eq!(enum_name, "TestEnum");
            assert_eq!(field_id, 1);
            assert_eq!(value, 2);
        }
        other => panic!("expected an unknown enum value, got {:?}", other),
    }
    // The two failure modes stay distinct.
    assert_ne!(
        EnumTestComponent::from_type(&obj).unwrap_err(),
        DecodeError::UnknownCommandIndex {
            component: "EnumTestComponent",
            command_index: 2
        }
    );

    let mut update_obj = SchemaComponentUpdate::new();
    update_obj.fields.add_enum_value(1, 9);
    assert!(matches!(
        EnumTestComponent::from_update(&update_obj),
        Err(DecodeError::UnknownEnumValue {
            enum_name: "TestEnum",
            field_id: 1,
            value: 9
        })
    ));
}

#[test]
fn declared_enum_values_decode() {
    let mut obj = SchemaObject::new();
    obj.add_enum_value(1, 0);
    assert_eq!(EnumTestComponent::from_type(&obj).unwrap().test, TestEnum::FIRST);
    let mut obj = SchemaObject::new();
    obj.add_enum_value(1, 1);
    assert_eq!(EnumTestComponent::from_type(&obj).unwrap().test, TestEnum::SECOND);
    assert_eq!(TestEnum::from(0), TestEnum::FIRST);
    assert_eq!(TestEnum::from(1), TestEnum::SECOND);
    assert_eq!(TestEnum::FIRST.as_u32(), 0);
    assert_eq!(TestEnum::SECOND.as_u32(), 1);
    assert_eq!(Connection_ConnectionStatus::from(3).as_u32(), 3);
}

#[test]
fn decode_error_messages_carry_context() {
    let enum_error = DecodeError::UnknownEnumValue {
        enum_name: "TestEnum",
        field_id: 1,
        value: 7,
    };
    assert_eq!(
        enum_error.message(),
        "unknown value 7 for enum TestEnum in field 1"
    );
    let command_error = DecodeError::UnknownCommandIndex {
        component: "Worker",
        command_index: 12,
    };
    assert_eq!(
        command_error.message(),
        "unknown command index 12 in component Worker"
    );
}

#[test]
fn missing_fields_decode_to_defaults() {
    let empty = SchemaObject::new();
    assert_eq!(Metadata::from_type(&empty).unwrap().entity_type, "");
    assert_eq!(TestType::from_type(&empty).unwrap().value, 0);
    assert_eq!(EntityIdTest::from_type(&empty).unwrap().eid, EntityId::new(0));
    assert_eq!(
        Connection::from_type(&empty).unwrap().status,
        Connection_ConnectionStatus::UNKNOWN
    );
    let update = PlayerClientUpdate {
        player_identity: None,
    };
    let serialized = PlayerClient::to_update(&update).unwrap();
    assert!(PlayerClient::from_update(&serialized)
        .unwrap()
        .player_identity
        .is_none());
}
