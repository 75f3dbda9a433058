use spatialos_codegen::bundle::{
    ComponentDataDefinition, ComponentDefinition, ComponentDefinition_CommandDefinition,
    EnumDefinition, EnumValueDefinition, FieldDefinition, FieldTypeDefinition, GenerationError,
    Identifier, PrimitiveType, SchemaBundle, SchemaBundleV1, TypeDefinition, TypeReference,
    ValueTypeReference,
};
use spatialos_codegen::gen::generate;

fn identifier(qualified: &str, name: &str, path: &[&str]) -> Identifier {
    Identifier {
        qualified_name: qualified.to_string(),
        name: name.to_string(),
        path: path.iter().map(|s| s.to_string()).collect(),
    }
}

fn color_enum(package: &str) -> EnumDefinition {
    let q = format!("{}.Color", package);
    EnumDefinition {
        identifier: Identifier {
            qualified_name: q.clone(),
            name: "Color".to_string(),
            path: vec![package.to_string(), "Color".to_string()],
        },
        value_definitions: vec![
            EnumValueDefinition {
                identifier: identifier("p.Color.RED", "RED", &["p", "Color", "RED"]),
                value: 0,
            },
            EnumValueDefinition {
                identifier: identifier("p.Color.GREEN", "GREEN", &["p", "Color", "GREEN"]),
                value: 1,
            },
        ],
    }
}

fn singular(prim: PrimitiveType) -> FieldTypeDefinition {
    FieldTypeDefinition::Singular {
        ty: ValueTypeReference::Primitive(prim),
    }
}

fn example_bundle() -> SchemaBundle {
    SchemaBundle {
        v1: Some(SchemaBundleV1 {
            enum_definitions: vec![color_enum("p")],
            type_definitions: vec![TypeDefinition {
                identifier: identifier("p.Payload", "Payload", &["p", "Payload"]),
                field_definitions: vec![FieldDefinition {
                    identifier: identifier("p.Payload.value", "value", &["p", "Payload", "value"]),
                    field_id: 1,
                    transient: false,
                    ty: singular(PrimitiveType::Int32),
                }],
            }],
            component_definitions: vec![ComponentDefinition {
                identifier: identifier("p.Widget", "Widget", &["p", "Widget"]),
                component_id: 1000,
                data_definition: ComponentDataDefinition::Inline(vec![FieldDefinition {
                    identifier: identifier("p.Widget.count", "count", &["p", "Widget", "count"]),
                    field_id: 1,
                    transient: false,
                    ty: singular(PrimitiveType::Uint32),
                }]),
                event_definitions: vec![],
                command_definitions: vec![ComponentDefinition_CommandDefinition {
                    identifier: identifier(
                        "p.Widget.test_command",
                        "test_command",
                        &["p", "Widget", "test_command"],
                    ),
                    command_index: 1,
                    request_type: ValueTypeReference::Type(TypeReference {
                        qualified_name: "p.Payload".to_string(),
                    }),
                    response_type: ValueTypeReference::Type(TypeReference {
                        qualified_name: "p.Payload".to_string(),
                    }),
                }],
            }],
        }),
        source_map_v1: None,
    }
}

fn deps() -> Vec<(String, String)> {
    vec![("p".to_string(), "crate::schema".to_string())]
}

/// Generating twice from the same inputs yields byte-identical text.
#[test]
fn generation_is_idempotent() {
    let bundle = example_bundle();
    let first = generate(&bundle, "p", &deps()).unwrap();
    let second = generate(&bundle, "p", &deps()).unwrap();
    assert_eq!(first, second);
}

/// A bundle declaring `enum Color { RED = 0, GREEN = 1 }` generates a
/// type whose numeric decoding accepts 0 and 1 and refuses everything
/// else.
#[test]
fn color_enum_scenario() {
    let bundle = example_bundle();
    let out = generate(&bundle, "p", &deps()).unwrap();
    assert!(out.contains("pub mod p {\n"));
    assert!(out.contains("use crate::schema;\n"));
    assert!(out.contains("pub enum Color { RED, GREEN, }"));
    assert!(out.contains("0 => Some(Color::RED), 1 => Some(Color::GREEN), _ => None,"));
    assert!(out.contains("Color::RED => 0, Color::GREEN => 1,"));
}

#[test]
fn component_emission_covers_value_update_merge_and_commands() {
    let bundle = example_bundle();
    let out = generate(&bundle, "p", &deps()).unwrap();
    assert!(out.contains("pub struct Widget { pub count: u32, }"));
    assert!(out.contains("pub struct WidgetUpdate { pub count: Option<u32>, }"));
    assert!(out.contains(
        "impl Widget { pub fn merge(&mut self, update: WidgetUpdate) { \
         if let Some(value) = update.count { self.count = value; } } }"
    ));
    assert!(out.contains(
        "impl WidgetUpdate { pub fn merge(&mut self, update: WidgetUpdate) { \
         if update.count.is_some() { self.count = update.count; } } }"
    ));
    assert!(out.contains("pub enum WidgetCommandRequest { TestCommand(crate::schema::p::Payload), }"));
    assert!(out.contains("pub enum WidgetCommandResponse { TestCommand(crate::schema::p::Payload), }"));
    assert!(out.contains("WidgetCommandRequest::TestCommand(_) => Some(1), "));
    assert!(out.contains("1 => Some(\"TestCommand\"), _ => None,"));
    assert!(out.contains("pub struct Payload { pub value: i32, }"));
}

#[test]
fn component_emission_covers_command_serialization_dispatch() {
    let bundle = example_bundle();
    let out = generate(&bundle, "p", &deps()).unwrap();
    assert!(out.contains(
        "pub fn from_request(command_index: u32, request: &SchemaCommandRequest) -> \
         Result<WidgetCommandRequest, DecodeError> { match command_index { \
         1 => Ok(WidgetCommandRequest::TestCommand(crate::schema::p::Payload::from_type(&request.object)?)), \
         _ => Err(DecodeError::UnknownCommandIndex { component: \"Widget\", command_index }), } }"
    ));
    assert!(out.contains(
        "1 => Ok(WidgetCommandResponse::TestCommand(crate::schema::p::Payload::from_type(&response.object)?)), "
    ));
    assert!(out.contains(
        "pub fn to_request(request: &WidgetCommandRequest) -> Result<SchemaCommandRequest, DecodeError> { \
         let mut serialized = SchemaCommandRequest::new(); match request { \
         WidgetCommandRequest::TestCommand(data) => { \
         crate::schema::p::Payload::to_type(data, &mut serialized.object)?; }, } Ok(serialized) }"
    ));
    assert!(out.contains(
        "WidgetCommandResponse::TestCommand(data) => { \
         crate::schema::p::Payload::to_type(data, &mut serialized.object)?; }, "
    ));
}

/// A map-shaped field renders with the full `std::collections` path, so
/// generated code resolves it without any extra import.
#[test]
fn map_fields_render_with_their_full_path() {
    let mut bundle = example_bundle();
    if let Some(v1) = bundle.v1.as_mut() {
        v1.type_definitions.push(TypeDefinition {
            identifier: identifier("p.Table", "Table", &["p", "Table"]),
            field_definitions: vec![FieldDefinition {
                identifier: identifier("p.Table.entries", "entries", &["p", "Table", "entries"]),
                field_id: 1,
                transient: false,
                ty: FieldTypeDefinition::Mapping {
                    key_type: ValueTypeReference::Primitive(PrimitiveType::Uint32),
                    value_type: ValueTypeReference::Primitive(PrimitiveType::String),
                },
            }],
        });
    }
    let out = generate(&bundle, "p", &deps()).unwrap();
    assert!(out.contains(
        "pub struct Table { pub entries: std::collections::BTreeMap<u32, String>, }"
    ));
}

/// Generating for one package keeps sibling packages out, except as
/// resolved reference paths.
#[test]
fn package_filtering_excludes_siblings() {
    let mut bundle = example_bundle();
    if let Some(v1) = bundle.v1.as_mut() {
        v1.enum_definitions.push(color_enum("q"));
    }
    let mut dependencies = deps();
    dependencies.push(("q".to_string(), "crate::other".to_string()));
    let out = generate(&bundle, "p", &dependencies).unwrap();
    assert!(out.contains("pub mod p {\n"));
    assert!(!out.contains("pub mod q {\n"));

    let out_q = generate(&bundle, "q", &dependencies).unwrap();
    assert!(out_q.contains("pub mod q {\n"));
    assert!(!out_q.contains("Widget"));
}

#[test]
fn unsupported_bundle_version_is_refused() {
    let bundle = SchemaBundle {
        v1: None,
        source_map_v1: None,
    };
    assert!(matches!(
        generate(&bundle, "p", &deps()),
        Err(GenerationError::UnsupportedBundleVersion)
    ));
}

#[test]
fn missing_definition_fails_generation() {
    let mut bundle = example_bundle();
    if let Some(v1) = bundle.v1.as_mut() {
        v1.type_definitions.clear();
    }
    match generate(&bundle, "p", &deps()) {
        Err(GenerationError::MissingDefinition { qualified_name }) => {
            assert_eq!(qualified_name, "p.Payload");
        }
        other => panic!("expected a missing definition, got {:?}", other),
    }
}

#[test]
fn unresolved_dependency_fails_generation() {
    let bundle = example_bundle();
    let empty: Vec<(String, String)> = vec![];
    match generate(&bundle, "p", &empty) {
        Err(GenerationError::UnresolvedDependency { qualified_name }) => {
            assert_eq!(qualified_name, "p.Payload");
        }
        other => panic!("expected an unresolved dependency, got {:?}", other),
    }
}

/// Modules render in sorted name order whatever the declaration order.
#[test]
fn modules_render_in_sorted_order() {
    let mut bundle = SchemaBundle {
        v1: Some(SchemaBundleV1 {
            enum_definitions: vec![color_enum("p.zeta"), color_enum("p.alpha")],
            type_definitions: vec![],
            component_definitions: vec![],
        }),
        source_map_v1: None,
    };
    // Fix the nested identifiers' paths for the two nested packages.
    if let Some(v1) = bundle.v1.as_mut() {
        v1.enum_definitions[0].identifier.path =
            vec!["p".to_string(), "zeta".to_string(), "Color".to_string()];
        v1.enum_definitions[1].identifier.path =
            vec!["p".to_string(), "alpha".to_string(), "Color".to_string()];
    }
    let out = generate(&bundle, "p", &deps()).unwrap();
    let alpha = out.find("pub mod alpha").unwrap();
    let zeta = out.find("pub mod zeta").unwrap();
    assert!(alpha < zeta);
}
