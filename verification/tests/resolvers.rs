use spatialos_codegen::bundle::{GenerationError, Identifier, PrimitiveType, TypeReference};
use spatialos_codegen::bundle::{SchemaBundleV1, TypeDefinition};

fn identifier(qualified: &str, name: &str, path: &[&str]) -> Identifier {
    Identifier {
        qualified_name: qualified.to_string(),
        name: name.to_string(),
        path: path.iter().map(|s| s.to_string()).collect(),
    }
}

/// Nested package names resolve against the longest matching dependency
/// key, so an entity of `foo.bar.baz.quux` is never treated as belonging
/// to `foo`.
#[test]
fn reference_path_construction() {
    let identifier = Identifier {
        qualified_name: "foo.bar.baz.quux.SomeType".into(),
        name: "SomeType".into(),
        path: vec![
            "foo".into(),
            "bar".into(),
            "baz".into(),
            "quux".into(),
            "SomeType".into(),
        ],
    };

    let dependencies = vec![
        ("foo".to_string(), "foo::schema".to_string()),
        ("foo.bar".to_string(), "bar::schema".to_string()),
        ("foo.bar.baz".to_string(), "baz::schema".to_string()),
        ("foo.bar.baz.quux".to_string(), "quux::schema".to_string()),
    ];

    let result = identifier.reference_path(&dependencies).unwrap();
    assert_eq!(
        result.to_string(),
        "quux::schema::foo::bar::baz::quux::SomeType"
    );
}

#[test]
fn longest_prefix_wins_in_any_table_order() {
    let id = identifier("foo.bar.baz.Quux", "Quux", &["foo", "bar", "baz", "Quux"]);
    let dependencies = vec![
        ("foo.bar".to_string(), "B".to_string()),
        ("foo".to_string(), "A".to_string()),
    ];
    let result = id.reference_path(&dependencies).unwrap();
    assert_eq!(result, "B::foo::bar::baz::Quux");
}

#[test]
fn unresolved_dependency_is_reported() {
    let id = identifier("mystery.Thing", "Thing", &["mystery", "Thing"]);
    let dependencies = vec![("foo".to_string(), "A".to_string())];
    match id.reference_path(&dependencies) {
        Err(GenerationError::UnresolvedDependency { qualified_name }) => {
            assert_eq!(qualified_name, "mystery.Thing");
        }
        other => panic!("expected an unresolved dependency, got {:?}", other),
    }
}

#[test]
fn package_path_stops_at_the_first_type_segment() {
    let id = identifier("foo.bar.Baz", "Baz", &["foo", "bar", "Baz"]);
    assert_eq!(id.package_path(), vec!["foo".to_string(), "bar".to_string()]);

    let nested = identifier(
        "foo.bar.Baz.Inner",
        "Inner",
        &["foo", "bar", "Baz", "Inner"],
    );
    assert_eq!(
        nested.package_path(),
        vec!["foo".to_string(), "bar".to_string()]
    );
}

#[test]
fn namespace_path_renders_module_names() {
    let id = identifier(
        "x.Quux",
        "Quux",
        &["foo_foo", "BarBar", "bazBaz", "Quux"],
    );
    assert_eq!(
        id.namespace_path(),
        vec![
            "foo_foo".to_string(),
            "bar_bar".to_string(),
            "baz_baz".to_string()
        ]
    );
}

#[test]
fn referenced_type_lookup() {
    let bundle = SchemaBundleV1 {
        enum_definitions: vec![],
        type_definitions: vec![TypeDefinition {
            identifier: identifier("pkg.Known", "Known", &["pkg", "Known"]),
            field_definitions: vec![],
        }],
        component_definitions: vec![],
    };
    let found = bundle
        .get_referenced_type(&TypeReference {
            qualified_name: "pkg.Known".to_string(),
        })
        .unwrap();
    assert_eq!(found.identifier.name, "Known");
    match bundle.get_referenced_type(&TypeReference {
        qualified_name: "pkg.Missing".to_string(),
    }) {
        Err(GenerationError::MissingDefinition { qualified_name }) => {
            assert_eq!(qualified_name, "pkg.Missing");
        }
        other => panic!("expected a missing definition, got {:?}", other),
    }
}

#[test]
fn primitive_scalar_names() {
    assert_eq!(PrimitiveType::Int32.scalar_name().unwrap(), "i32");
    assert_eq!(PrimitiveType::Uint64.scalar_name().unwrap(), "u64");
    assert_eq!(PrimitiveType::Bool.scalar_name().unwrap(), "bool");
    assert_eq!(PrimitiveType::Double.scalar_name().unwrap(), "f64");
    assert_eq!(PrimitiveType::Bytes.scalar_name().unwrap(), "Vec<u8>");
    assert_eq!(
        PrimitiveType::EntityId.scalar_name().unwrap(),
        "spatialos_sdk::worker::EntityId"
    );
    assert!(matches!(
        PrimitiveType::Invalid.scalar_name(),
        Err(GenerationError::InvalidPrimitiveType)
    ));
}
