use entity::{
    simple_ent, Capability, ConstructError, EntRecord, EntShape, FieldDecl, FieldNames, FieldType,
    FieldValue, Role, SchemaError,
};

fn field(name: &str, ty: FieldType, role: Option<Role>) -> FieldDecl {
    FieldDecl { name: name.to_string(), ty, role }
}

fn id_field() -> FieldDecl {
    field("id", FieldType::U64, Some(Role::Id))
}

fn database_field() -> FieldDecl {
    field("database", FieldType::OptionalDatabase, Some(Role::Database))
}

fn created_field() -> FieldDecl {
    field("created", FieldType::U64, Some(Role::Created))
}

fn last_updated_field() -> FieldDecl {
    field("last_updated", FieldType::U64, Some(Role::LastUpdated))
}

fn names(id: Option<&str>, database: Option<&str>, created: Option<&str>, last_updated: Option<&str>) -> FieldNames {
    FieldNames {
        id: id.map(|s| s.to_string()),
        database: database.map(|s| s.to_string()),
        created: created.map(|s| s.to_string()),
        last_updated: last_updated.map(|s| s.to_string()),
    }
}

fn value(name: &str, v: FieldValue) -> (String, FieldValue) {
    (name.to_string(), v)
}

/// Builds `SimpleEnt { id: 123, database: None, created: 456, last_updated: 789 }`
/// under the given field names and checks what it reads back.
fn build_and_check(shape: &EntShape, id: &str, database: &str, created: &str, last_updated: &str) {
    let ent = EntRecord::construct(
        shape,
        vec![
            value(id, FieldValue::U64(123)),
            value(database, FieldValue::Database(None)),
            value(created, FieldValue::U64(456)),
            value(last_updated, FieldValue::U64(789)),
        ],
    )
    .unwrap();

    assert_eq!(ent.get(id), Some(&FieldValue::U64(123)));
    assert!(matches!(ent.get(database), Some(FieldValue::Database(None))));
    assert_eq!(ent.get(created), Some(&FieldValue::U64(456)));
    assert_eq!(ent.get(last_updated), Some(&FieldValue::U64(789)));
}

fn role_names(shape: &EntShape) -> Vec<(String, Role)> {
    shape.fields.iter().filter_map(|f| f.role.map(|r| (f.name.clone(), r))).collect()
}

#[test]
fn adds_derive_clone_ent_when_missing() {
    let shape = EntShape {
        fields: vec![id_field(), database_field(), created_field(), last_updated_field()],
        derives: vec![],
    };
    let ent_type = simple_ent(&FieldNames::default(), shape).unwrap();
    assert_eq!(ent_type.derives, vec![Capability::Clone, Capability::Ent]);
    assert_eq!(ent_type.fields.len(), 4);
    build_and_check(&ent_type, "id", "database", "created", "last_updated");
}

#[test]
fn fills_in_derive_clone_when_missing() {
    let shape = EntShape {
        fields: vec![id_field(), database_field(), created_field(), last_updated_field()],
        derives: vec![Capability::Ent],
    };
    let ent_type = simple_ent(&FieldNames::default(), shape).unwrap();
    assert_eq!(ent_type.derives, vec![Capability::Ent, Capability::Clone]);
    build_and_check(&ent_type, "id", "database", "created", "last_updated");
}

#[test]
fn fills_in_derive_ent_when_missing() {
    let shape = EntShape {
        fields: vec![id_field(), database_field(), created_field(), last_updated_field()],
        derives: vec![Capability::Clone],
    };
    let ent_type = simple_ent(&FieldNames::default(), shape).unwrap();
    assert_eq!(ent_type.derives, vec![Capability::Clone, Capability::Ent]);
    build_and_check(&ent_type, "id", "database", "created", "last_updated");
}

#[test]
fn fills_in_ent_created_field_when_missing() {
    let shape = EntShape {
        fields: vec![id_field(), database_field(), last_updated_field()],
        derives: vec![Capability::Clone, Capability::Ent],
    };
    let ent_type = simple_ent(&FieldNames::default(), shape).unwrap();
    assert_eq!(ent_type.fields[3], created_field());
    assert_eq!(ent_type.derives, vec![Capability::Clone, Capability::Ent]);
    build_and_check(&ent_type, "id", "database", "created", "last_updated");
}

#[test]
fn fills_in_ent_database_field_when_missing() {
    let shape = EntShape {
        fields: vec![id_field(), created_field(), last_updated_field()],
        derives: vec![Capability::Clone, Capability::Ent],
    };
    let ent_type = simple_ent(&FieldNames::default(), shape).unwrap();
    assert_eq!(ent_type.fields[3], database_field());
    build_and_check(&ent_type, "id", "database", "created", "last_updated");
}

#[test]
fn fills_in_ent_id_field_when_missing() {
    let shape = EntShape {
        fields: vec![database_field(), created_field(), last_updated_field()],
        derives: vec![Capability::Clone, Capability::Ent],
    };
    let ent_type = simple_ent(&FieldNames::default(), shape).unwrap();
    assert_eq!(ent_type.fields[3], id_field());
    build_and_check(&ent_type, "id", "database", "created", "last_updated");
}

#[test]
fn fills_in_ent_last_updated_field_when_missing() {
    let shape = EntShape {
        fields: vec![id_field(), database_field(), created_field()],
        derives: vec![Capability::Clone, Capability::Ent],
    };
    let ent_type = simple_ent(&FieldNames::default(), shape).unwrap();
    assert_eq!(ent_type.fields[3], last_updated_field());
    build_and_check(&ent_type, "id", "database", "created", "last_updated");
}

#[test]
fn fills_in_everything_missing() {
    let shape = EntShape { fields: vec![], derives: vec![] };
    let ent_type = simple_ent(&FieldNames::default(), shape).unwrap();
    assert_eq!(
        ent_type.fields,
        vec![id_field(), database_field(), created_field(), last_updated_field()]
    );
    assert_eq!(ent_type.derives, vec![Capability::Clone, Capability::Ent]);
    build_and_check(&ent_type, "id", "database", "created", "last_updated");
}

#[test]
fn supports_renaming_ent_fields() {
    let shape = EntShape { fields: vec![], derives: vec![] };
    let config = names(Some("my_id"), Some("my_database"), Some("my_created"), Some("my_last_updated"));
    let ent_type = simple_ent(&config, shape).unwrap();
    assert_eq!(
        role_names(&ent_type),
        vec![
            ("my_id".to_string(), Role::Id),
            ("my_database".to_string(), Role::Database),
            ("my_created".to_string(), Role::Created),
            ("my_last_updated".to_string(), Role::LastUpdated),
        ]
    );
    build_and_check(&ent_type, "my_id", "my_database", "my_created", "my_last_updated");
}

#[test]
fn renames_only_the_roles_given() {
    let shape = EntShape { fields: vec![field("title", FieldType::Text, None)], derives: vec![] };
    let config = names(Some("my_id"), None, Some("my_created"), None);
    let ent_type = simple_ent(&config, shape).unwrap();
    assert_eq!(
        role_names(&ent_type),
        vec![
            ("my_id".to_string(), Role::Id),
            ("database".to_string(), Role::Database),
            ("my_created".to_string(), Role::Created),
            ("last_updated".to_string(), Role::LastUpdated),
        ]
    );
    assert_eq!(ent_type.fields[0], field("title", FieldType::Text, None));
}

#[test]
fn keeps_declared_fields_in_front() {
    let shape = EntShape {
        fields: vec![field("title", FieldType::Text, None), created_field(), field("pinned", FieldType::Bool, None)],
        derives: vec![Capability::Debug],
    };
    let ent_type = simple_ent(&FieldNames::default(), shape).unwrap();
    assert_eq!(
        ent_type.fields,
        vec![
            field("title", FieldType::Text, None),
            created_field(),
            field("pinned", FieldType::Bool, None),
            id_field(),
            database_field(),
            last_updated_field(),
        ]
    );
    assert_eq!(ent_type.derives, vec![Capability::Debug, Capability::Clone, Capability::Ent]);
}

#[test]
fn declared_role_keeps_its_own_name() {
    let shape = EntShape {
        fields: vec![field("key", FieldType::U64, Some(Role::Id))],
        derives: vec![],
    };
    let ent_type = simple_ent(&names(Some("my_id"), None, None, None), shape).unwrap();
    assert_eq!(ent_type.fields[0], field("key", FieldType::U64, Some(Role::Id)));
    assert_eq!(ent_type.fields.len(), 4);
}

#[test]
fn rejects_role_of_wrong_type() {
    let shape = EntShape { fields: vec![field("id", FieldType::Text, Some(Role::Id))], derives: vec![] };
    assert_eq!(simple_ent(&FieldNames::default(), shape), Err(SchemaError::IncompatibleType));
    let shape = EntShape { fields: vec![field("db", FieldType::U64, Some(Role::Database))], derives: vec![] };
    assert_eq!(simple_ent(&FieldNames::default(), shape), Err(SchemaError::IncompatibleType));
}

#[test]
fn rejects_role_declared_twice() {
    let shape = EntShape {
        fields: vec![created_field(), field("made", FieldType::U64, Some(Role::Created))],
        derives: vec![],
    };
    assert_eq!(simple_ent(&FieldNames::default(), shape), Err(SchemaError::DuplicateRole));
}

#[test]
fn rejects_capability_declared_twice() {
    let shape = EntShape { fields: vec![], derives: vec![Capability::Clone, Capability::Clone] };
    assert_eq!(simple_ent(&FieldNames::default(), shape), Err(SchemaError::DuplicateCapability));
}

#[test]
fn rejects_two_roles_under_one_name() {
    let shape = EntShape { fields: vec![], derives: vec![] };
    let config = names(Some("stamp"), None, None, Some("stamp"));
    assert_eq!(simple_ent(&config, shape), Err(SchemaError::ConflictingNames));
    let shape = EntShape { fields: vec![], derives: vec![] };
    let config = names(Some("created"), None, None, None);
    assert_eq!(simple_ent(&config, shape), Err(SchemaError::ConflictingNames));
}

#[test]
fn rejects_synthesized_name_already_taken() {
    let shape = EntShape { fields: vec![field("id", FieldType::Text, None)], derives: vec![] };
    assert_eq!(simple_ent(&FieldNames::default(), shape), Err(SchemaError::FieldNameTaken));
}

#[test]
fn wrong_type_is_reported_before_other_faults() {
    let shape = EntShape {
        fields: vec![id_field(), field("other", FieldType::Bool, Some(Role::Id))],
        derives: vec![Capability::Ent, Capability::Ent],
    };
    assert_eq!(simple_ent(&FieldNames::default(), shape), Err(SchemaError::IncompatibleType));
}

fn everything_missing() -> EntShape {
    simple_ent(&FieldNames::default(), EntShape { fields: vec![], derives: vec![] }).unwrap()
}

#[test]
fn construct_rejects_unknown_field() {
    let values = vec![
        value("id", FieldValue::U64(1)),
        value("database", FieldValue::Database(None)),
        value("created", FieldValue::U64(2)),
        value("last_updated", FieldValue::U64(3)),
        value("extra", FieldValue::Bool(true)),
    ];
    assert_eq!(EntRecord::construct(&everything_missing(), values).err(), Some(ConstructError::UnknownField));
}

#[test]
fn construct_rejects_duplicate_field() {
    let values = vec![
        value("id", FieldValue::U64(1)),
        value("id", FieldValue::U64(1)),
        value("database", FieldValue::Database(None)),
        value("created", FieldValue::U64(2)),
        value("last_updated", FieldValue::U64(3)),
    ];
    assert_eq!(EntRecord::construct(&everything_missing(), values).err(), Some(ConstructError::DuplicateField));
}

#[test]
fn construct_rejects_missing_field() {
    let values = vec![
        value("id", FieldValue::U64(1)),
        value("database", FieldValue::Database(None)),
        value("created", FieldValue::U64(2)),
    ];
    assert_eq!(EntRecord::construct(&everything_missing(), values).err(), Some(ConstructError::MissingField));
}

#[test]
fn construct_rejects_type_mismatch() {
    let values = vec![
        value("id", FieldValue::Text("one".to_string())),
        value("database", FieldValue::Database(None)),
        value("created", FieldValue::U64(2)),
        value("last_updated", FieldValue::U64(3)),
    ];
    assert_eq!(EntRecord::construct(&everything_missing(), values).err(), Some(ConstructError::TypeMismatch));
}

#[test]
fn construct_accepts_any_order_and_reads_absent_name_as_none() {
    let values = vec![
        value("last_updated", FieldValue::U64(3)),
        value("created", FieldValue::U64(2)),
        value("database", FieldValue::Database(None)),
        value("id", FieldValue::U64(1)),
    ];
    let ent = EntRecord::construct(&everything_missing(), values).unwrap();
    assert_eq!(ent.get("id"), Some(&FieldValue::U64(1)));
    assert_eq!(ent.get("last_updated"), Some(&FieldValue::U64(3)));
    assert_eq!(ent.get("title"), None);
}

#[test]
fn construct_rejects_shape_that_is_no_entity_type() {
    let shape = EntShape { fields: vec![id_field(), created_field()], derives: vec![] };
    let values = vec![value("id", FieldValue::U64(1)), value("created", FieldValue::U64(2))];
    assert_eq!(EntRecord::construct(&shape, values).err(), Some(ConstructError::NotEntityType));
}

#[test]
fn duplicate_copies_exactly() {
    let v = FieldValue::Text("note".to_string());
    assert_eq!(v.duplicate(), v);
}

#[test]
fn rejects_field_name_declared_twice() {
    let shape = EntShape {
        fields: vec![field("title", FieldType::Text, None), field("title", FieldType::Bool, None)],
        derives: vec![],
    };
    assert_eq!(simple_ent(&FieldNames::default(), shape), Err(SchemaError::DuplicateField));
}
