use vstd::prelude::*;

verus! {

/// The bookkeeping roles that every entity type fills with one field each.
#[derive(Clone, Copy, Debug, PartialEq, Eq, Structural)]
pub enum Role {
    Id,
    Database,
    Created,
    LastUpdated,
}

/// The type of a declared field.
#[derive(Clone, Copy, Debug, PartialEq, Eq, Structural)]
pub enum FieldType {
    /// `u64`, which is also the identity type.
    U64,
    I64,
    Bool,
    Text,
    /// An optional weak handle on the owning database.
    OptionalDatabase,
}

/// A capability that an entity type derives.
#[derive(Clone, Copy, Debug, PartialEq, Eq, Structural)]
pub enum Capability {
    /// The duplication capability.
    Clone,
    /// The entity capability.
    Ent,
    Debug,
    PartialEq,
}

/// A field as declared: its name, its type, and the role it is marked with.
#[derive(Clone, Debug, PartialEq, Eq)]
pub struct FieldDecl {
    pub name: String,
    pub ty: FieldType,
    pub role: Option<Role>,
}

/// The shape of an entity type: its fields in order and what it derives.
#[derive(Clone, Debug, PartialEq, Eq)]
pub struct EntShape {
    pub fields: Vec<FieldDecl>,
    pub derives: Vec<Capability>,
}

/// The names to give synthesized role fields; a role left at `None` takes
/// its default name.
#[derive(Clone, Debug, PartialEq, Eq, Default)]
pub struct FieldNames {
    pub id: Option<String>,
    pub database: Option<String>,
    pub created: Option<String>,
    pub last_updated: Option<String>,
}

/// Why a shape cannot be made an entity type.
#[derive(Clone, Copy, Debug, PartialEq, Eq, Structural)]
pub enum SchemaError {
    /// A field marked with a role has a type that the role does not take.
    IncompatibleType,
    /// Two fields are marked with the same role.
    DuplicateRole,
    /// Two fields are declared under the same name.
    DuplicateField,
    /// A capability is derived twice.
    DuplicateCapability,
    /// Two roles are given the same field name.
    ConflictingNames,
    /// A field that would be synthesized is named like a declared field.
    FieldNameTaken,
}

/// The type that a field in `role` must have.
pub open spec fn role_type(role: Role) -> FieldType {
    match role {
        Role::Database => FieldType::OptionalDatabase,
        _ => FieldType::U64,
    }
}

pub open spec fn default_name(role: Role) -> Seq<char> {
    match role {
        Role::Id => "id"@,
        Role::Database => "database"@,
        Role::Created => "created"@,
        Role::LastUpdated => "last_updated"@,
    }
}

pub open spec fn chosen_name(given: Option<String>, role: Role) -> Seq<char> {
    match given {
        Some(s) => s@,
        None => default_name(role),
    }
}

/// The name that a synthesized field in `role` gets.
pub open spec fn role_name(names: FieldNames, role: Role) -> Seq<char> {
    match role {
        Role::Id => chosen_name(names.id, role),
        Role::Database => chosen_name(names.database, role),
        Role::Created => chosen_name(names.created, role),
        Role::LastUpdated => chosen_name(names.last_updated, role),
    }
}

/// A field as its name, type and role.
pub type FieldModel = (Seq<char>, FieldType, Option<Role>);

pub open spec fn field_model(f: FieldDecl) -> FieldModel {
    (f.name@, f.ty, f.role)
}

pub open spec fn field_models(fields: Seq<FieldDecl>) -> Seq<FieldModel> {
    fields.map_values(|f: FieldDecl| field_model(f))
}

pub open spec fn has_role(fields: Seq<FieldDecl>, role: Role) -> bool {
    exists|i: int| 0 <= i < fields.len() && fields[i].role == Some(role)
}

pub open spec fn mistyped_role(fields: Seq<FieldDecl>) -> bool {
    exists|i: int|
        0 <= i < fields.len() && #[trigger] fields[i].role is Some && fields[i].ty != role_type(
            fields[i].role.unwrap(),
        )
}

pub open spec fn repeated_role(fields: Seq<FieldDecl>) -> bool {
    exists|i: int, j: int|
        0 <= i < j < fields.len() && (#[trigger] fields[i].role) is Some && fields[i].role == (
        #[trigger] fields[j].role)
}

pub open spec fn repeated_name(fields: Seq<FieldDecl>) -> bool {
    exists|i: int, j: int|
        0 <= i < j < fields.len() && (#[trigger] fields[i]).name@ == (#[trigger] fields[j]).name@
}

pub open spec fn repeated_capability(derives: Seq<Capability>) -> bool {
    exists|i: int, j: int| 0 <= i < j < derives.len() && #[trigger] derives[i] == #[trigger] derives[j]
}

pub open spec fn names_conflict(names: FieldNames) -> bool {
    let id = role_name(names, Role::Id);
    let db = role_name(names, Role::Database);
    let created = role_name(names, Role::Created);
    let updated = role_name(names, Role::LastUpdated);
    id == db || id == created || id == updated || db == created || db == updated || created
        == updated
}

pub open spec fn name_used(fields: Seq<FieldDecl>, name: Seq<char>) -> bool {
    exists|i: int| 0 <= i < fields.len() && #[trigger] fields[i].name@ == name
}

/// Whether the field to be synthesized for `role` would clash by name.
pub open spec fn taken_for(fields: Seq<FieldDecl>, names: FieldNames, role: Role) -> bool {
    !has_role(fields, role) && name_used(fields, role_name(names, role))
}

pub open spec fn name_taken(fields: Seq<FieldDecl>, names: FieldNames) -> bool {
    taken_for(fields, names, Role::Id) || taken_for(fields, names, Role::Database) || taken_for(
        fields,
        names,
        Role::Created,
    ) || taken_for(fields, names, Role::LastUpdated)
}

/// What is wrong with a shape, checked in this order, or `None`.
pub open spec fn shape_error(shape: EntShape, names: FieldNames) -> Option<SchemaError> {
    if mistyped_role(shape.fields@) {
        Some(SchemaError::IncompatibleType)
    } else if repeated_role(shape.fields@) {
        Some(SchemaError::DuplicateRole)
    } else if repeated_name(shape.fields@) {
        Some(SchemaError::DuplicateField)
    } else if repeated_capability(shape.derives@) {
        Some(SchemaError::DuplicateCapability)
    } else if names_conflict(names) {
        Some(SchemaError::ConflictingNames)
    } else if name_taken(shape.fields@, names) {
        Some(SchemaError::FieldNameTaken)
    } else {
        None
    }
}

/// The field synthesized for `role`: none where a field already has it.
pub open spec fn added_for(fields: Seq<FieldDecl>, names: FieldNames, role: Role) -> Seq<FieldModel> {
    if has_role(fields, role) {
        Seq::empty()
    } else {
        seq![(role_name(names, role), role_type(role), Some(role))]
    }
}

/// The fields synthesized for the missing roles, in role order.
pub open spec fn synthesized(fields: Seq<FieldDecl>, names: FieldNames) -> Seq<FieldModel> {
    added_for(fields, names, Role::Id) + added_for(fields, names, Role::Database) + added_for(
        fields,
        names,
        Role::Created,
    ) + added_for(fields, names, Role::LastUpdated)
}

pub open spec fn added_capability(derives: Seq<Capability>, c: Capability) -> Seq<Capability> {
    if derives.contains(c) {
        Seq::empty()
    } else {
        seq![c]
    }
}

/// The duplication and entity capabilities that a shape lacks, in order.
pub open spec fn missing_capabilities(derives: Seq<Capability>) -> Seq<Capability> {
    added_capability(derives, Capability::Clone) + added_capability(derives, Capability::Ent)
}

pub(crate) fn role_type_of(role: Role) -> (r: FieldType)
    ensures
        r == role_type(role),
{
    match role {
        Role::Database => FieldType::OptionalDatabase,
        _ => FieldType::U64,
    }
}

fn name_for(names: &FieldNames, role: Role) -> (r: String)
    ensures
        r@ == role_name(*names, role),
{
    let given = match role {
        Role::Id => &names.id,
        Role::Database => &names.database,
        Role::Created => &names.created,
        Role::LastUpdated => &names.last_updated,
    };
    match given {
        Some(s) => s.clone(),
        None => match role {
            Role::Id => "id".to_owned(),
            Role::Database => "database".to_owned(),
            Role::Created => "created".to_owned(),
            Role::LastUpdated => "last_updated".to_owned(),
        },
    }
}

fn has_role_in(fields: &Vec<FieldDecl>, role: Role) -> (r: bool)
    ensures
        r == has_role(fields@, role),
{
    let mut i: usize = 0;
    while i < fields.len()
        invariant
            i <= fields.len(),
            forall|k: int| 0 <= k < i ==> fields@[k].role != Some(role),
        decreases fields.len() - i,
    {
        match fields[i].role {
            Some(x) => {
                if x == role {
                    return true;
                }
            },
            None => {},
        }
        i = i + 1;
    }
    false
}

fn has_mistyped_role(fields: &Vec<FieldDecl>) -> (r: bool)
    ensures
        r == mistyped_role(fields@),
{
    let mut i: usize = 0;
    while i < fields.len()
        invariant
            i <= fields.len(),
            forall|k: int|
                0 <= k < i ==> !(#[trigger] fields@[k].role is Some && fields@[k].ty != role_type(
                    fields@[k].role.unwrap(),
                )),
        decreases fields.len() - i,
    {
        match fields[i].role {
            Some(x) => {
                if fields[i].ty != role_type_of(x) {
                    return true;
                }
            },
            None => {},
        }
        i = i + 1;
    }
    false
}

fn has_repeated_role(fields: &Vec<FieldDecl>) -> (r: bool)
    ensures
        r == repeated_role(fields@),
{
    let mut i: usize = 0;
    while i < fields.len()
        invariant
            i <= fields.len(),
            forall|a: int, b: int|
                0 <= a < i && a < b < fields.len() ==> !((#[trigger] fields@[a].role) is Some
                    && fields@[a].role == (#[trigger] fields@[b].role)),
        decreases fields.len() - i,
    {
        match fields[i].role {
            Some(x) => {
                let mut j: usize = i + 1;
                while j < fields.len()
                    invariant
                        i < j <= fields.len(),
                        fields@[i as int].role == Some(x),
                        forall|a: int, b: int|
                            0 <= a < i && a < b < fields.len() ==> !((#[trigger] fields@[a].role)
                                is Some && fields@[a].role == (#[trigger] fields@[b].role)),
                        forall|b: int| i < b < j ==> (#[trigger] fields@[b].role) != Some(x),
                    decreases fields.len() - j,
                {
                    match fields[j].role {
                        Some(y) => {
                            if x == y {
                                return true;
                            }
                        },
                        None => {},
                    }
                    j = j + 1;
                }
            },
            None => {},
        }
        i = i + 1;
    }
    false
}

fn has_repeated_name(fields: &Vec<FieldDecl>) -> (r: bool)
    ensures
        r == repeated_name(fields@),
{
    let mut i: usize = 0;
    while i < fields.len()
        invariant
            i <= fields.len(),
            forall|a: int, b: int|
                0 <= a < i && a < b < fields.len() ==> (#[trigger] fields@[a]).name@ != (
                #[trigger] fields@[b]).name@,
        decreases fields.len() - i,
    {
        let mut j: usize = i + 1;
        while j < fields.len()
            invariant
                i < j <= fields.len(),
                forall|a: int, b: int|
                    0 <= a < i && a < b < fields.len() ==> (#[trigger] fields@[a]).name@ != (
                    #[trigger] fields@[b]).name@,
                forall|b: int| i < b < j ==> fields@[i as int].name@ != (#[trigger] fields@[b]).name@,
            decreases fields.len() - j,
        {
            if fields[i].name == fields[j].name {
                return true;
            }
            j = j + 1;
        }
        i = i + 1;
    }
    false
}

fn has_repeated_capability(derives: &Vec<Capability>) -> (r: bool)
    ensures
        r == repeated_capability(derives@),
{
    let mut i: usize = 0;
    while i < derives.len()
        invariant
            i <= derives.len(),
            forall|a: int, b: int|
                0 <= a < i && a < b < derives.len() ==> #[trigger] derives@[a] != #[trigger] derives@[b],
        decreases derives.len() - i,
    {
        let mut j: usize = i + 1;
        while j < derives.len()
            invariant
                i < j <= derives.len(),
                forall|a: int, b: int|
                    0 <= a < i && a < b < derives.len() ==> #[trigger] derives@[a]
                        != #[trigger] derives@[b],
                forall|b: int| i < b < j ==> derives@[i as int] != #[trigger] derives@[b],
            decreases derives.len() - j,
        {
            if derives[i] == derives[j] {
                return true;
            }
            j = j + 1;
        }
        i = i + 1;
    }
    false
}

fn has_capability(derives: &Vec<Capability>, c: Capability) -> (r: bool)
    ensures
        r == derives@.contains(c),
{
    let mut i: usize = 0;
    while i < derives.len()
        invariant
            i <= derives.len(),
            forall|k: int| 0 <= k < i ==> derives@[k] != c,
        decreases derives.len() - i,
    {
        if derives[i] == c {
            return true;
        }
        i = i + 1;
    }
    false
}

pub(crate) fn is_name_used(fields: &Vec<FieldDecl>, name: &String) -> (r: bool)
    ensures
        r == name_used(fields@, name@),
{
    let mut i: usize = 0;
    while i < fields.len()
        invariant
            i <= fields.len(),
            forall|k: int| 0 <= k < i ==> #[trigger] fields@[k].name@ != name@,
        decreases fields.len() - i,
    {
        if fields[i].name == *name {
            return true;
        }
        i = i + 1;
    }
    false
}

fn push_role_field(fields: &mut Vec<FieldDecl>, present: bool, names: &FieldNames, role: Role)
    ensures
        field_models(final(fields)@) == field_models(old(fields)@) + (if present {
            Seq::empty()
        } else {
            seq![(role_name(*names, role), role_type(role), Some(role))]
        }),
{
    if !present {
        let f = FieldDecl { name: name_for(names, role), ty: role_type_of(role), role: Some(role) };
        fields.push(f);
        assert(field_models(final(fields)@) =~= field_models(old(fields)@).push(field_model(f)));
    } else {
        assert(field_models(final(fields)@) =~= field_models(old(fields)@) + Seq::empty());
    }
}

fn push_capability(derives: &mut Vec<Capability>, present: bool, c: Capability)
    ensures
        final(derives)@ == old(derives)@ + (if present {
            Seq::empty()
        } else {
            seq![c]
        }),
{
    if !present {
        derives.push(c);
        assert(final(derives)@ =~= old(derives)@ + seq![c]);
    } else {
        assert(final(derives)@ =~= old(derives)@ + Seq::empty());
    }
}

/// Makes `shape` an entity type: gives it a field for each role that no
/// field is marked with, named after `names` or by default, and derives the
/// duplication and entity capabilities where it does not yet. Declared
/// fields and derives are kept as they are, in front.
///
/// Fails, as `shape_error` says, where a role field has the wrong type, a
/// role, a field name or a capability is declared twice, two roles are
/// given one name, or a synthesized field would take the name of a
/// declared one.
pub fn simple_ent(names: &FieldNames, shape: EntShape) -> (r: Result<EntShape, SchemaError>)
    ensures
        shape_error(shape, *names) matches Some(e) ==> r == Err::<EntShape, SchemaError>(e),
        shape_error(shape, *names) is None ==> (r matches Ok(out) && field_models(out.fields@)
            == field_models(shape.fields@) + synthesized(shape.fields@, *names) && out.derives@
            == shape.derives@ + missing_capabilities(shape.derives@)),
        r matches Ok(out) ==> is_entity_type(out),
{
    if has_mistyped_role(&shape.fields) {
        return Err(SchemaError::IncompatibleType);
    }
    if has_repeated_role(&shape.fields) {
        return Err(SchemaError::DuplicateRole);
    }
    if has_repeated_name(&shape.fields) {
        return Err(SchemaError::DuplicateField);
    }
    if has_repeated_capability(&shape.derives) {
        return Err(SchemaError::DuplicateCapability);
    }
    let id_name = name_for(names, Role::Id);
    let db_name = name_for(names, Role::Database);
    let created_name = name_for(names, Role::Created);
    let updated_name = name_for(names, Role::LastUpdated);
    if id_name == db_name || id_name == created_name || id_name == updated_name || db_name
        == created_name || db_name == updated_name || created_name == updated_name {
        return Err(SchemaError::ConflictingNames);
    }
    let has_id = has_role_in(&shape.fields, Role::Id);
    let has_db = has_role_in(&shape.fields, Role::Database);
    let has_created = has_role_in(&shape.fields, Role::Created);
    let has_updated = has_role_in(&shape.fields, Role::LastUpdated);
    if (!has_id && is_name_used(&shape.fields, &id_name)) || (!has_db && is_name_used(
        &shape.fields,
        &db_name,
    )) || (!has_created && is_name_used(&shape.fields, &created_name)) || (!has_updated
        && is_name_used(&shape.fields, &updated_name)) {
        return Err(SchemaError::FieldNameTaken);
    }
    let ghost before = shape.fields@;
    let ghost before_derives = shape.derives@;
    let EntShape { mut fields, mut derives } = shape;
    push_role_field(&mut fields, has_id, names, Role::Id);
    push_role_field(&mut fields, has_db, names, Role::Database);
    push_role_field(&mut fields, has_created, names, Role::Created);
    push_role_field(&mut fields, has_updated, names, Role::LastUpdated);
    assert(field_models(fields@) =~= field_models(before) + synthesized(before, *names));
    let has_clone = has_capability(&derives, Capability::Clone);
    let has_ent = has_capability(&derives, Capability::Ent);
    push_capability(&mut derives, has_clone, Capability::Clone);
    push_capability(&mut derives, has_ent, Capability::Ent);
    assert(derives@ =~= before_derives + missing_capabilities(before_derives));
    let out = EntShape { fields, derives };
    proof {
        lemma_normalized_is_entity_type(shape, *names, out);
    }
    Ok(out)
}

/// No name given for any role: every synthesized field takes its default.
pub open spec fn default_names() -> FieldNames {
    FieldNames { id: None, database: None, created: None, last_updated: None }
}

pub open spec fn no_roles(fields: Seq<FieldDecl>) -> bool {
    forall|i: int| 0 <= i < fields.len() ==> (#[trigger] fields[i]).role is None
}

proof fn lemma_default_names_differ()
    ensures
        default_name(Role::Id).len() == 2,
        default_name(Role::Database).len() == 8,
        default_name(Role::Created).len() == 7,
        default_name(Role::LastUpdated).len() == 12,
{
    reveal_strlit("id");
    reveal_strlit("database");
    reveal_strlit("created");
    reveal_strlit("last_updated");
}

proof fn lemma_no_roles_present(fields: Seq<FieldDecl>, role: Role)
    requires
        no_roles(fields),
    ensures
        !has_role(fields, role),
        !mistyped_role(fields),
        !repeated_role(fields),
{
    assert(!has_role(fields, role)) by {
        if has_role(fields, role) {
            let i = choose|i: int| 0 <= i < fields.len() && fields[i].role == Some(role);
            assert(fields[i].role is None);
        }
    }
    assert(!repeated_role(fields)) by {
        if repeated_role(fields) {
            let (i, j) = choose|i: int, j: int|
                0 <= i < j < fields.len() && (#[trigger] fields[i].role) is Some && fields[i].role
                    == (#[trigger] fields[j].role);
            assert(fields[i].role is None);
        }
    }
}

/// A shape that marks no field with a role, declares no name and derives
/// nothing twice, and has no field named like a role's default is accepted with no names given,
/// and gains the four role fields under their default names and types.
pub proof fn lemma_fills_in_every_role(shape: EntShape)
    requires
        no_roles(shape.fields@),
        !repeated_name(shape.fields@),
        !repeated_capability(shape.derives@),
        forall|r: Role| !name_used(shape.fields@, #[trigger] default_name(r)),
    ensures
        shape_error(shape, default_names()) is None,
        synthesized(shape.fields@, default_names()) == seq![
            ("id"@, FieldType::U64, Some(Role::Id)),
            ("database"@, FieldType::OptionalDatabase, Some(Role::Database)),
            ("created"@, FieldType::U64, Some(Role::Created)),
            ("last_updated"@, FieldType::U64, Some(Role::LastUpdated)),
        ],
{
    let fields = shape.fields@;
    lemma_default_names_differ();
    lemma_no_roles_present(fields, Role::Id);
    lemma_no_roles_present(fields, Role::Database);
    lemma_no_roles_present(fields, Role::Created);
    lemma_no_roles_present(fields, Role::LastUpdated);
    assert(!name_used(fields, default_name(Role::Id)));
    assert(!name_used(fields, default_name(Role::Database)));
    assert(!name_used(fields, default_name(Role::Created)));
    assert(!name_used(fields, default_name(Role::LastUpdated)));
    assert(synthesized(fields, default_names()) =~= seq![
        ("id"@, FieldType::U64, Some(Role::Id)),
        ("database"@, FieldType::OptionalDatabase, Some(Role::Database)),
        ("created"@, FieldType::U64, Some(Role::Created)),
        ("last_updated"@, FieldType::U64, Some(Role::LastUpdated)),
    ]);
}

/// Names given for the identity and creation roles only: a shape with no
/// role fields gains fields under those two names, and under the default
/// names for the database and last-update roles, wherever the four names
/// are distinct and free.
pub proof fn lemma_renames_given_roles(shape: EntShape, id: String, created: String)
    requires
        no_roles(shape.fields@),
        !repeated_name(shape.fields@),
        !repeated_capability(shape.derives@),
        id@ != created@,
        id@ != "database"@,
        id@ != "last_updated"@,
        created@ != "database"@,
        created@ != "last_updated"@,
        !name_used(shape.fields@, id@),
        !name_used(shape.fields@, created@),
        !name_used(shape.fields@, "database"@),
        !name_used(shape.fields@, "last_updated"@),
    ensures
        ({
            let names = FieldNames {
                id: Some(id),
                database: None,
                created: Some(created),
                last_updated: None,
            };
            &&& shape_error(shape, names) is None
            &&& synthesized(shape.fields@, names) == seq![
                (id@, FieldType::U64, Some(Role::Id)),
                ("database"@, FieldType::OptionalDatabase, Some(Role::Database)),
                (created@, FieldType::U64, Some(Role::Created)),
                ("last_updated"@, FieldType::U64, Some(Role::LastUpdated)),
            ]
        }),
{
    let fields = shape.fields@;
    let names = FieldNames { id: Some(id), database: None, created: Some(created), last_updated: None };
    lemma_default_names_differ();
    lemma_no_roles_present(fields, Role::Id);
    lemma_no_roles_present(fields, Role::Database);
    lemma_no_roles_present(fields, Role::Created);
    lemma_no_roles_present(fields, Role::LastUpdated);
    assert(synthesized(fields, names) =~= seq![
        (id@, FieldType::U64, Some(Role::Id)),
        ("database"@, FieldType::OptionalDatabase, Some(Role::Database)),
        (created@, FieldType::U64, Some(Role::Created)),
        ("last_updated"@, FieldType::U64, Some(Role::LastUpdated)),
    ]);
}

/// A shape that already derives the duplication and entity capabilities
/// gets no further derive, and the derives of an accepted shape never hold
/// a capability twice after normalization.
pub proof fn lemma_keeps_declared_capabilities(derives: Seq<Capability>)
    ensures
        derives.contains(Capability::Clone) && derives.contains(Capability::Ent)
            ==> derives + missing_capabilities(derives) == derives,
        !repeated_capability(derives) ==> !repeated_capability(
            derives + missing_capabilities(derives),
        ),
        (derives + missing_capabilities(derives)).contains(Capability::Clone),
        (derives + missing_capabilities(derives)).contains(Capability::Ent),
{
    let all = derives + missing_capabilities(derives);
    let n = derives.len() as int;
    let extra = missing_capabilities(derives);
    assert(extra.len() <= 2);
    if derives.contains(Capability::Clone) && derives.contains(Capability::Ent) {
        assert(all =~= derives);
    }
    if derives.contains(Capability::Clone) {
        let i = choose|i: int| 0 <= i < derives.len() && derives[i] == Capability::Clone;
        assert(all[i] == Capability::Clone);
    } else {
        assert(all[n] == Capability::Clone);
    }
    if derives.contains(Capability::Ent) {
        let i = choose|i: int| 0 <= i < derives.len() && derives[i] == Capability::Ent;
        assert(all[i] == Capability::Ent);
    } else {
        assert(all[n + added_capability(derives, Capability::Clone).len()] == Capability::Ent);
    }
    if !repeated_capability(derives) && repeated_capability(all) {
        let (i, j) = choose|i: int, j: int| 0 <= i < j < all.len() && #[trigger] all[i] == #[trigger] all[j];
        if j < n {
            assert(derives[i] == derives[j]);
        } else if i < n {
            assert(derives.contains(all[j]));
            assert(derives[i] == all[j]);
        } else {
            assert(extra[i - n] == extra[j - n]);
        }
    }
}

/// Exactly one field has `role`, and it has the role's type.
pub open spec fn role_once(models: Seq<FieldModel>, role: Role) -> bool {
    exists|i: int|
        0 <= i < models.len() && (#[trigger] models[i]).2 == Some(role) && models[i].1 == role_type(role)
            && forall|j: int| 0 <= j < models.len() && (#[trigger] models[j]).2 == Some(role) ==> j == i
}

pub open spec fn distinct_names(models: Seq<FieldModel>) -> bool {
    forall|i: int, j: int| 0 <= i < j < models.len() ==> (#[trigger] models[i]).0 != (#[trigger] models[j]).0
}

/// What every entity type has: fields under distinct names, each role on
/// exactly one field of the role's type, and the duplication and entity
/// capabilities, none of its capabilities derived twice.
pub open spec fn is_entity_type(shape: EntShape) -> bool {
    let models = field_models(shape.fields@);
    &&& distinct_names(models)
    &&& role_once(models, Role::Id)
    &&& role_once(models, Role::Database)
    &&& role_once(models, Role::Created)
    &&& role_once(models, Role::LastUpdated)
    &&& shape.derives@.contains(Capability::Clone)
    &&& shape.derives@.contains(Capability::Ent)
    &&& !repeated_capability(shape.derives@)
}

proof fn lemma_synthesized_roles(fields: Seq<FieldDecl>, names: FieldNames)
    ensures
        ({
            let s = synthesized(fields, names);
            &&& forall|k: int|
                0 <= k < s.len() ==> (#[trigger] s[k]).2 is Some && !has_role(fields, s[k].2.unwrap())
                    && s[k].1 == role_type(s[k].2.unwrap()) && s[k].0 == role_name(names, s[k].2.unwrap())
            &&& forall|k1: int, k2: int|
                0 <= k1 < s.len() && 0 <= k2 < s.len() && (#[trigger] s[k1]).2 == (#[trigger] s[k2]).2
                    ==> k1 == k2
            &&& forall|r: Role| !has_role(fields, r) ==> exists|k: int| 0 <= k < s.len() && (#[trigger] s[k]).2 == Some(r)
        }),
{
    let a = added_for(fields, names, Role::Id);
    let b = added_for(fields, names, Role::Database);
    let c = added_for(fields, names, Role::Created);
    let d = added_for(fields, names, Role::LastUpdated);
    let s = synthesized(fields, names);
    assert(s == a + b + c + d);
    let la = a.len() as int;
    let lb = b.len() as int;
    let lc = c.len() as int;
    assert forall|k: int| 0 <= k < s.len() implies (s[k] == if k < la {
        a[k]
    } else if k < la + lb {
        b[k - la]
    } else if k < la + lb + lc {
        c[k - la - lb]
    } else {
        d[k - la - lb - lc]
    }) by {}
    assert forall|r: Role| !has_role(fields, r) implies exists|k: int| 0 <= k < s.len() && (#[trigger] s[k]).2 == Some(r) by {
        match r {
            Role::Id => assert(s[0].2 == Some(r)),
            Role::Database => assert(s[la].2 == Some(r)),
            Role::Created => assert(s[la + lb].2 == Some(r)),
            Role::LastUpdated => assert(s[la + lb + lc].2 == Some(r)),
        }
    }
}

/// An accepted shape comes out an entity type: every role on exactly one
/// field of its type, and both capabilities derived, each once.
pub proof fn lemma_normalized_is_entity_type(shape: EntShape, names: FieldNames, out: EntShape)
    requires
        shape_error(shape, names) is None,
        field_models(out.fields@) == field_models(shape.fields@) + synthesized(shape.fields@, names),
        out.derives@ == shape.derives@ + missing_capabilities(shape.derives@),
    ensures
        is_entity_type(out),
{
    let fields = shape.fields@;
    let m = field_models(fields);
    let s = synthesized(fields, names);
    let all = field_models(out.fields@);
    let n = m.len() as int;
    lemma_synthesized_roles(fields, names);
    lemma_keeps_declared_capabilities(shape.derives@);
    assert forall|r: Role| role_once(all, r) by {
        assert forall|k: int| 0 <= k < n implies (#[trigger] m[k]) == (fields[k].name@, fields[k].ty, fields[k].role) by {}
        if has_role(fields, r) {
            let i = choose|i: int| 0 <= i < fields.len() && fields[i].role == Some(r);
            assert(all[i] == m[i]);
            assert(fields[i].role is Some);
            assert forall|j: int| 0 <= j < all.len() && (#[trigger] all[j]).2 == Some(r) implies j == i by {
                if j < n {
                    assert(all[j] == m[j]);
                    if j < i {
                        assert(fields[j].role == fields[i].role);
                    } else if i < j {
                        assert(fields[i].role == fields[j].role);
                    }
                } else {
                    assert(all[j] == s[j - n]);
                }
            }
        } else {
            let k = choose|k: int| 0 <= k < s.len() && (#[trigger] s[k]).2 == Some(r);
            assert(all[n + k] == s[k]);
            assert forall|j: int| 0 <= j < all.len() && (#[trigger] all[j]).2 == Some(r) implies j == n + k by {
                if j < n {
                    assert(all[j] == m[j]);
                    assert(fields[j].role == Some(r));
                } else {
                    assert(all[j] == s[j - n]);
                }
            }
        }
    }
    assert(distinct_names(all)) by {
        assert forall|i: int, j: int| 0 <= i < j < all.len() implies (#[trigger] all[i]).0 != (#[trigger] all[j]).0 by {
            if j < n {
                assert(all[i] == m[i] && all[j] == m[j]);
                assert(m[i].0 == fields[i].name@ && m[j].0 == fields[j].name@);
            } else if i < n {
                assert(all[i] == m[i] && all[j] == s[j - n]);
                assert(m[i].0 == fields[i].name@);
                let r = s[j - n].2.unwrap();
                assert(!taken_for(fields, names, r));
                assert(!name_used(fields, role_name(names, r)));
            } else {
                assert(all[i] == s[i - n] && all[j] == s[j - n]);
                assert(s[i - n].2 != s[j - n].2);
            }
        }
    }
    assert(role_once(all, Role::Id));
    assert(role_once(all, Role::Database));
    assert(role_once(all, Role::Created));
    assert(role_once(all, Role::LastUpdated));
}

} // verus!
