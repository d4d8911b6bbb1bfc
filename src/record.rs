use crate::ent::{Ent, Id};
use crate::global::WeakDatabaseRc;
use crate::schema::{
    field_model, field_models, is_name_used, name_used, role_type, role_type_of, EntShape, FieldDecl,
    FieldType, Role,
};
use vstd::prelude::*;

verus! {

/// The value of one field of an entity.
#[derive(Clone, Debug, PartialEq, Eq)]
pub enum FieldValue {
    U64(u64),
    I64(i64),
    Bool(bool),
    Text(String),
    Database(Option<WeakDatabaseRc>),
}

impl FieldValue {
    /// An exact copy.
    pub fn duplicate(&self) -> (r: FieldValue)
        ensures
            r == *self,
    {
        match self {
            FieldValue::U64(x) => FieldValue::U64(*x),
            FieldValue::I64(x) => FieldValue::I64(*x),
            FieldValue::Bool(b) => FieldValue::Bool(*b),
            FieldValue::Text(t) => FieldValue::Text(t.clone()),
            FieldValue::Database(h) => FieldValue::Database(*h),
        }
    }
}

/// The field type that a value fits.
pub open spec fn value_type(v: FieldValue) -> FieldType {
    match v {
        FieldValue::U64(_) => FieldType::U64,
        FieldValue::I64(_) => FieldType::I64,
        FieldValue::Bool(_) => FieldType::Bool,
        FieldValue::Text(_) => FieldType::Text,
        FieldValue::Database(_) => FieldType::OptionalDatabase,
    }
}

/// Why values do not make an instance of a shape.
#[derive(Clone, Copy, Debug, PartialEq, Eq, Structural)]
pub enum ConstructError {
    /// The shape lacks a field of the right type for some role.
    NotEntityType,
    /// A value names no field of the shape.
    UnknownField,
    /// Two values name the same field.
    DuplicateField,
    /// A field of the shape has no value.
    MissingField,
    /// A value does not fit the type of its field.
    TypeMismatch,
}

pub open spec fn assigned(values: Seq<(String, FieldValue)>, name: Seq<char>) -> bool {
    exists|j: int| 0 <= j < values.len() && #[trigger] values[j].0@ == name
}

pub open spec fn unknown_field(fields: Seq<FieldDecl>, values: Seq<(String, FieldValue)>) -> bool {
    exists|j: int| 0 <= j < values.len() && !name_used(fields, #[trigger] values[j].0@)
}

pub open spec fn duplicate_field(values: Seq<(String, FieldValue)>) -> bool {
    exists|j: int, k: int| 0 <= j < k < values.len() && (#[trigger] values[j]).0@ == (#[trigger] values[k]).0@
}

pub open spec fn missing_field(fields: Seq<FieldDecl>, values: Seq<(String, FieldValue)>) -> bool {
    exists|i: int| 0 <= i < fields.len() && !assigned(values, #[trigger] fields[i].name@)
}

pub open spec fn type_mismatch(fields: Seq<FieldDecl>, values: Seq<(String, FieldValue)>) -> bool {
    exists|i: int, j: int|
        0 <= i < fields.len() && 0 <= j < values.len() && (#[trigger] fields[i]).name@ == (
        #[trigger] values[j]).0@ && value_type(values[j].1) != fields[i].ty
}

/// Some field has `role` and the role's type.
pub open spec fn role_ready(fields: Seq<FieldDecl>, role: Role) -> bool {
    exists|i: int| 0 <= i < fields.len() && (#[trigger] fields[i]).role == Some(role) && fields[i].ty == role_type(role)
}

pub open spec fn roles_ready(fields: Seq<FieldDecl>) -> bool {
    role_ready(fields, Role::Id) && role_ready(fields, Role::Database) && role_ready(
        fields,
        Role::Created,
    ) && role_ready(fields, Role::LastUpdated)
}

/// What is wrong with building an instance of `shape` from `values`,
/// checked in this order, or `None`.
pub open spec fn construct_error(shape: EntShape, values: Seq<(String, FieldValue)>) -> Option<
    ConstructError,
> {
    if !roles_ready(shape.fields@) {
        Some(ConstructError::NotEntityType)
    } else if unknown_field(shape.fields@, values) {
        Some(ConstructError::UnknownField)
    } else if duplicate_field(values) {
        Some(ConstructError::DuplicateField)
    } else if missing_field(shape.fields@, values) {
        Some(ConstructError::MissingField)
    } else if type_mismatch(shape.fields@, values) {
        Some(ConstructError::TypeMismatch)
    } else {
        None
    }
}

/// An instance of an entity type: one value for each of its fields, and
/// where the value of each role's field stands.
pub struct EntRecord {
    values: Vec<(String, FieldValue)>,
    id_at: usize,
    database_at: usize,
    created_at: usize,
    last_updated_at: usize,
}

pub open spec fn slot_fits(values: Seq<(String, FieldValue)>, at: usize, ty: FieldType) -> bool {
    at < values.len() && value_type(values[at as int].1) == ty
}

impl EntRecord {
    /// Each role's slot holds a value of the role's type, and no two values
    /// stand under one name.
    #[verifier::type_invariant]
    spec fn slots_fit(self) -> bool {
        &&& !duplicate_field(self.values@)
        &&& slot_fits(self.values@, self.id_at, FieldType::U64)
        &&& slot_fits(self.values@, self.database_at, FieldType::OptionalDatabase)
        &&& slot_fits(self.values@, self.created_at, FieldType::U64)
        &&& slot_fits(self.values@, self.last_updated_at, FieldType::U64)
    }

    /// Where the value of the field in `role` stands.
    pub closed spec fn slot(self, role: Role) -> int {
        match role {
            Role::Id => self.id_at as int,
            Role::Database => self.database_at as int,
            Role::Created => self.created_at as int,
            Role::LastUpdated => self.last_updated_at as int,
        }
    }
}

impl View for EntRecord {
    type V = Seq<(String, FieldValue)>;

    closed spec fn view(&self) -> Seq<(String, FieldValue)> {
        self.values@
    }
}

fn is_assigned(values: &Vec<(String, FieldValue)>, name: &String) -> (r: bool)
    ensures
        r == assigned(values@, name@),
{
    let mut j: usize = 0;
    while j < values.len()
        invariant
            j <= values.len(),
            forall|k: int| 0 <= k < j ==> #[trigger] values@[k].0@ != name@,
        decreases values.len() - j,
    {
        if values[j].0 == *name {
            return true;
        }
        j = j + 1;
    }
    false
}

fn ready_field(fields: &Vec<FieldDecl>, role: Role) -> (r: Option<usize>)
    ensures
        r matches Some(i) ==> i < fields.len() && fields@[i as int].role == Some(role)
            && fields@[i as int].ty == role_type(role),
        r is None ==> !role_ready(fields@, role),
{
    let mut i: usize = 0;
    while i < fields.len()
        invariant
            i <= fields.len(),
            forall|k: int|
                0 <= k < i ==> !((#[trigger] fields@[k]).role == Some(role) && fields@[k].ty
                    == role_type(role)),
        decreases fields.len() - i,
    {
        match fields[i].role {
            Some(x) => {
                if x == role && fields[i].ty == role_type_of(role) {
                    return Some(i);
                }
            },
            None => {},
        }
        i = i + 1;
    }
    None
}

fn value_index(values: &Vec<(String, FieldValue)>, name: &String) -> (j: usize)
    requires
        assigned(values@, name@),
    ensures
        j < values.len(),
        values@[j as int].0@ == name@,
{
    let mut j: usize = 0;
    while j < values.len()
        invariant
            j <= values.len(),
            assigned(values@, name@),
            forall|k: int| 0 <= k < j ==> #[trigger] values@[k].0@ != name@,
        decreases values.len() - j,
    {
        if values[j].0 == *name {
            return j;
        }
        j = j + 1;
    }
    j
}

/// Where the value for the field at `i` stands, and that it fits the field.
fn slot_for(fields: &Vec<FieldDecl>, values: &Vec<(String, FieldValue)>, i: usize) -> (j: usize)
    requires
        i < fields.len(),
        !missing_field(fields@, values@),
        !type_mismatch(fields@, values@),
    ensures
        j < values.len(),
        values@[j as int].0@ == fields@[i as int].name@,
        value_type(values@[j as int].1) == fields@[i as int].ty,
{
    assert(assigned(values@, fields@[i as int].name@));
    let j = value_index(values, &fields[i].name);
    assert(fields@[i as int].name@ == values@[j as int].0@);
    j
}

fn type_of(v: &FieldValue) -> (r: FieldType)
    ensures
        r == value_type(*v),
{
    match v {
        FieldValue::U64(_) => FieldType::U64,
        FieldValue::I64(_) => FieldType::I64,
        FieldValue::Bool(_) => FieldType::Bool,
        FieldValue::Text(_) => FieldType::Text,
        FieldValue::Database(_) => FieldType::OptionalDatabase,
    }
}

fn has_unknown_field(fields: &Vec<FieldDecl>, values: &Vec<(String, FieldValue)>) -> (r: bool)
    ensures
        r == unknown_field(fields@, values@),
{
    let mut j: usize = 0;
    while j < values.len()
        invariant
            j <= values.len(),
            forall|k: int| 0 <= k < j ==> name_used(fields@, #[trigger] values@[k].0@),
        decreases values.len() - j,
    {
        if !is_name_used(fields, &values[j].0) {
            return true;
        }
        j = j + 1;
    }
    false
}

fn has_duplicate_field(values: &Vec<(String, FieldValue)>) -> (r: bool)
    ensures
        r == duplicate_field(values@),
{
    let mut j: usize = 0;
    while j < values.len()
        invariant
            j <= values.len(),
            forall|a: int, b: int|
                0 <= a < j && a < b < values.len() ==> (#[trigger] values@[a]).0@ != (
                #[trigger] values@[b]).0@,
        decreases values.len() - j,
    {
        let mut k: usize = j + 1;
        while k < values.len()
            invariant
                j < k <= values.len(),
                forall|a: int, b: int|
                    0 <= a < j && a < b < values.len() ==> (#[trigger] values@[a]).0@ != (
                    #[trigger] values@[b]).0@,
                forall|b: int| j < b < k ==> values@[j as int].0@ != (#[trigger] values@[b]).0@,
            decreases values.len() - k,
        {
            if values[j].0 == values[k].0 {
                return true;
            }
            k = k + 1;
        }
        j = j + 1;
    }
    false
}

fn has_missing_field(fields: &Vec<FieldDecl>, values: &Vec<(String, FieldValue)>) -> (r: bool)
    ensures
        r == missing_field(fields@, values@),
{
    let mut i: usize = 0;
    while i < fields.len()
        invariant
            i <= fields.len(),
            forall|k: int| 0 <= k < i ==> assigned(values@, #[trigger] fields@[k].name@),
        decreases fields.len() - i,
    {
        if !is_assigned(values, &fields[i].name) {
            return true;
        }
        i = i + 1;
    }
    false
}

fn has_type_mismatch(fields: &Vec<FieldDecl>, values: &Vec<(String, FieldValue)>) -> (r: bool)
    ensures
        r == type_mismatch(fields@, values@),
{
    let mut i: usize = 0;
    while i < fields.len()
        invariant
            i <= fields.len(),
            forall|a: int, b: int|
                0 <= a < i && 0 <= b < values.len() && (#[trigger] fields@[a]).name@ == (
                #[trigger] values@[b]).0@ ==> value_type(values@[b].1) == fields@[a].ty,
        decreases fields.len() - i,
    {
        let mut j: usize = 0;
        while j < values.len()
            invariant
                i < fields.len(),
                j <= values.len(),
                forall|a: int, b: int|
                    0 <= a < i && 0 <= b < values.len() && (#[trigger] fields@[a]).name@ == (
                    #[trigger] values@[b]).0@ ==> value_type(values@[b].1) == fields@[a].ty,
                forall|b: int|
                    0 <= b < j && fields@[i as int].name@ == (#[trigger] values@[b]).0@
                        ==> value_type(values@[b].1) == fields@[i as int].ty,
            decreases values.len() - j,
        {
            if fields[i].name == values[j].0 && type_of(&values[j].1) != fields[i].ty {
                return true;
            }
            j = j + 1;
        }
        i = i + 1;
    }
    false
}

impl EntRecord {
    /// An instance of `shape` built from named values, as a struct literal
    /// builds one: each field named exactly once, with a value of its type,
    /// and no other name.
    pub fn construct(shape: &EntShape, values: Vec<(String, FieldValue)>) -> (r: Result<
        EntRecord,
        ConstructError,
    >)
        ensures
            construct_error(*shape, values@) matches Some(e) ==> r == Err::<EntRecord, ConstructError>(e),
            construct_error(*shape, values@) is None ==> (r matches Ok(rec) && rec@ == values@
                && forall|role: Role|
                exists|i: int|
                    0 <= i < shape.fields@.len() && shape.fields@[i].role == Some(role)
                        && #[trigger] rec@[rec.slot(role)].0@ == shape.fields@[i].name@),
    {
        let id_field = ready_field(&shape.fields, Role::Id);
        let database_field = ready_field(&shape.fields, Role::Database);
        let created_field = ready_field(&shape.fields, Role::Created);
        let last_updated_field = ready_field(&shape.fields, Role::LastUpdated);
        let (i_id, i_db, i_created, i_updated) = match (
            id_field,
            database_field,
            created_field,
            last_updated_field,
        ) {
            (Some(a), Some(b), Some(c), Some(d)) => (a, b, c, d),
            _ => {
                return Err(ConstructError::NotEntityType);
            },
        };
        if has_unknown_field(&shape.fields, &values) {
            return Err(ConstructError::UnknownField);
        }
        if has_duplicate_field(&values) {
            return Err(ConstructError::DuplicateField);
        }
        if has_missing_field(&shape.fields, &values) {
            return Err(ConstructError::MissingField);
        }
        if has_type_mismatch(&shape.fields, &values) {
            return Err(ConstructError::TypeMismatch);
        }
        let id_at = slot_for(&shape.fields, &values, i_id);
        let database_at = slot_for(&shape.fields, &values, i_db);
        let created_at = slot_for(&shape.fields, &values, i_created);
        let last_updated_at = slot_for(&shape.fields, &values, i_updated);
        let rec = EntRecord { values, id_at, database_at, created_at, last_updated_at };
        assert forall|role: Role|
            exists|i: int|
                0 <= i < shape.fields@.len() && shape.fields@[i].role == Some(role)
                    && #[trigger] rec@[rec.slot(role)].0@ == shape.fields@[i].name@ by {
            match role {
                Role::Id => assert(shape.fields@[i_id as int].role == Some(role)),
                Role::Database => assert(shape.fields@[i_db as int].role == Some(role)),
                Role::Created => assert(shape.fields@[i_created as int].role == Some(role)),
                Role::LastUpdated => assert(shape.fields@[i_updated as int].role == Some(role)),
            }
        }
        Ok(rec)
    }

    /// The `u64` at a slot that holds one.
    fn u64_at(&self, at: usize) -> (r: u64)
        requires
            slot_fits(self@, at, FieldType::U64),
        ensures
            self@[at as int].1 == FieldValue::U64(r),
    {
        match &self.values[at].1 {
            FieldValue::U64(x) => *x,
            _ => unreached(),
        }
    }

    /// Puts `v` in place of the value at `at`, under the same name.
    fn put(&mut self, at: usize, v: FieldValue)
        requires
            at < old(self)@.len(),
            value_type(v) == value_type(old(self)@[at as int].1),
        ensures
            final(self)@ == old(self)@.update(at as int, (old(self)@[at as int].0, v)),
            forall|role: Role| final(self).slot(role) == old(self).slot(role),
    {
        proof {
            use_type_invariant(&*self);
        }
        let ghost target = self@.update(at as int, (self@[at as int].0, v));
        let mut values: Vec<(String, FieldValue)> = Vec::new();
        let mut k: usize = 0;
        while k < at
            invariant
                k <= at < self@.len(),
                target == self@.update(at as int, (self@[at as int].0, v)),
                values@ =~= target.subrange(0, k as int),
            decreases at - k,
        {
            values.push((self.values[k].0.clone(), self.values[k].1.duplicate()));
            k = k + 1;
        }
        values.push((self.values[at].0.clone(), v));
        let len = self.values.len();
        k = at + 1;
        while k < len
            invariant
                len == self@.len(),
                at < k <= len,
                target == self@.update(at as int, (self@[at as int].0, target[at as int].1)),
                values@ =~= target.subrange(0, k as int),
            decreases len - k,
        {
            values.push((self.values[k].0.clone(), self.values[k].1.duplicate()));
            k = k + 1;
        }
        assert(values@ =~= target);
        *self = EntRecord {
            values,
            id_at: self.id_at,
            database_at: self.database_at,
            created_at: self.created_at,
            last_updated_at: self.last_updated_at,
        };
    }

    /// The value of the field in `role`.
    pub fn role_value(&self, role: Role) -> (r: &FieldValue)
        ensures
            0 <= self.slot(role) < self@.len(),
            *r == self@[self.slot(role)].1,
            value_type(*r) == role_type(role),
    {
        proof {
            use_type_invariant(self);
        }
        let at = match role {
            Role::Id => self.id_at,
            Role::Database => self.database_at,
            Role::Created => self.created_at,
            Role::LastUpdated => self.last_updated_at,
        };
        &self.values[at].1
    }

    /// The value of the field called `name`, if the instance has one.
    pub fn get(&self, name: &str) -> (r: Option<&FieldValue>)
        ensures
            r is Some <==> assigned(self@, name@),
            r matches Some(v) ==> forall|j: int|
                0 <= j < self@.len() && #[trigger] self@[j].0@ == name@ ==> self@[j].1 == *v,
    {
        proof {
            use_type_invariant(self);
        }
        let key = name.to_owned();
        let mut j: usize = 0;
        while j < self.values.len()
            invariant
                j <= self.values.len(),
                key@ == name@,
                !duplicate_field(self.values@),
                forall|k: int| 0 <= k < j ==> #[trigger] self.values@[k].0@ != name@,
            decreases self.values.len() - j,
        {
            if self.values[j].0 == key {
                assert forall|k: int| 0 <= k < self@.len() && #[trigger] self@[k].0@ == name@ implies k
                    == j by {
                    let a = self.values@[k];
                    let b = self.values@[j as int];
                    assert(a.0@ == b.0@);
                    if k < j {
                        assert(!(self.values@[k].0@ == self.values@[j as int].0@));
                    } else if j < k {
                        assert(!(self.values@[j as int].0@ == self.values@[k].0@));
                    }
                }
                return Some(&self.values[j].1);
            }
            j = j + 1;
        }
        None
    }
}

impl Ent for EntRecord {
    fn id(&self) -> (r: Id)
        ensures
            self@[self.slot(Role::Id)].1 == FieldValue::U64(r),
    {
        proof {
            use_type_invariant(self);
        }
        self.u64_at(self.id_at)
    }

    fn set_id(&mut self, id: Id)
        ensures
            final(self)@ == old(self)@.update(
                old(self).slot(Role::Id),
                (old(self)@[old(self).slot(Role::Id)].0, FieldValue::U64(id)),
            ),
            forall|role: Role| final(self).slot(role) == old(self).slot(role),
    {
        proof {
            use_type_invariant(&*self);
        }
        self.put(self.id_at, FieldValue::U64(id));
    }

    fn database(&self) -> (r: WeakDatabaseRc)
        ensures
            self@[self.slot(Role::Database)].1 == FieldValue::Database(Some(r)) || (self@[self.slot(
                Role::Database,
            )].1 == FieldValue::Database(None) && r@ is None),
    {
        proof {
            use_type_invariant(self);
        }
        match &self.values[self.database_at].1 {
            FieldValue::Database(Some(handle)) => *handle,
            _ => WeakDatabaseRc::new(),
        }
    }

    fn set_database(&mut self, database: WeakDatabaseRc)
        ensures
            final(self)@ == old(self)@.update(
                old(self).slot(Role::Database),
                (old(self)@[old(self).slot(Role::Database)].0, FieldValue::Database(Some(database))),
            ),
            forall|role: Role| final(self).slot(role) == old(self).slot(role),
    {
        proof {
            use_type_invariant(&*self);
        }
        self.put(self.database_at, FieldValue::Database(Some(database)));
    }

    fn created(&self) -> (r: u64)
        ensures
            self@[self.slot(Role::Created)].1 == FieldValue::U64(r),
    {
        proof {
            use_type_invariant(self);
        }
        self.u64_at(self.created_at)
    }

    fn set_created(&mut self, timestamp: u64)
        ensures
            final(self)@ == old(self)@.update(
                old(self).slot(Role::Created),
                (old(self)@[old(self).slot(Role::Created)].0, FieldValue::U64(timestamp)),
            ),
            forall|role: Role| final(self).slot(role) == old(self).slot(role),
    {
        proof {
            use_type_invariant(&*self);
        }
        self.put(self.created_at, FieldValue::U64(timestamp));
    }

    fn last_updated(&self) -> (r: u64)
        ensures
            self@[self.slot(Role::LastUpdated)].1 == FieldValue::U64(r),
    {
        proof {
            use_type_invariant(self);
        }
        self.u64_at(self.last_updated_at)
    }

    fn set_last_updated(&mut self, timestamp: u64)
        ensures
            final(self)@ == old(self)@.update(
                old(self).slot(Role::LastUpdated),
                (old(self)@[old(self).slot(Role::LastUpdated)].0, FieldValue::U64(timestamp)),
            ),
            forall|role: Role| final(self).slot(role) == old(self).slot(role),
    {
        proof {
            use_type_invariant(&*self);
        }
        self.put(self.last_updated_at, FieldValue::U64(timestamp));
    }
}

/// An entity type whose only fields are the four role fields under their
/// default names (what normalization makes of a type that declares no
/// field) is built from one value of the right type for each of those four
/// names.
pub proof fn lemma_default_construction(shape: EntShape, values: Seq<(String, FieldValue)>)
    requires
        field_models(shape.fields@) == seq![
            ("id"@, FieldType::U64, Some(Role::Id)),
            ("database"@, FieldType::OptionalDatabase, Some(Role::Database)),
            ("created"@, FieldType::U64, Some(Role::Created)),
            ("last_updated"@, FieldType::U64, Some(Role::LastUpdated)),
        ],
        values.len() == 4,
        values[0].0@ == "id"@ && values[0].1 is U64,
        values[1].0@ == "database"@ && values[1].1 is Database,
        values[2].0@ == "created"@ && values[2].1 is U64,
        values[3].0@ == "last_updated"@ && values[3].1 is U64,
    ensures
        construct_error(shape, values) is None,
{
    assert(field_models(shape.fields@).len() == shape.fields@.len());
    assert(roles_ready(shape.fields@)) by {
        assert(field_models(shape.fields@)[0] == field_model(shape.fields@[0]));
        assert(field_models(shape.fields@)[1] == field_model(shape.fields@[1]));
        assert(field_models(shape.fields@)[2] == field_model(shape.fields@[2]));
        assert(field_models(shape.fields@)[3] == field_model(shape.fields@[3]));
        assert(shape.fields@[0].role == Some(Role::Id));
        assert(shape.fields@[1].role == Some(Role::Database));
        assert(shape.fields@[2].role == Some(Role::Created));
        assert(shape.fields@[3].role == Some(Role::LastUpdated));
    }
    reveal_strlit("id");
    reveal_strlit("database");
    reveal_strlit("created");
    reveal_strlit("last_updated");
    let fields = shape.fields@;
    assert(field_models(fields).len() == fields.len());
    assert forall|k: int| 0 <= k < 4 implies #[trigger] fields[k].name@ == values[k].0@
        && fields[k].ty == value_type(values[k].1) by {
        assert(field_models(fields)[k] == (fields[k].name@, fields[k].ty, fields[k].role));
    }
    assert(!unknown_field(fields, values)) by {
        assert forall|j: int| 0 <= j < values.len() implies name_used(fields, #[trigger] values[j].0@) by {
            assert(fields[j].name@ == values[j].0@);
        }
    }
    assert(!missing_field(fields, values)) by {
        assert forall|i: int| 0 <= i < fields.len() implies assigned(values, #[trigger] fields[i].name@) by {
            assert(values[i].0@ == fields[i].name@);
        }
    }
    assert(!duplicate_field(values)) by {
        assert forall|j: int, k: int| 0 <= j < k < values.len() implies (#[trigger] values[j]).0@ != (#[trigger] values[k]).0@ by {
            assert(values[j].0@.len() != values[k].0@.len());
        }
    }
    assert(!type_mismatch(fields, values)) by {
        assert forall|i: int, j: int|
            0 <= i < fields.len() && 0 <= j < values.len() && (#[trigger] fields[i]).name@ == (
            #[trigger] values[j]).0@ implies value_type(values[j].1) == fields[i].ty by {
            assert(fields[j].name@ == values[j].0@);
            assert(fields[i].name@.len() == fields[j].name@.len());
        }
    }
}

} // verus!
