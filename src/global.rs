use crate::database::{Database, DatabaseRc};
use vstd::prelude::*;

verus! {

/// A non-owning handle on a database kept by a [`Registry`].
///
/// Each registration hands out a ticket that its registry has not issued
/// before. Resolved against the registry that issued it, a handle yields a
/// database only while that registry still holds the database its ticket
/// was issued for, so it never keeps a database alive and never reaches a
/// replaced one. A handle carries no mark of its registry: it is meant for
/// the one registry it came from.
#[derive(Clone, Copy, Debug, PartialEq, Eq)]
pub struct WeakDatabaseRc {
    ticket: Option<u64>,
}

impl View for WeakDatabaseRc {
    type V = Option<u64>;

    closed spec fn view(&self) -> Option<u64> {
        self.ticket
    }
}

impl WeakDatabaseRc {
    /// A handle that never resolves.
    pub fn new() -> (r: Self)
        ensures
            r@ is None,
    {
        WeakDatabaseRc { ticket: None }
    }

    /// Whether the two handles observe the same registration (two handles
    /// that never resolve are equal).
    pub fn ptr_eq(this: &Self, other: &Self) -> (r: bool)
        ensures
            r == (this@ == other@),
    {
        match (this.ticket, other.ticket) {
            (Some(a), Some(b)) => a == b,
            (None, None) => true,
            _ => false,
        }
    }
}

/// What a [`Registry`] holds: the ticket and strong handle of the current
/// database, if any, and how many tickets it has issued.
pub struct RegistryModel {
    pub entry: Option<(u64, DatabaseRc)>,
    pub issued: nat,
}

impl RegistryModel {
    pub open spec fn empty() -> RegistryModel {
        RegistryModel { entry: None, issued: 0 }
    }

    pub open spec fn is_registered(self) -> bool {
        self.entry is Some
    }

    /// The ticket of the current database, as a weak handle on it holds it.
    pub open spec fn current_ticket(self) -> Option<u64> {
        match self.entry {
            Some((t, _)) => Some(t),
            None => None,
        }
    }

    /// What a handle holding `ticket` resolves to.
    pub open spec fn resolve(self, ticket: Option<u64>) -> Option<DatabaseRc> {
        match self.entry {
            Some((t, d)) => if ticket == Some(t) {
                Some(d)
            } else {
                None
            },
            None => None,
        }
    }

    /// The registry after `database` replaces whatever it held.
    pub open spec fn register(self, database: DatabaseRc) -> RegistryModel {
        RegistryModel { entry: Some((self.issued as u64, database)), issued: self.issued + 1 }
    }

    /// The registry after it dropped whatever it held.
    pub open spec fn unregister(self) -> RegistryModel {
        RegistryModel { entry: None, issued: self.issued }
    }

    /// Whether one more database can be registered.
    pub open spec fn can_register(self) -> bool {
        self.issued < u64::MAX
    }
}

/// The slot that owns the current database: the one long-lived strong
/// handle, from which every other holder gets only weak handles.
pub struct Registry {
    entry: Option<(u64, DatabaseRc)>,
    issued: u64,
}

impl Registry {
    /// The current database's ticket was issued before the count was taken.
    #[verifier::type_invariant]
    spec fn tickets_counted(self) -> bool {
        match self.entry {
            Some((t, _)) => t < self.issued,
            None => true,
        }
    }
}

impl View for Registry {
    type V = RegistryModel;

    closed spec fn view(&self) -> RegistryModel {
        RegistryModel { entry: self.entry, issued: self.issued as nat }
    }
}

/// Relies on `Arc::clone`: the new strong handle shares the allocation of
/// the old one, so both hold the same database.
#[verifier::external_body]
fn share(rc: &DatabaseRc) -> (r: DatabaseRc)
    ensures
        r == *rc,
{
    std::sync::Arc::clone(rc)
}

impl Registry {
    /// An empty registry.
    pub fn new() -> (r: Self)
        ensures
            r@ == RegistryModel::empty(),
    {
        Registry { entry: None, issued: 0 }
    }

    /// Whether one more database can be registered (false only after
    /// `u64::MAX` registrations).
    pub fn can_register(&self) -> (r: bool)
        ensures
            r == self@.can_register(),
    {
        self.issued < u64::MAX
    }

    /// A temporary strong handle on the database that `handle` observes, or
    /// `None` where that database is no longer the registered one.
    pub fn resolve(&self, handle: &WeakDatabaseRc) -> (r: Option<DatabaseRc>)
        ensures
            r == self@.resolve(handle@),
    {
        match &self.entry {
            Some((t, d)) => {
                if WeakDatabaseRc::ptr_eq(handle, &WeakDatabaseRc { ticket: Some(*t) }) {
                    Some(share(d))
                } else {
                    None
                }
            },
            None => None,
        }
    }
}

/// A weak handle on the registered database, or one that never resolves
/// where none is registered.
pub fn db(registry: &Registry) -> (r: WeakDatabaseRc)
    ensures
        r@ == registry@.current_ticket(),
        r@ matches Some(t) ==> t < registry@.issued,
{
    proof {
        use_type_invariant(registry);
    }
    match &registry.entry {
        Some((t, _)) => WeakDatabaseRc { ticket: Some(*t) },
        None => WeakDatabaseRc::new(),
    }
}

/// Boxes `database`, registers it in place of whatever the registry held,
/// and returns a weak handle on it.
pub fn set_db<D: Database + 'static>(registry: &mut Registry, database: D) -> (r: WeakDatabaseRc)
    requires
        old(registry)@.can_register(),
    ensures
        final(registry)@.entry is Some,
        final(registry)@ == old(registry)@.register(final(registry)@.entry.unwrap().1),
        ({
            let boxed: Box<dyn Database> = Box::new(database);
            *final(registry)@.entry.unwrap().1 == boxed
        }),
        r@ == final(registry)@.current_ticket(),
{
    set_db_from_box(registry, Box::new(database))
}

/// Registers the boxed `database` in place of whatever the registry held,
/// and returns a weak handle on it.
pub fn set_db_from_box(registry: &mut Registry, database: Box<dyn Database>) -> (r: WeakDatabaseRc)
    requires
        old(registry)@.can_register(),
    ensures
        final(registry)@.entry is Some,
        final(registry)@ == old(registry)@.register(final(registry)@.entry.unwrap().1),
        final(registry)@.entry.unwrap().1 == database,
        r@ == final(registry)@.current_ticket(),
{
    let rc = std::sync::Arc::new(database);
    assert(*rc == database);
    set_db_from_rc(registry, rc)
}

/// Registers the strong handle in place of whatever the registry held (the
/// old database is dropped with its last strong handle), and returns a weak
/// handle on the new one.
pub fn set_db_from_rc(registry: &mut Registry, database_rc: DatabaseRc) -> (r: WeakDatabaseRc)
    requires
        old(registry)@.can_register(),
    ensures
        final(registry)@ == old(registry)@.register(database_rc),
        r@ == final(registry)@.current_ticket(),
{
    let ticket = registry.issued;
    *registry = Registry { entry: Some((ticket, database_rc)), issued: ticket + 1 };
    db(registry)
}

/// Whether a database is registered.
pub fn has_db(registry: &Registry) -> (r: bool)
    ensures
        r == registry@.is_registered(),
{
    registry.entry.is_some()
}

/// Drops the registered database, if any; every weak handle on it stops
/// resolving. On an empty registry this does nothing.
pub fn destroy_db(registry: &mut Registry)
    ensures
        final(registry)@ == old(registry)@.unregister(),
{
    *registry = Registry { entry: None, issued: registry.issued };
}

/// A call on a registry, as far as it matters to what the registry holds:
/// any `set_db*` call, `destroy_db`, or a call that only reads.
pub enum RegistryCall {
    Register(DatabaseRc),
    Unregister,
    Observe,
}

/// The registry after `calls`, made in order on `start`.
pub open spec fn replay(start: RegistryModel, calls: Seq<RegistryCall>) -> RegistryModel
    decreases calls.len(),
{
    if calls.len() == 0 {
        start
    } else {
        let before = replay(start, calls.drop_last());
        match calls.last() {
            RegistryCall::Register(d) => before.register(d),
            RegistryCall::Unregister => before.unregister(),
            RegistryCall::Observe => before,
        }
    }
}

/// Whether the latest of `calls` that registers or unregisters registers.
pub open spec fn last_change_registers(calls: Seq<RegistryCall>) -> bool
    decreases calls.len(),
{
    if calls.len() == 0 {
        false
    } else {
        match calls.last() {
            RegistryCall::Register(_) => true,
            RegistryCall::Unregister => false,
            RegistryCall::Observe => last_change_registers(calls.drop_last()),
        }
    }
}

/// Starting from an empty registry, a database is registered after any
/// sequence of calls exactly when the latest call that registers or
/// unregisters is a registration.
pub proof fn lemma_registered_iff_last_change_registers(calls: Seq<RegistryCall>)
    ensures
        replay(RegistryModel::empty(), calls).is_registered() == last_change_registers(calls),
    decreases calls.len(),
{
    if calls.len() > 0 {
        lemma_registered_iff_last_change_registers(calls.drop_last());
    }
}

/// After an unregistration no weak handle resolves, whichever registration
/// it was obtained from, and the current handle does not resolve either.
pub proof fn lemma_unregister_orphans_handles(m: RegistryModel, handle: Option<u64>)
    ensures
        m.unregister().resolve(handle) is None,
        m.unregister().current_ticket() is None,
        m.unregister().resolve(m.unregister().current_ticket()) is None,
{
}

/// Registering `b` after `a`: the handle obtained for `a` no longer
/// resolves, and the handle obtained afterwards resolves to `b`. Nor does
/// any other handle issued before `b` was registered.
pub proof fn lemma_register_replaces(m: RegistryModel, a: DatabaseRc, b: DatabaseRc)
    requires
        m.can_register(),
        m.register(a).can_register(),
    ensures
        forall|t: u64| t < m.register(a).issued ==> m.register(a).register(b).resolve(Some(t)) is None,
        m.register(a).resolve(m.register(a).current_ticket()) == Some(a),
        m.register(a).register(b).resolve(m.register(a).current_ticket()) is None,
        m.register(a).register(b).resolve(m.register(a).register(b).current_ticket()) == Some(b),
{
}

/// Unregistering an empty registry changes nothing, and unregistering twice
/// leaves what unregistering once does.
pub proof fn lemma_unregister_idempotent(m: RegistryModel)
    ensures
        !m.is_registered() ==> m.unregister() == m,
        m.unregister().unregister() == m.unregister(),
{
}

} // verus!
