//! The object registry: which ids are bound to which interface and
//! version, and where each id stands in its life. An id is reused only
//! after the server has acknowledged its deletion.
use vstd::prelude::*;
use std::collections::HashMap;

verus! {

broadcast use vstd::std_specs::hash::group_hash_axioms;

/// The first id of the range that the server allocates from.
pub const SERVER_ID_START: u32 = 0xff00_0000;

/// The id that the display object always has.
pub const DISPLAY_ID: u32 = 1;

/// Where an id stands in its life. An id that the registry does not hold
/// is unbound.
#[derive(Clone, Copy, Debug, PartialEq, Eq, Structural)]
pub enum ObjectState {
    /// Bound to an interface and usable.
    Active,
    /// A destructor was sent; events may still arrive until the server
    /// acknowledges with a delete-id.
    PendingDestroy,
    /// Acknowledged; the id waits for reuse.
    Freed,
}

/// What an id is bound to: an interface of the catalog, by index, at a
/// version, and its state.
#[derive(Clone, Copy, Debug, PartialEq, Eq, Structural)]
pub struct ObjectInfo {
    pub interface: usize,
    pub version: u32,
    pub state: ObjectState,
}

/// Why the registry refuses an operation.
#[derive(Clone, Copy, Debug, PartialEq, Eq, Structural)]
pub enum RegistryError {
    /// The id was never bound.
    Unknown,
    /// The id was freed and is not bound now.
    Freed,
    /// The id is not active (a second destructor, or a request to an
    /// object being destroyed).
    NotActive,
    /// A delete-id for an id that no destructor released.
    NotPendingDestroy,
    /// The server announced an id outside its range, or one in use.
    BadServerId,
    /// No client id is left.
    Exhausted,
}

/// The registry's state: the bound ids, the next never-used client id, and
/// the freed client ids waiting for reuse (the last is reused first).
pub struct RegistryModel {
    pub objects: Map<u32, ObjectInfo>,
    pub next_id: u32,
    pub free: Seq<u32>,
}

pub open spec fn is_client_id(id: u32) -> bool {
    1 <= id < SERVER_ID_START
}

/// Whether events and requests may name the id: bound and not freed.
pub open spec fn is_live(m: RegistryModel, id: u32) -> bool {
    m.objects.contains_key(id) && m.objects[id].state != ObjectState::Freed
}

pub open spec fn model_wf(m: RegistryModel) -> bool {
    &&& 2 <= m.next_id <= SERVER_ID_START
    &&& forall|id: u32| #[trigger]
        m.objects.contains_key(id) && is_client_id(id) ==> id < m.next_id
    &&& m.free.no_duplicates()
    &&& forall|k: int|
        0 <= k < m.free.len() ==> is_client_id(#[trigger] m.free[k]) && m.objects.contains_key(
            m.free[k],
        ) && m.objects[m.free[k]].state == ObjectState::Freed
    &&& forall|id: u32|
        #[trigger] m.objects.contains_key(id) && is_client_id(id) && m.objects[id].state
            == ObjectState::Freed ==> m.free.contains(id)
}

/// Allocation of a client id: the most recently freed one, else the next
/// never-used one.
pub open spec fn allocate_model(m: RegistryModel, interface: usize, version: u32) -> (
    RegistryModel,
    Option<u32>,
) {
    let info = ObjectInfo { interface, version, state: ObjectState::Active };
    if m.free.len() > 0 {
        let id = m.free.last();
        (RegistryModel { objects: m.objects.insert(id, info), next_id: m.next_id, free: m.free.drop_last() }, Some(id))
    } else if m.next_id < SERVER_ID_START {
        (
            RegistryModel {
                objects: m.objects.insert(m.next_id, info),
                next_id: (m.next_id + 1) as u32,
                free: m.free,
            },
            Some(m.next_id),
        )
    } else {
        (m, None)
    }
}

/// A destructor sent for the id: an active object starts its destruction;
/// anything else is refused and nothing changes.
pub open spec fn destroy_model(m: RegistryModel, id: u32) -> (RegistryModel, Result<(), RegistryError>) {
    if m.objects.contains_key(id) && m.objects[id].state == ObjectState::Active {
        (
            RegistryModel {
                objects: m.objects.insert(
                    id,
                    ObjectInfo { state: ObjectState::PendingDestroy, ..m.objects[id] },
                ),
                ..m
            },
            Ok(()),
        )
    } else {
        (m, Err(RegistryError::NotActive))
    }
}

/// The server's delete-id: an id pending destruction is freed, and a client
/// id joins the reuse pool.
pub open spec fn delete_model(m: RegistryModel, id: u32) -> (RegistryModel, Result<(), RegistryError>) {
    if m.objects.contains_key(id) && m.objects[id].state == ObjectState::PendingDestroy {
        (
            RegistryModel {
                objects: m.objects.insert(id, ObjectInfo { state: ObjectState::Freed, ..m.objects[id] }),
                next_id: m.next_id,
                free: if is_client_id(id) {
                    m.free.push(id)
                } else {
                    m.free
                },
            },
            Ok(()),
        )
    } else {
        (m, Err(RegistryError::NotPendingDestroy))
    }
}

/// A new id announced by the server: it must lie in the server's range and
/// not be live.
pub open spec fn server_bind_model(m: RegistryModel, id: u32, interface: usize, version: u32) -> (
    RegistryModel,
    Result<(), RegistryError>,
) {
    if id >= SERVER_ID_START && !is_live(m, id) {
        (
            RegistryModel {
                objects: m.objects.insert(
                    id,
                    ObjectInfo { interface, version, state: ObjectState::Active },
                ),
                ..m
            },
            Ok(()),
        )
    } else {
        (m, Err(RegistryError::BadServerId))
    }
}

/// What a message addressed to the id finds.
pub open spec fn lookup_model(m: RegistryModel, id: u32) -> Result<ObjectInfo, RegistryError> {
    if !m.objects.contains_key(id) {
        Err(RegistryError::Unknown)
    } else if m.objects[id].state == ObjectState::Freed {
        Err(RegistryError::Freed)
    } else {
        Ok(m.objects[id])
    }
}

/// The ids of one connection.
pub struct ObjectRegistry {
    objects: HashMap<u32, ObjectInfo>,
    next_id: u32,
    free: Vec<u32>,
}

impl View for ObjectRegistry {
    type V = RegistryModel;

    closed spec fn view(&self) -> RegistryModel {
        RegistryModel { objects: self.objects@, next_id: self.next_id, free: self.free@ }
    }
}

impl ObjectRegistry {
    pub open spec fn wf(&self) -> bool {
        model_wf(self@)
    }

    /// A registry that holds only the display, bound at version 1 to the
    /// given interface.
    pub fn new(display_interface: usize) -> (r: ObjectRegistry)
        ensures
            r.wf(),
            r@.objects == Map::<u32, ObjectInfo>::empty().insert(
                DISPLAY_ID,
                ObjectInfo { interface: display_interface, version: 1, state: ObjectState::Active },
            ),
            r@.next_id == 2,
            r@.free == Seq::<u32>::empty(),
    {
        let mut objects: HashMap<u32, ObjectInfo> = HashMap::new();
        objects.insert(
            DISPLAY_ID,
            ObjectInfo { interface: display_interface, version: 1, state: ObjectState::Active },
        );
        let r = ObjectRegistry { objects, next_id: 2, free: Vec::new() };
        assert(r@.objects.dom() =~= set![DISPLAY_ID]);
        r
    }

    /// What the id is bound to, if anything.
    pub fn get(&self, id: u32) -> (r: Option<ObjectInfo>)
        ensures
            match r {
                Some(info) => self@.objects.contains_key(id) && self@.objects[id] == info,
                None => !self@.objects.contains_key(id),
            },
    {
        match self.objects.get(&id) {
            Some(info) => Some(*info),
            None => None,
        }
    }

    /// The object that an incoming message names: refused where the id was
    /// never bound or has been freed.
    pub fn lookup(&self, id: u32) -> (r: Result<ObjectInfo, RegistryError>)
        ensures
            r == lookup_model(self@, id),
    {
        match self.objects.get(&id) {
            None => Err(RegistryError::Unknown),
            Some(info) => if info.state == ObjectState::Freed {
                Err(RegistryError::Freed)
            } else {
                Ok(*info)
            },
        }
    }

    /// Binds a fresh client id to an interface and version.
    pub fn allocate(&mut self, interface: usize, version: u32) -> (r: Option<u32>)
        requires
            old(self).wf(),
        ensures
            final(self).wf(),
            (final(self)@, r) == allocate_model(old(self)@, interface, version),
    {
        let info = ObjectInfo { interface, version, state: ObjectState::Active };
        let ghost m = self@;
        match self.free.pop() {
            Some(id) => {
                self.objects.insert(id, info);
                proof {
                    assert(m.free.last() == id);
                    assert(self@.free =~= m.free.drop_last());
                    lemma_allocate_keeps_wf(m, interface, version);
                }
                Some(id)
            },
            None => {
                if self.next_id < SERVER_ID_START {
                    let id = self.next_id;
                    self.objects.insert(id, info);
                    self.next_id = self.next_id + 1;
                    proof {
                        lemma_allocate_keeps_wf(m, interface, version);
                    }
                    Some(id)
                } else {
                    None
                }
            },
        }
    }

    /// Records that a destructor request was sent for the id.
    pub fn mark_destroyed(&mut self, id: u32) -> (r: Result<(), RegistryError>)
        requires
            old(self).wf(),
        ensures
            final(self).wf(),
            (final(self)@, r) == destroy_model(old(self)@, id),
    {
        let ghost m = self@;
        match self.objects.get(&id) {
            Some(info) => {
                if info.state == ObjectState::Active {
                    let updated = ObjectInfo { state: ObjectState::PendingDestroy, ..*info };
                    self.objects.insert(id, updated);
                    proof {
                        lemma_destroy_keeps_wf(m, id);
                    }
                    Ok(())
                } else {
                    Err(RegistryError::NotActive)
                }
            },
            None => Err(RegistryError::NotActive),
        }
    }

    /// Processes the server's delete-id for the id.
    pub fn delete_id(&mut self, id: u32) -> (r: Result<(), RegistryError>)
        requires
            old(self).wf(),
        ensures
            final(self).wf(),
            (final(self)@, r) == delete_model(old(self)@, id),
    {
        let ghost m = self@;
        match self.objects.get(&id) {
            Some(info) => {
                if info.state == ObjectState::PendingDestroy {
                    let updated = ObjectInfo { state: ObjectState::Freed, ..*info };
                    self.objects.insert(id, updated);
                    if 1 <= id && id < SERVER_ID_START {
                        self.free.push(id);
                    }
                    proof {
                        lemma_delete_keeps_wf(m, id);
                    }
                    Ok(())
                } else {
                    Err(RegistryError::NotPendingDestroy)
                }
            },
            None => Err(RegistryError::NotPendingDestroy),
        }
    }

    /// Binds an id that the server allocated.
    pub fn bind_server_id(&mut self, id: u32, interface: usize, version: u32) -> (r: Result<(), RegistryError>)
        requires
            old(self).wf(),
        ensures
            final(self).wf(),
            (final(self)@, r) == server_bind_model(old(self)@, id, interface, version),
    {
        if id < SERVER_ID_START {
            return Err(RegistryError::BadServerId);
        }
        let live = match self.objects.get(&id) {
            Some(info) => info.state != ObjectState::Freed,
            None => false,
        };
        if live {
            return Err(RegistryError::BadServerId);
        }
        let ghost m = self@;
        self.objects.insert(id, ObjectInfo { interface, version, state: ObjectState::Active });
        proof {
            assert forall|x: u32| #[trigger]
                self@.objects.contains_key(x) && is_client_id(x) implies x < self@.next_id by {
                if x != id {
                    assert(m.objects.contains_key(x));
                }
            }
            assert forall|x: u32| #[trigger]
                self@.objects.contains_key(x) && is_client_id(x) && self@.objects[x].state
                    == ObjectState::Freed implies self@.free.contains(x) by {
                assert(m.objects.contains_key(x));
            }
        }
        Ok(())
    }
}

/// Allocation never hands out a live id: the id it returns was never bound,
/// or was freed by a delete-id.
pub proof fn lemma_allocate_reuses_only_freed(m: RegistryModel, interface: usize, version: u32)
    requires
        model_wf(m),
    ensures
        allocate_model(m, interface, version).1 matches Some(id) ==> !m.objects.contains_key(id)
            || m.objects[id].state == ObjectState::Freed,
{
    if m.free.len() > 0 {
        assert(m.free[m.free.len() - 1] == m.free.last());
    }
}

/// Only the delete-id frees an id: a destructor, an allocation or a
/// server-allocated id leaves every id that was not freed unfreed.
pub proof fn lemma_only_delete_frees(m: RegistryModel, id: u32, x: u32, interface: usize, version: u32)
    requires
        model_wf(m),
        m.objects.contains_key(x),
        m.objects[x].state != ObjectState::Freed,
    ensures
        destroy_model(m, id).0.objects[x].state != ObjectState::Freed,
        allocate_model(m, interface, version).0.objects[x].state != ObjectState::Freed,
        server_bind_model(m, id, interface, version).0.objects[x].state != ObjectState::Freed,
{
}

/// A second destructor for an id before its delete-id is refused and
/// changes nothing: the id is released to the reuse pool once, by the
/// delete-id, and a repeated delete-id is refused too.
pub proof fn lemma_destroy_twice(m: RegistryModel, id: u32)
    requires
        model_wf(m),
        m.objects.contains_key(id),
        m.objects[id].state == ObjectState::Active,
    ensures
        ({
            let (m1, r1) = destroy_model(m, id);
            let (m2, r2) = destroy_model(m1, id);
            let (m3, r3) = delete_model(m2, id);
            let (m4, r4) = delete_model(m3, id);
            &&& r1 is Ok
            &&& m1.objects[id].state == ObjectState::PendingDestroy
            &&& m1.free == m.free
            &&& r2 == Err::<(), RegistryError>(RegistryError::NotActive)
            &&& m2 == m1
            &&& r3 is Ok
            &&& m3.objects[id].state == ObjectState::Freed
            &&& m3.free == (if is_client_id(id) {
                m.free.push(id)
            } else {
                m.free
            })
            &&& r4 == Err::<(), RegistryError>(RegistryError::NotPendingDestroy)
            &&& m4 == m3
        }),
{
}

/// A message addressed to a freed id, or to one never bound, is refused.
pub proof fn lemma_dead_ids_rejected(m: RegistryModel, id: u32)
    ensures
        !m.objects.contains_key(id) ==> lookup_model(m, id) == Err::<ObjectInfo, RegistryError>(
            RegistryError::Unknown,
        ),
        m.objects.contains_key(id) && m.objects[id].state == ObjectState::Freed ==> lookup_model(m, id)
            == Err::<ObjectInfo, RegistryError>(RegistryError::Freed),
{
}

proof fn lemma_allocate_keeps_wf(m: RegistryModel, interface: usize, version: u32)
    requires
        model_wf(m),
    ensures
        model_wf(allocate_model(m, interface, version).0),
{
    let n = allocate_model(m, interface, version).0;
    if m.free.len() > 0 {
        let id = m.free.last();
        assert(m.free.drop_last().no_duplicates());
        assert forall|k: int| 0 <= k < n.free.len() implies is_client_id(#[trigger] n.free[k])
            && n.objects.contains_key(n.free[k]) && n.objects[n.free[k]].state
            == ObjectState::Freed by {
            assert(n.free[k] == m.free[k]);
            assert(n.free[k] != id);
        }
        assert forall|x: u32| #[trigger]
            n.objects.contains_key(x) && is_client_id(x) && n.objects[x].state == ObjectState::Freed
                implies n.free.contains(x) by {
            assert(x != id);
            assert(m.free.contains(x));
            let k = choose|k: int| 0 <= k < m.free.len() && m.free[k] == x;
            assert(k != m.free.len() - 1);
            assert(n.free[k] == x);
        }
        assert forall|x: u32| #[trigger] n.objects.contains_key(x) && is_client_id(x) implies x
            < n.next_id by {
            if x != id {
                assert(m.objects.contains_key(x));
            } else {
                assert(m.free[m.free.len() - 1] == id);
            }
        }
    } else if m.next_id < SERVER_ID_START {
        assert forall|k: int| 0 <= k < n.free.len() implies is_client_id(#[trigger] n.free[k])
            && n.objects.contains_key(n.free[k]) && n.objects[n.free[k]].state
            == ObjectState::Freed by {}
        assert forall|x: u32| #[trigger]
            n.objects.contains_key(x) && is_client_id(x) && n.objects[x].state == ObjectState::Freed
                implies n.free.contains(x) by {
            assert(m.objects.contains_key(x));
        }
    }
}

proof fn lemma_destroy_keeps_wf(m: RegistryModel, id: u32)
    requires
        model_wf(m),
    ensures
        model_wf(destroy_model(m, id).0),
{
    let n = destroy_model(m, id).0;
    assert forall|x: u32| #[trigger] n.objects.contains_key(x) && is_client_id(x) implies x
        < n.next_id by {
        assert(m.objects.contains_key(x));
    }
    assert forall|k: int| 0 <= k < n.free.len() implies is_client_id(#[trigger] n.free[k])
        && n.objects.contains_key(n.free[k]) && n.objects[n.free[k]].state == ObjectState::Freed by {
        assert(m.objects[m.free[k]].state == ObjectState::Freed);
    }
    assert forall|x: u32| #[trigger]
        n.objects.contains_key(x) && is_client_id(x) && n.objects[x].state == ObjectState::Freed
            implies n.free.contains(x) by {
        assert(m.objects.contains_key(x));
    }
}

proof fn lemma_delete_keeps_wf(m: RegistryModel, id: u32)
    requires
        model_wf(m),
    ensures
        model_wf(delete_model(m, id).0),
{
    let n = delete_model(m, id).0;
    if m.objects.contains_key(id) && m.objects[id].state == ObjectState::PendingDestroy {
        assert(!m.free.contains(id));
        assert forall|x: u32| #[trigger] n.objects.contains_key(x) && is_client_id(x) implies x
            < n.next_id by {
            assert(m.objects.contains_key(x));
        }
        assert forall|k: int| 0 <= k < n.free.len() implies is_client_id(#[trigger] n.free[k])
            && n.objects.contains_key(n.free[k]) && n.objects[n.free[k]].state
            == ObjectState::Freed by {
            if k < m.free.len() {
                assert(n.free[k] == m.free[k]);
            }
        }
        assert forall|x: u32| #[trigger]
            n.objects.contains_key(x) && is_client_id(x) && n.objects[x].state == ObjectState::Freed
                implies n.free.contains(x) by {
            if x == id {
                assert(n.free[n.free.len() - 1] == id);
            } else {
                assert(m.free.contains(x));
                let k = choose|k: int| 0 <= k < m.free.len() && m.free[k] == x;
                assert(n.free[k] == x);
            }
        }
        if is_client_id(id) {
            assert forall|a: int, b: int|
                0 <= a < n.free.len() && 0 <= b < n.free.len() && a != b implies n.free[a]
                != n.free[b] by {
                if a == m.free.len() {
                    assert(m.free[b] != id);
                }
                if b == m.free.len() {
                    assert(m.free[a] != id);
                }
            }
        }
    }
}

} // verus!
