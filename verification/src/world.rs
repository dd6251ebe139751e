//! The collection of bodies a simulation steps.

use vstd::prelude::*;

use crate::body::{Body, BodyId, StaticBody};
use crate::collision::Contact;
use crate::quantity::linear_acceleration::LinearAcceleration;

verus! {

/// Why a body was not added.
#[derive(Debug, Clone, Copy, PartialEq, Eq, Structural)]
pub enum AddBodyError {
    /// A dynamic or static body already uses this identifier.
    DuplicateId(BodyId),
}

/// World-wide simulation parameters.
#[derive(Debug, Clone, Copy, PartialEq, Eq, Structural)]
pub struct WorldSettings {
    pub gravity: LinearAcceleration,
}

impl WorldSettings {
    #[inline(always)]
    pub fn new(gravity: LinearAcceleration) -> (s: Self)
        ensures
            s.gravity == gravity,
    {
        Self { gravity }
    }
}

/// Raw identifiers of dynamic bodies, in storage order.
pub open spec fn body_ids(bodies: Seq<Body>) -> Seq<u64> {
    Seq::new(bodies.len(), |i: int| bodies[i]@.0@)
}

/// Raw identifiers of static bodies, in storage order.
pub open spec fn static_ids(bodies: Seq<StaticBody>) -> Seq<u64> {
    Seq::new(bodies.len(), |i: int| bodies[i]@.0@)
}

/// Strictly ascending identifiers.
pub open spec fn strictly_ascending(ids: Seq<u64>) -> bool {
    forall|i: int, j: int| 0 <= i < j < ids.len() ==> ids[i] < ids[j]
}

/// Well-formed storage: both lists strictly ascending by identifier, and no
/// identifier used by both a dynamic and a static body.
pub open spec fn world_wf(bodies: Seq<Body>, statics: Seq<StaticBody>) -> bool {
    &&& strictly_ascending(body_ids(bodies))
    &&& strictly_ascending(static_ids(statics))
    &&& forall|i: int, j: int| 0 <= i < bodies.len() && 0 <= j < statics.len() ==> body_ids(bodies)[i] != static_ids(statics)[j]
}

/// A lookup finds what was stored: in well-formed storage, two dynamic
/// entries with one identifier are one entry, so the body that `body` gives
/// back after a successful `add_body` is the body that was added.
pub proof fn lemma_identifier_selects_one_body(bodies: Seq<Body>, statics: Seq<StaticBody>, i: int, j: int)
    requires
        world_wf(bodies, statics),
        0 <= i < bodies.len(),
        0 <= j < bodies.len(),
        bodies[i]@.0 == bodies[j]@.0,
    ensures
        i == j,
        bodies[i] == bodies[j],
{
    assert(body_ids(bodies)[i] == body_ids(bodies)[j]);
}

/// The same for static entries: one identifier selects one static body.
pub proof fn lemma_identifier_selects_one_static_body(bodies: Seq<Body>, statics: Seq<StaticBody>, i: int, j: int)
    requires
        world_wf(bodies, statics),
        0 <= i < statics.len(),
        0 <= j < statics.len(),
        statics[i]@.0 == statics[j]@.0,
    ensures
        i == j,
        statics[i] == statics[j],
{
    assert(static_ids(statics)[i] == static_ids(statics)[j]);
}

/// Removing the identifier of a body that was just added gives back that
/// body and restores the previous dynamic contents.
pub proof fn lemma_remove_undoes_add(
    before: Seq<Body>,
    body: Body,
    after: Seq<Body>,
    statics: Seq<StaticBody>,
    removed: Body,
    restored: Seq<Body>,
)
    requires
        world_wf(after, statics),
        after.to_multiset() == before.to_multiset().insert(body),
        after.contains(body),
        after.contains(removed),
        removed@.0 == body@.0,
        restored.to_multiset() == after.to_multiset().remove(removed),
    ensures
        removed == body,
        restored.to_multiset() == before.to_multiset(),
{
    let i = choose|i: int| 0 <= i < after.len() && after[i] == body;
    let j = choose|j: int| 0 <= j < after.len() && after[j] == removed;
    lemma_identifier_selects_one_body(after, statics, i, j);
    assert(before.to_multiset().insert(body).remove(body) =~= before.to_multiset());
}

/// The same for static bodies: removing the identifier of a static body that
/// was just added gives it back and restores the previous static contents.
pub proof fn lemma_remove_static_undoes_add(
    before: Seq<StaticBody>,
    body: StaticBody,
    after: Seq<StaticBody>,
    bodies: Seq<Body>,
    removed: StaticBody,
    restored: Seq<StaticBody>,
)
    requires
        world_wf(bodies, after),
        after.to_multiset() == before.to_multiset().insert(body),
        after.contains(body),
        after.contains(removed),
        removed@.0 == body@.0,
        restored.to_multiset() == after.to_multiset().remove(removed),
    ensures
        removed == body,
        restored.to_multiset() == before.to_multiset(),
{
    let i = choose|i: int| 0 <= i < after.len() && after[i] == body;
    let j = choose|j: int| 0 <= j < after.len() && after[j] == removed;
    lemma_identifier_selects_one_static_body(bodies, after, i, j);
    assert(before.to_multiset().insert(body).remove(body) =~= before.to_multiset());
}

/// Changing a dynamic body in place keeps the storage well formed as long as
/// its identifier stays the same (what `body_mut` hands out may be changed
/// this way).
pub proof fn lemma_update_keeping_identifier(bodies: Seq<Body>, statics: Seq<StaticBody>, i: int, body: Body)
    requires
        world_wf(bodies, statics),
        0 <= i < bodies.len(),
        body@.0 == bodies[i]@.0,
    ensures
        world_wf(bodies.update(i, body), statics),
{
    let updated = bodies.update(i, body);
    assert(body_ids(updated) =~= body_ids(bodies));
}

/// Deterministic collection of rigid bodies.
///
/// Bodies remain sorted by their stable identifier, which defines the
/// canonical collision-pair order of the simulation. Dynamic and static
/// bodies share one identifier namespace because contacts expose only the
/// identifier.
#[derive(Debug)]
pub struct World {
    pub(crate) settings: WorldSettings,
    pub(crate) bodies: Vec<Body>,
    pub(crate) static_bodies: Vec<StaticBody>,
    pub(crate) contacts: Vec<Contact>,
}

impl View for World {
    /// `(settings, dynamic bodies, static bodies, contacts)`.
    type V = (WorldSettings, Seq<Body>, Seq<StaticBody>, Seq<Contact>);

    closed spec fn view(&self) -> (WorldSettings, Seq<Body>, Seq<StaticBody>, Seq<Contact>) {
        (self.settings, self.bodies@, self.static_bodies@, self.contacts@)
    }
}

/// Binary search of a strictly ascending identifier list: `Ok(index)` of
/// `id`, or `Err(insertion index)`.
pub open spec fn search_result(ids: Seq<u64>, id: u64, r: Result<usize, usize>) -> bool {
    match r {
        Ok(i) => i < ids.len() && ids[i as int] == id,
        Err(i) => i <= ids.len() && (forall|k: int| 0 <= k < i ==> ids[k] < id)
            && (forall|k: int| i <= k < ids.len() ==> ids[k] > id),
    }
}

fn search_bodies(bodies: &Vec<Body>, id: BodyId) -> (r: Result<usize, usize>)
    requires
        strictly_ascending(body_ids(bodies@)),
    ensures
        search_result(body_ids(bodies@), id@, r),
{
    let ghost ids = body_ids(bodies@);
    let target = id.raw();
    let mut lo: usize = 0;
    let mut hi: usize = bodies.len();
    while lo < hi
        invariant
            ids == body_ids(bodies@),
            strictly_ascending(ids),
            target == id@,
            0 <= lo <= hi <= bodies@.len(),
            forall|k: int| 0 <= k < lo ==> ids[k] < target,
            forall|k: int| hi <= k < ids.len() ==> ids[k] > target,
        decreases hi - lo,
    {
        let mid = lo + (hi - lo) / 2;
        let current = bodies[mid].id().raw();
        assert(ids[mid as int] == current);
        if current == target {
            return Ok(mid);
        } else if current < target {
            lo = mid + 1;
        } else {
            hi = mid;
        }
    }
    Err(lo)
}

fn search_static(bodies: &Vec<StaticBody>, id: BodyId) -> (r: Result<usize, usize>)
    requires
        strictly_ascending(static_ids(bodies@)),
    ensures
        search_result(static_ids(bodies@), id@, r),
{
    let ghost ids = static_ids(bodies@);
    let target = id.raw();
    let mut lo: usize = 0;
    let mut hi: usize = bodies.len();
    while lo < hi
        invariant
            ids == static_ids(bodies@),
            strictly_ascending(ids),
            target == id@,
            0 <= lo <= hi <= bodies@.len(),
            forall|k: int| 0 <= k < lo ==> ids[k] < target,
            forall|k: int| hi <= k < ids.len() ==> ids[k] > target,
        decreases hi - lo,
    {
        let mid = lo + (hi - lo) / 2;
        let current = bodies[mid].id().raw();
        assert(ids[mid as int] == current);
        if current == target {
            return Ok(mid);
        } else if current < target {
            lo = mid + 1;
        } else {
            hi = mid;
        }
    }
    Err(lo)
}

impl World {
    /// An empty world.
    #[inline(always)]
    pub fn new(settings: WorldSettings) -> (w: Self)
        ensures
            w@.0 == settings,
            w@.1.len() == 0,
            w@.2.len() == 0,
            w@.3.len() == 0,
            world_wf(w@.1, w@.2),
    {
        Self { settings, bodies: Vec::new(), static_bodies: Vec::new(), contacts: Vec::new() }
    }

    #[inline(always)]
    pub fn settings(&self) -> (s: WorldSettings)
        ensures
            s == self@.0,
    {
        self.settings
    }

    /// Dynamic bodies in ascending identifier order.
    #[inline(always)]
    pub fn bodies(&self) -> (b: &[Body])
        ensures
            b@ == self@.1,
    {
        self.bodies.as_slice()
    }

    #[inline(always)]
    pub fn body_count(&self) -> (n: usize)
        ensures
            n == self@.1.len(),
    {
        self.bodies.len()
    }

    /// Static bodies in ascending identifier order.
    #[inline(always)]
    pub fn static_bodies(&self) -> (b: &[StaticBody])
        ensures
            b@ == self@.2,
    {
        self.static_bodies.as_slice()
    }

    #[inline(always)]
    pub fn static_body_count(&self) -> (n: usize)
        ensures
            n == self@.2.len(),
    {
        self.static_bodies.len()
    }

    #[inline(always)]
    pub fn contacts(&self) -> (c: &[Contact])
        ensures
            c@ == self@.3,
    {
        self.contacts.as_slice()
    }

    /// The dynamic body with this identifier.
    pub fn body(&self, id: BodyId) -> (b: Option<&Body>)
        requires
            world_wf(self@.1, self@.2),
        ensures
            b is Some <==> body_ids(self@.1).contains(id@),
            b matches Some(b) ==> exists|i: int| 0 <= i < self@.1.len() && self@.1[i] == *b && b@.0 == id,
    {
        match search_bodies(&self.bodies, id) {
            Ok(index) => {
                proof {
                    BodyId::lemma_view_injective(self.bodies@[index as int]@.0, id);
                    assert(body_ids(self@.1)[index as int] == id@);
                }
                Some(&self.bodies[index])
            },
            Err(_) => None,
        }
    }

    /// Mutable access to the dynamic body with this identifier.
    pub fn body_mut(&mut self, id: BodyId) -> (b: Option<&mut Body>)
        requires
            world_wf(old(self)@.1, old(self)@.2),
        ensures
            b is Some <==> body_ids(old(self)@.1).contains(id@),
            b is None ==> *final(self) == *old(self),
            b matches Some(b) ==> exists|i: int|
                0 <= i < old(self)@.1.len() && old(self)@.1[i] == *b && b@.0 == id
                    && final(self)@ == (old(self)@.0, old(self)@.1.update(i, *final(b)), old(self)@.2, old(self)@.3),
    {
        match search_bodies(&self.bodies, id) {
            Ok(index) => {
                proof {
                    BodyId::lemma_view_injective(self.bodies@[index as int]@.0, id);
                    assert(body_ids(old(self)@.1)[index as int] == id@);
                }
                Some(&mut self.bodies[index])
            },
            Err(_) => None,
        }
    }

    /// The static body with this identifier.
    pub fn static_body(&self, id: BodyId) -> (b: Option<&StaticBody>)
        requires
            world_wf(self@.1, self@.2),
        ensures
            b is Some <==> static_ids(self@.2).contains(id@),
            b matches Some(b) ==> exists|i: int| 0 <= i < self@.2.len() && self@.2[i] == *b && b@.0 == id,
    {
        match search_static(&self.static_bodies, id) {
            Ok(index) => {
                proof {
                    BodyId::lemma_view_injective(self.static_bodies@[index as int]@.0, id);
                    assert(static_ids(self@.2)[index as int] == id@);
                }
                Some(&self.static_bodies[index])
            },
            Err(_) => None,
        }
    }

    /// Inserts a dynamic body keeping ascending identifier order; rejects an
    /// identifier already used by a dynamic or static body. Adding a body
    /// clears the contact list.
    pub fn add_body(&mut self, body: Body) -> (r: Result<(), AddBodyError>)
        requires
            world_wf(old(self)@.1, old(self)@.2),
        ensures
            world_wf(final(self)@.1, final(self)@.2),
            r is Err <==> (body_ids(old(self)@.1).contains(body@.0@) || static_ids(old(self)@.2).contains(body@.0@)),
            r matches Err(e) ==> e == AddBodyError::DuplicateId(body@.0) && *final(self) == *old(self),
            r is Ok ==> {
                &&& final(self)@.0 == old(self)@.0
                &&& final(self)@.2 == old(self)@.2
                &&& final(self)@.3.len() == 0
                &&& final(self)@.1.to_multiset() == old(self)@.1.to_multiset().insert(body)
                &&& final(self)@.1.contains(body)
                &&& body_ids(final(self)@.1).contains(body@.0@)
            },
    {
        let id = body.id();
        match search_static(&self.static_bodies, id) {
            Ok(index) => {
                proof {
                    assert(static_ids(old(self)@.2)[index as int] == id@);
                }
                return Err(AddBodyError::DuplicateId(id));
            },
            Err(_) => {},
        }
        match search_bodies(&self.bodies, id) {
            Ok(index) => {
                proof {
                    assert(body_ids(old(self)@.1)[index as int] == id@);
                }
                Err(AddBodyError::DuplicateId(id))
            },
            Err(index) => {
                let ghost old_bodies = self.bodies@;
                self.bodies.insert(index, body);
                self.contacts.clear();
                proof {
                    let ids = body_ids(self.bodies@);
                    let before = body_ids(old_bodies);
                    assert forall|k: int| 0 <= k < ids.len() implies ids[k] == (if k < index {
                        before[k]
                    } else if k == index {
                        id@
                    } else {
                        before[k - 1]
                    }) by {}
                    assert(ids[index as int] == id@);
                    assert(self.bodies@[index as int] == body);
                    vstd::seq_lib::to_multiset_insert(old_bodies, index as int, body);
                }
                Ok(())
            },
        }
    }

    /// Inserts a static body keeping ascending identifier order; rejects an
    /// identifier already used by a dynamic or static body. Adding a body
    /// clears the contact list.
    pub fn add_static_body(&mut self, body: StaticBody) -> (r: Result<(), AddBodyError>)
        requires
            world_wf(old(self)@.1, old(self)@.2),
        ensures
            world_wf(final(self)@.1, final(self)@.2),
            r is Err <==> (body_ids(old(self)@.1).contains(body@.0@) || static_ids(old(self)@.2).contains(body@.0@)),
            r matches Err(e) ==> e == AddBodyError::DuplicateId(body@.0) && *final(self) == *old(self),
            r is Ok ==> {
                &&& final(self)@.0 == old(self)@.0
                &&& final(self)@.1 == old(self)@.1
                &&& final(self)@.3.len() == 0
                &&& final(self)@.2.to_multiset() == old(self)@.2.to_multiset().insert(body)
                &&& final(self)@.2.contains(body)
                &&& static_ids(final(self)@.2).contains(body@.0@)
            },
    {
        let id = body.id();
        match search_bodies(&self.bodies, id) {
            Ok(index) => {
                proof {
                    assert(body_ids(old(self)@.1)[index as int] == id@);
                }
                return Err(AddBodyError::DuplicateId(id));
            },
            Err(_) => {},
        }
        match search_static(&self.static_bodies, id) {
            Ok(index) => {
                proof {
                    assert(static_ids(old(self)@.2)[index as int] == id@);
                }
                Err(AddBodyError::DuplicateId(id))
            },
            Err(index) => {
                let ghost old_bodies = self.static_bodies@;
                self.static_bodies.insert(index, body);
                self.contacts.clear();
                proof {
                    let ids = static_ids(self.static_bodies@);
                    let before = static_ids(old_bodies);
                    assert forall|k: int| 0 <= k < ids.len() implies ids[k] == (if k < index {
                        before[k]
                    } else if k == index {
                        id@
                    } else {
                        before[k - 1]
                    }) by {}
                    assert(ids[index as int] == id@);
                    assert(self.static_bodies@[index as int] == body);
                    vstd::seq_lib::to_multiset_insert(old_bodies, index as int, body);
                }
                Ok(())
            },
        }
    }

    /// Removes and returns the dynamic body with this identifier. Removing a
    /// body clears the contact list.
    pub fn remove_body(&mut self, id: BodyId) -> (r: Option<Body>)
        requires
            world_wf(old(self)@.1, old(self)@.2),
        ensures
            world_wf(final(self)@.1, final(self)@.2),
            r is Some <==> body_ids(old(self)@.1).contains(id@),
            r is None ==> *final(self) == *old(self),
            r matches Some(b) ==> {
                &&& b@.0 == id
                &&& old(self)@.1.contains(b)
                &&& final(self)@.0 == old(self)@.0
                &&& final(self)@.2 == old(self)@.2
                &&& final(self)@.3.len() == 0
                &&& final(self)@.1.to_multiset() == old(self)@.1.to_multiset().remove(b)
                &&& !body_ids(final(self)@.1).contains(id@)
            },
    {
        match search_bodies(&self.bodies, id) {
            Ok(index) => {
                let ghost old_bodies = self.bodies@;
                proof {
                    BodyId::lemma_view_injective(old_bodies[index as int]@.0, id);
                }
                let body = self.bodies.remove(index);
                self.contacts.clear();
                proof {
                    let ids = body_ids(self.bodies@);
                    let before = body_ids(old_bodies);
                    assert forall|k: int| 0 <= k < ids.len() implies ids[k] == (if k < index { before[k] } else { before[k + 1] }) by {}
                    vstd::seq_lib::to_multiset_remove(old_bodies, index as int);
                    if ids.contains(id@) {
                        let k = choose|k: int| 0 <= k < ids.len() && ids[k] == id@;
                        if k < index {
                            assert(before[k] < before[index as int]);
                        } else {
                            assert(before[k + 1] > before[index as int]);
                        }
                    }
                }
                Some(body)
            },
            Err(_) => None,
        }
    }

    /// Removes and returns the static body with this identifier. Removing a
    /// body clears the contact list.
    pub fn remove_static_body(&mut self, id: BodyId) -> (r: Option<StaticBody>)
        requires
            world_wf(old(self)@.1, old(self)@.2),
        ensures
            world_wf(final(self)@.1, final(self)@.2),
            r is Some <==> static_ids(old(self)@.2).contains(id@),
            r is None ==> *final(self) == *old(self),
            r matches Some(b) ==> {
                &&& b@.0 == id
                &&& old(self)@.2.contains(b)
                &&& final(self)@.0 == old(self)@.0
                &&& final(self)@.1 == old(self)@.1
                &&& final(self)@.3.len() == 0
                &&& final(self)@.2.to_multiset() == old(self)@.2.to_multiset().remove(b)
                &&& !static_ids(final(self)@.2).contains(id@)
            },
    {
        match search_static(&self.static_bodies, id) {
            Ok(index) => {
                let ghost old_bodies = self.static_bodies@;
                proof {
                    BodyId::lemma_view_injective(old_bodies[index as int]@.0, id);
                }
                let body = self.static_bodies.remove(index);
                self.contacts.clear();
                proof {
                    let ids = static_ids(self.static_bodies@);
                    let before = static_ids(old_bodies);
                    assert forall|k: int| 0 <= k < ids.len() implies ids[k] == (if k < index { before[k] } else { before[k + 1] }) by {}
                    vstd::seq_lib::to_multiset_remove(old_bodies, index as int);
                    if ids.contains(id@) {
                        let k = choose|k: int| 0 <= k < ids.len() && ids[k] == id@;
                        if k < index {
                            assert(before[k] < before[index as int]);
                        } else {
                            assert(before[k + 1] > before[index as int]);
                        }
                    }
                }
                Some(body)
            },
            Err(_) => None,
        }
    }
}

} // verus!
