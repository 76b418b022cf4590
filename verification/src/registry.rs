//! The shared map of live, fully-logged-in sessions, keyed by identity.
//! Invariant: at most one entry per unique name and per unique UUID.
//! Insertion happens only after a fully successful login; removal on
//! disconnect. Callers hold their own lock around one registry operation at
//! a time and never across a blocking write.

use vstd::prelude::*;
use crate::error::ProtocolError;
use crate::wire::bytes_eq;

verus! {

/// One logged-in session's identity, plus its entity id.
pub struct RegistryEntry {
    pub name: Vec<u8>,
    pub uuid: u128,
    pub entity_id: i32,
}

/// The ghost shape of a registry entry.
pub struct EntryView {
    pub name: Seq<u8>,
    pub uuid: u128,
    pub entity_id: i32,
}

impl View for RegistryEntry {
    type V = EntryView;

    open spec fn view(&self) -> EntryView {
        EntryView { name: self.name@, uuid: self.uuid, entity_id: self.entity_id }
    }
}

/// Some entry carries this name.
pub open spec fn contains_name(s: Seq<EntryView>, name: Seq<u8>) -> bool {
    exists|i: int| 0 <= i < s.len() && s[i].name == name
}

/// Some entry carries this UUID.
pub open spec fn contains_uuid(s: Seq<EntryView>, uuid: u128) -> bool {
    exists|i: int| 0 <= i < s.len() && s[i].uuid == uuid
}

/// The registry's invariant: names are pairwise distinct, and so are UUIDs.
pub open spec fn registry_wf(s: Seq<EntryView>) -> bool {
    forall|i: int, j: int|
        #![trigger s[i], s[j]]
        0 <= i < j < s.len() ==> s[i].name != s[j].name && s[i].uuid != s[j].uuid
}

/// What inserting `e` yields and the registry afterwards: rejected with
/// `DuplicateIdentity`, leaving the registry unchanged, exactly when the
/// name or the UUID is already present; appended otherwise.
pub open spec fn insert_spec(s: Seq<EntryView>, e: EntryView) -> (Result<(), ProtocolError>, Seq<
    EntryView,
>) {
    if contains_name(s, e.name) || contains_uuid(s, e.uuid) {
        (Err(ProtocolError::DuplicateIdentity), s)
    } else {
        (Ok(()), s.push(e))
    }
}

/// The registry. The sequence view lists entries in insertion order.
pub struct SessionRegistry {
    entries: Vec<RegistryEntry>,
}

impl View for SessionRegistry {
    type V = Seq<EntryView>;

    closed spec fn view(&self) -> Seq<EntryView> {
        self.entries@.map_values(|e: RegistryEntry| e@)
    }
}

impl SessionRegistry {
    /// An empty registry.
    pub fn new() -> (r: SessionRegistry)
        ensures
            r@ == Seq::<EntryView>::empty(),
            registry_wf(r@),
    {
        let r = SessionRegistry { entries: Vec::new() };
        proof {
            assert(r@ =~= Seq::<EntryView>::empty());
        }
        r
    }

    /// How many sessions are registered.
    pub fn len(&self) -> (r: usize)
        ensures
            r == self@.len(),
    {
        self.entries.len()
    }

    /// The name of the entry at `i`.
    pub fn name_at(&self, i: usize) -> (r: &Vec<u8>)
        requires
            i < self@.len(),
        ensures
            r@ == self@[i as int].name,
    {
        &self.entries[i].name
    }

    /// The UUID of the entry at `i`.
    pub fn uuid_at(&self, i: usize) -> (r: u128)
        requires
            i < self@.len(),
        ensures
            r == self@[i as int].uuid,
    {
        self.entries[i].uuid
    }

    /// The entity id of the entry at `i`.
    pub fn entity_id_at(&self, i: usize) -> (r: i32)
        requires
            i < self@.len(),
        ensures
            r == self@[i as int].entity_id,
    {
        self.entries[i].entity_id
    }

    /// Whether this identity would be rejected: its name or UUID is already
    /// registered.
    pub fn is_duplicate(&self, name: &Vec<u8>, uuid: u128) -> (r: bool)
        ensures
            r == (contains_name(self@, name@) || contains_uuid(self@, uuid)),
    {
        let n = self.entries.len();
        let mut i: usize = 0;
        while i < n
            invariant
                i <= n,
                n == self@.len(),
                forall|k: int| 0 <= k < i ==> self@[k].name != name@ && self@[k].uuid != uuid,
            decreases n - i,
        {
            assert(self@[i as int] == self.entries@[i as int]@);
            if bytes_eq(&self.entries[i].name, name) {
                assert(contains_name(self@, name@));
                return true;
            }
            if self.entries[i].uuid == uuid {
                assert(contains_uuid(self@, uuid));
                return true;
            }
            i = i + 1;
        }
        assert(!contains_name(self@, name@));
        assert(!contains_uuid(self@, uuid));
        false
    }

    /// Registers an identity. `DuplicateIdentity`, with the registry
    /// unchanged, exactly when the name or the UUID is already registered;
    /// no partial or duplicate entry ever becomes visible.
    pub fn insert(&mut self, name: Vec<u8>, uuid: u128, entity_id: i32) -> (r: Result<
        (),
        ProtocolError,
    >)
        requires
            registry_wf(old(self)@),
        ensures
            registry_wf(final(self)@),
            (r, final(self)@) == insert_spec(
                old(self)@,
                EntryView { name: name@, uuid, entity_id },
            ),
    {
        let ghost e = EntryView { name: name@, uuid, entity_id };
        let n = self.entries.len();
        let mut i: usize = 0;
        while i < n
            invariant
                i <= n,
                n == self@.len(),
                self@ == old(self)@,
                registry_wf(self@),
                forall|k: int| 0 <= k < i ==> self@[k].name != name@ && self@[k].uuid != uuid,
            decreases n - i,
        {
            assert(self@[i as int] == self.entries@[i as int]@);
            if bytes_eq(&self.entries[i].name, &name) {
                assert(self@[i as int].name == name@);
                assert(contains_name(self@, name@));
                return Err(ProtocolError::DuplicateIdentity);
            }
            if self.entries[i].uuid == uuid {
                assert(self@[i as int].uuid == uuid);
                assert(contains_uuid(self@, uuid));
                return Err(ProtocolError::DuplicateIdentity);
            }
            i = i + 1;
        }
        assert(!contains_name(self@, name@));
        assert(!contains_uuid(self@, uuid));
        let ghost pre = self@;
        self.entries.push(RegistryEntry { name, uuid, entity_id });
        proof {
            assert(self@ =~= pre.push(e));
            assert forall|a: int, b: int|
                #![trigger self@[a], self@[b]]
                0 <= a < b < self@.len() implies self@[a].name != self@[b].name && self@[a].uuid
                != self@[b].uuid by {
                if b == pre.len() {
                    assert(self@[a] == pre[a]);
                }
            }
        }
        Ok(())
    }

    /// Deregisters the session with this UUID, if any; the rest keep their
    /// order.
    pub fn remove(&mut self, uuid: u128) -> (r: bool)
        requires
            registry_wf(old(self)@),
        ensures
            registry_wf(final(self)@),
            r == contains_uuid(old(self)@, uuid),
            !r ==> final(self)@ == old(self)@,
            r ==> exists|i: int|
                0 <= i < old(self)@.len() && #[trigger] old(self)@[i].uuid == uuid && final(self)@
                    == old(self)@.subrange(0, i) + old(self)@.skip(i + 1),
    {
        let n = self.entries.len();
        let mut i: usize = 0;
        while i < n
            invariant
                i <= n,
                n == self@.len(),
                self@ == old(self)@,
                registry_wf(self@),
                forall|k: int| 0 <= k < i ==> self@[k].uuid != uuid,
            decreases n - i,
        {
            assert(self@[i as int] == self.entries@[i as int]@);
            if self.entries[i].uuid == uuid {
                let ghost pre = self@;
                assert(pre[i as int].uuid == uuid);
                assert(contains_uuid(old(self)@, uuid));
                self.entries.remove(i);
                proof {
                    assert(self@ =~= pre.subrange(0, i as int) + pre.skip(i as int + 1));
                    assert forall|a: int, b: int|
                        #![trigger self@[a], self@[b]]
                        0 <= a < b < self@.len() implies self@[a].name != self@[b].name
                        && self@[a].uuid != self@[b].uuid by {
                        let a0: int = if a < i {
                            a
                        } else {
                            a + 1
                        };
                        let b0: int = if b < i {
                            b
                        } else {
                            b + 1
                        };
                        assert(self@[a] == pre[a0]);
                        assert(self@[b] == pre[b0]);
                        assert(pre[a0].name != pre[b0].name && pre[a0].uuid != pre[b0].uuid);
                    }
                }
                return true;
            }
            i = i + 1;
        }
        assert(!contains_uuid(self@, uuid));
        false
    }

    /// Looks a registered session up by UUID: its index, or `None` if the
    /// UUID is not registered.
    pub fn get_client(&self, uuid: u128) -> (r: Option<usize>)
        ensures
            match r {
                Some(i) => i < self@.len() && self@[i as int].uuid == uuid,
                None => !contains_uuid(self@, uuid),
            },
    {
        let n = self.entries.len();
        let mut i: usize = 0;
        while i < n
            invariant
                i <= n,
                n == self@.len(),
                forall|k: int| 0 <= k < i ==> self@[k].uuid != uuid,
            decreases n - i,
        {
            assert(self@[i as int] == self.entries@[i as int]@);
            if self.entries[i].uuid == uuid {
                return Some(i);
            }
            i = i + 1;
        }
        None
    }

    /// An entity id no registered session uses: one past the largest in
    /// use. `None` only if that would overflow.
    pub fn next_entity_id(&self) -> (r: Option<i32>)
        ensures
            r matches Some(id) ==> forall|k: int|
                0 <= k < self@.len() ==> #[trigger] self@[k].entity_id != id,
    {
        let n = self.entries.len();
        let mut m: i32 = 0;
        let mut i: usize = 0;
        while i < n
            invariant
                i <= n,
                n == self@.len(),
                m >= 0,
                forall|k: int| 0 <= k < i ==> #[trigger] self@[k].entity_id < m || self@[k].entity_id < 0,
            decreases n - i,
        {
            assert(self@[i as int] == self.entries@[i as int]@);
            let e = self.entries[i].entity_id;
            if e >= m {
                if e == i32::MAX {
                    return None;
                }
                m = e + 1;
            }
            i = i + 1;
        }
        Some(m)
    }
}

/// Law: of two logins completing with the same requested name, exactly one
/// is admitted; the other is rejected with `DuplicateIdentity`, the registry
/// is left unchanged by the rejection, and exactly one entry with that name
/// is ever visible.
pub proof fn lemma_duplicate_name_one_admitted(s: Seq<EntryView>, a: EntryView, b: EntryView)
    requires
        registry_wf(s),
        a.name == b.name,
        !contains_name(s, a.name),
        !contains_uuid(s, a.uuid),
    ensures
        ({
            let (r1, s1) = insert_spec(s, a);
            let (r2, s2) = insert_spec(s1, b);
            &&& r1 == Ok::<(), ProtocolError>(())
            &&& r2 == Err::<(), ProtocolError>(ProtocolError::DuplicateIdentity)
            &&& s2 == s1
            &&& forall|i: int| 0 <= i < s1.len() && #[trigger] s1[i].name == a.name ==> i == s.len()
        }),
{
    let (r1, s1) = insert_spec(s, a);
    assert(s1 == s.push(a));
    assert(s1[s.len() as int].name == b.name);
    assert(contains_name(s1, b.name));
    assert forall|i: int| 0 <= i < s1.len() && #[trigger] s1[i].name == a.name implies i
        == s.len() by {
        if i < s.len() {
            assert(s1[i] == s[i]);
            assert(contains_name(s, a.name));
        }
    }
}

} // verus!
