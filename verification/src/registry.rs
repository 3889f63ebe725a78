//! The session registry: the one piece of state shared by every
//! connection. It owns the mapping from session identifier to session
//! and exposes only create, lookup and remove; the identifiers are
//! unique while they live, and removing an absent identifier is a no-op.

use vstd::prelude::*;

use crate::bytes::bytes_clone;
use crate::bytes::bytes_eq;
use crate::session::Session;

verus! {

/// One registered session under its identifier.
pub struct RegEntry {
    pub id: Vec<u8>,
    pub session: Session,
}

/// The identifier-to-session mapping.
pub struct Registry {
    pub entries: Vec<RegEntry>,
}

/// Relies on uuid::Uuid::new_v4 and its Display form: a random
/// version-4 identifier rendered hyphenated, always 36 ASCII bytes.
#[verifier::external_body]
fn fresh_session_id() -> (r: Vec<u8>)
    ensures
        r@.len() == 36,
{
    uuid::Uuid::new_v4().to_string().into_bytes()
}

impl Registry {
    /// Some session stands under this identifier.
    pub open spec fn contains_id(self, id: Seq<u8>) -> bool {
        exists|i: int| 0 <= i < self.entries@.len() && self.entries@[i].id@ == id
    }

    pub open spec fn wf(self) -> bool {
        &&& forall|i: int, j: int|
            0 <= i < j < self.entries@.len() ==> self.entries@[i].id@ != self.entries@[j].id@
        &&& forall|i: int| 0 <= i < self.entries@.len() ==> self.entries@[i].session.wf()
    }

    /// An empty registry.
    pub fn new() -> (r: Registry)
        ensures
            r.wf(),
            r.entries@.len() == 0,
    {
        Registry { entries: Vec::new() }
    }

    fn find(&self, id: &Vec<u8>) -> (r: Option<usize>)
        ensures
            r matches Some(i) ==> i < self.entries@.len() && self.entries@[i as int].id@ == id@,
            r is None ==> !self.contains_id(id@),
    {
        let mut i: usize = 0;
        while i < self.entries.len()
            invariant
                i <= self.entries@.len(),
                forall|j: int| 0 <= j < i ==> self.entries@[j].id@ != id@,
            decreases self.entries@.len() - i,
        {
            if bytes_eq(&self.entries[i].id, id) {
                return Some(i);
            }
            i += 1;
        }
        None
    }

    /// Read-only lookup: an index under which the identifier's session
    /// stands, exactly when the identifier is registered. A connection
    /// with a fabricated identifier gets nothing here and is refused
    /// before any subscription or publish can happen.
    pub fn lookup(&self, id: &Vec<u8>) -> (r: Option<usize>)
        ensures
            r is Some <==> self.contains_id(id@),
            r matches Some(i) ==> i < self.entries@.len() && self.entries@[i as int].id@ == id@,
    {
        self.find(id)
    }

    /// Creates a session: a freshly generated identifier, a session with
    /// two empty topics of the given capacity, inserted under that
    /// identifier; every other identifier keeps its entry. Should the
    /// generated identifier collide with a live one, the new session
    /// replaces the old, as a map insert would.
    pub fn create(&mut self, capacity: usize) -> (id: Vec<u8>)
        requires
            old(self).wf(),
            capacity >= 1,
        ensures
            final(self).wf(),
            id@.len() == 36,
            final(self).contains_id(id@),
            exists|i: int|
                0 <= i < final(self).entries@.len() && final(self).entries@[i].id@ == id@
                    && final(self).entries@[i].session.pipe.published@.len() == 0 && final(self).entries@[i].session.chat.published@.len() == 0 && final(self).entries@[i].session.pipe.capacity == capacity && final(self).entries@[i].session.chat.capacity == capacity,
            forall|other: Seq<u8>|
                other != id@ ==> (final(self).contains_id(other) <==> old(self).contains_id(
                    other,
                )),
            !old(self).contains_id(id@) ==> final(self).entries@.len() == old(self).entries@.len() + 1,
    {
        let id = fresh_session_id();
        let session = Session::new(capacity);
        let entry = RegEntry { id: bytes_clone(&id), session };
        match self.find(&id) {
            Some(i) => {
                let ghost pre = self.entries@;
                self.entries.set(i, entry);
                proof {
                    assert(self.entries@[i as int].id@ == id@);
                    assert forall|other: Seq<u8>| other != id@ implies (self.contains_id(other)
                        <==> old(self).contains_id(other)) by {
                        if self.contains_id(other) {
                            let k = choose|k: int|
                                0 <= k < self.entries@.len() && self.entries@[k].id@ == other;
                            assert(pre[k].id@ == other);
                        }
                        if old(self).contains_id(other) {
                            let k = choose|k: int| 0 <= k < pre.len() && pre[k].id@ == other;
                            assert(self.entries@[k].id@ == other);
                        }
                    }
                }
            },
            None => {
                let ghost pre = self.entries@;
                self.entries.push(entry);
                proof {
                    assert(self.entries@[pre.len() as int].id@ == id@);
                    assert forall|other: Seq<u8>| other != id@ implies (self.contains_id(other)
                        <==> old(self).contains_id(other)) by {
                        if self.contains_id(other) {
                            let k = choose|k: int|
                                0 <= k < self.entries@.len() && self.entries@[k].id@ == other;
                            assert(k < pre.len() && pre[k].id@ == other);
                        }
                        if old(self).contains_id(other) {
                            let k = choose|k: int| 0 <= k < pre.len() && pre[k].id@ == other;
                            assert(self.entries@[k].id@ == other);
                        }
                    }
                }
            },
        }
        id
    }

    /// Removes the identifier's session if it is registered; removing an
    /// absent identifier changes nothing and is not an error. Every
    /// other identifier keeps its entry.
    pub fn remove(&mut self, id: &Vec<u8>)
        requires
            old(self).wf(),
        ensures
            final(self).wf(),
            !final(self).contains_id(id@),
            forall|other: Seq<u8>|
                other != id@ ==> (final(self).contains_id(other) <==> old(self).contains_id(
                    other,
                )),
            !old(self).contains_id(id@) ==> *final(self) == *old(self),
    {
        match self.find(id) {
            Some(i) => {
                let ghost pre = self.entries@;
                self.entries.remove(i);
                proof {
                    assert forall|k: int|
                        0 <= k < self.entries@.len() implies #[trigger] self.entries@[k] == if k
                        < i {
                        pre[k]
                    } else {
                        pre[k + 1]
                    } by {}
                    assert(!self.contains_id(id@)) by {
                        if self.contains_id(id@) {
                            let k = choose|k: int|
                                0 <= k < self.entries@.len() && self.entries@[k].id@ == id@;
                            if k < i {
                                assert(pre[k].id@ == id@ && pre[i as int].id@ == id@);
                            } else {
                                assert(pre[k + 1].id@ == id@ && pre[i as int].id@ == id@);
                            }
                        }
                    }
                    assert forall|other: Seq<u8>| other != id@ implies (self.contains_id(other)
                        <==> old(self).contains_id(other)) by {
                        if self.contains_id(other) {
                            let k = choose|k: int|
                                0 <= k < self.entries@.len() && self.entries@[k].id@ == other;
                            if k < i {
                                assert(pre[k].id@ == other);
                            } else {
                                assert(pre[k + 1].id@ == other);
                            }
                        }
                        if old(self).contains_id(other) {
                            let k = choose|k: int| 0 <= k < pre.len() && pre[k].id@ == other;
                            assert(k != i);
                            if k < i {
                                assert(self.entries@[k].id@ == other);
                            } else {
                                assert(self.entries@[k - 1].id@ == other);
                            }
                        }
                    }
                }
            },
            None => {},
        }
    }
}

} // verus!
