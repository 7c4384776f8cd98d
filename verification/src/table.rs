//! The connection table: a slot arena mapping dense small integer keys
//! to live connections, with O(1)-reusable keys. A removed slot stays
//! vacant until a later insert reuses the lowest vacant key.

use vstd::prelude::*;

use crate::connection::Connection;

verus! {

pub struct ConnectionTable {
    slots: Vec<Option<Connection>>,
}

impl View for ConnectionTable {
    type V = Seq<Option<Connection>>;

    closed spec fn view(&self) -> Seq<Option<Connection>> {
        self.slots@
    }
}

impl ConnectionTable {
    /// Every live connection in the table is well-formed.
    pub open spec fn wf(self) -> bool {
        forall|i: int|
            0 <= i < self@.len() ==> ((#[trigger] self@[i]) matches Some(c) ==> c.wf())
    }

    /// An empty table with room preallocated for `capacity` slots.
    pub fn with_capacity(capacity: usize) -> (r: ConnectionTable)
        ensures
            r.wf(),
            r@ == Seq::<Option<Connection>>::empty(),
    {
        ConnectionTable { slots: Vec::with_capacity(capacity) }
    }

    pub fn len(&self) -> (r: usize)
        ensures
            r == self@.len(),
    {
        self.slots.len()
    }

    /// The lowest vacant key: every lower slot is occupied, and the key
    /// either names a vacant slot or sits one past the end.
    pub fn vacant_key(&self) -> (r: usize)
        ensures
            r <= self@.len(),
            r < self@.len() ==> self@[r as int] is None,
            forall|j: int| 0 <= j < r ==> (#[trigger] self@[j]) is Some,
    {
        let mut i: usize = 0;
        while i < self.slots.len()
            invariant
                i <= self@.len(),
                forall|j: int| 0 <= j < i ==> (#[trigger] self@[j]) is Some,
            decreases self@.len() - i,
        {
            if self.slots[i].is_none() {
                return i;
            }
            i += 1;
        }
        i
    }

    /// Stores `conn` under the lowest vacant key and returns that key.
    pub fn insert(&mut self, conn: Connection) -> (key: usize)
        requires
            old(self).wf(),
            conn.wf(),
            old(self)@.len() < usize::MAX,
        ensures
            final(self).wf(),
            key <= old(self)@.len(),
            forall|j: int| 0 <= j < key ==> (#[trigger] old(self)@[j]) is Some,
            key < old(self)@.len() ==> old(self)@[key as int] is None && final(self)@ == old(
                self,
            )@.update(key as int, Some(conn)),
            key == old(self)@.len() ==> final(self)@ == old(self)@.push(Some(conn)),
    {
        let key = self.vacant_key();
        if key < self.slots.len() {
            let _vacant = self.slots.remove(key);
            self.slots.insert(key, Some(conn));
            proof {
                assert(self@ =~= old(self)@.update(key as int, Some(conn)));
            }
        } else {
            self.slots.push(Some(conn));
        }
        key
    }

    /// Removes and returns the connection under `key`, leaving the slot
    /// vacant; a key past the end or a vacant slot yields nothing.
    pub fn take(&mut self, key: usize) -> (r: Option<Connection>)
        requires
            old(self).wf(),
        ensures
            final(self).wf(),
            key >= old(self)@.len() ==> r is None && final(self)@ == old(self)@,
            key < old(self)@.len() ==> r == old(self)@[key as int] && final(self)@ == old(
                self,
            )@.update(key as int, None),
            r matches Some(c) ==> c.wf(),
    {
        if key >= self.slots.len() {
            return None;
        }
        let c = self.slots.remove(key);
        self.slots.insert(key, None);
        proof {
            assert(self@ =~= old(self)@.update(key as int, None));
        }
        c
    }

    /// Puts a connection back into the vacant slot it was taken from.
    pub fn restore(&mut self, key: usize, conn: Connection)
        requires
            old(self).wf(),
            conn.wf(),
            key < old(self)@.len(),
            old(self)@[key as int] is None,
        ensures
            final(self).wf(),
            final(self)@ == old(self)@.update(key as int, Some(conn)),
    {
        let _vacant = self.slots.remove(key);
        self.slots.insert(key, Some(conn));
        proof {
            assert(self@ =~= old(self)@.update(key as int, Some(conn)));
        }
    }
}

} // verus!
