//! Entity handles and the per-fragment stores that hang data on them.

use vstd::prelude::*;

verus! {

/// An opaque handle of a game object.  What an entity is follows only from
/// the fragments that the stores hold for it.
#[derive(Clone, Copy, PartialEq, Eq, Structural, Debug, Hash)]
pub struct Entity {
    pub id: usize,
}

/// The entity allocator: which handles were given out and which of them
/// still live.  A handle is never given out twice.
pub struct Entities {
    pub alive: Vec<bool>,
}

impl Entities {
    /// `e` was created here and has not been deleted.
    pub open spec fn is_alive(&self, e: Entity) -> bool {
        e.id < self.alive.len() && self.alive[e.id as int]
    }

    /// `e` was created here at some time.
    pub open spec fn was_created(&self, e: Entity) -> bool {
        e.id < self.alive.len()
    }

    /// `e` was created here and has been deleted since.
    pub open spec fn is_gone(&self, e: Entity) -> bool {
        self.was_created(e) && !self.is_alive(e)
    }

    /// An allocator that has given out nothing.
    pub fn new() -> (r: Entities)
        ensures
            r.alive@ == Seq::<bool>::empty(),
    {
        Entities { alive: Vec::new() }
    }

    /// One past the largest identifier given out so far.
    pub fn bound(&self) -> (n: usize)
        ensures
            n == self.alive.len(),
    {
        self.alive.len()
    }

    /// Makes a fresh living entity.
    pub fn create(&mut self) -> (e: Entity)
        ensures
            e.id == old(self).alive.len(),
            final(self).alive@ == old(self).alive@.push(true),
    {
        let id = self.alive.len();
        self.alive.push(true);
        Entity { id }
    }

    /// Whether `e` was created here and has not been deleted.
    pub fn alive(&self, e: Entity) -> (r: bool)
        ensures
            r == self.is_alive(e),
    {
        e.id < self.alive.len() && self.alive[e.id]
    }

    /// Marks `e` dead.  Returns whether it was alive.
    pub fn delete(&mut self, e: Entity) -> (was_alive: bool)
        ensures
            was_alive == old(self).is_alive(e),
            final(self).alive@ == if old(self).was_created(e) {
                old(self).alive@.update(e.id as int, false)
            } else {
                old(self).alive@
            },
    {
        if e.id < self.alive.len() {
            let was = self.alive[e.id];
            self.alive.set(e.id, false);
            was
        } else {
            false
        }
    }
}

/// `fragments` without those of deleted entities.
pub open spec fn without_gone<T>(fragments: Map<Entity, T>, entities: Entities) -> Map<Entity, T> {
    Map::new(
        |e: Entity| fragments.dom().contains(e) && !entities.is_gone(e),
        |e: Entity| fragments[e],
    )
}

/// The fragments of one kind, keyed by the entity that owns them.
pub struct Store<T> {
    pub slots: Vec<Option<T>>,
}

impl<T> View for Store<T> {
    type V = Map<Entity, T>;

    open spec fn view(&self) -> Map<Entity, T> {
        Map::new(
            |e: Entity| e.id < self.slots.len() && self.slots[e.id as int] is Some,
            |e: Entity| self.slots[e.id as int]->0,
        )
    }
}

impl<T> Store<T> {
    /// The fragment of `e`, if it has one.
    pub open spec fn lookup(&self, e: Entity) -> Option<T> {
        if self@.dom().contains(e) {
            Some(self@[e])
        } else {
            None
        }
    }

    /// An empty store.
    pub fn new() -> (r: Store<T>)
        ensures
            r@ == Map::<Entity, T>::empty(),
    {
        let r = Store { slots: Vec::new() };
        assert(r@ =~= Map::<Entity, T>::empty());
        r
    }

    /// One past the largest identifier that may own a fragment here.
    pub fn bound(&self) -> (n: usize)
        ensures
            n == self.slots.len(),
            forall|e: Entity| self@.dom().contains(e) ==> e.id < n,
    {
        self.slots.len()
    }

    /// Whether `e` has a fragment here.
    pub fn contains(&self, e: Entity) -> (r: bool)
        ensures
            r == self@.dom().contains(e),
    {
        e.id < self.slots.len() && self.slots[e.id].is_some()
    }

    /// The fragment of `e`, if it has one.
    pub fn get(&self, e: Entity) -> (r: Option<&T>)
        ensures
            r is Some <==> self@.dom().contains(e),
            r is Some ==> *r->0 == self@[e],
    {
        if e.id < self.slots.len() {
            self.slots[e.id].as_ref()
        } else {
            None
        }
    }

    /// Attaches `value` to `e`, replacing and returning what was there.
    pub fn insert(&mut self, e: Entity, value: T) -> (previous: Option<T>)
        ensures
            final(self)@ == old(self)@.insert(e, value),
            previous == old(self).lookup(e),
    {
        while self.slots.len() <= e.id
            invariant
                self@ == old(self)@,
            decreases e.id + 1 - self.slots.len(),
        {
            let ghost before = self@;
            self.slots.push(None);
            assert(self@ =~= before);
        }
        let mut cell = Some(value);
        core::mem::swap(&mut self.slots[e.id], &mut cell);
        assert(self@ =~= old(self)@.insert(e, value));
        cell
    }

    /// Detaches and returns the fragment of `e`.
    pub fn remove(&mut self, e: Entity) -> (previous: Option<T>)
        ensures
            final(self)@ == old(self)@.remove(e),
            previous == old(self).lookup(e),
    {
        if e.id < self.slots.len() {
            let mut cell = None;
            core::mem::swap(&mut self.slots[e.id], &mut cell);
            assert(self@ =~= old(self)@.remove(e));
            cell
        } else {
            assert(self@ =~= old(self)@.remove(e));
            None
        }
    }

    /// Detaches the fragments of deleted entities.
    pub fn purge(&mut self, entities: &Entities)
        ensures
            final(self)@ == without_gone(old(self)@, *entities),
    {
        let n = if self.slots.len() < entities.alive.len() {
            self.slots.len()
        } else {
            entities.alive.len()
        };
        let mut i: usize = 0;
        while i < n
            invariant
                0 <= i <= n,
                n <= self.slots.len(),
                n <= entities.alive.len(),
                self.slots.len() == old(self).slots.len(),
                forall|k: int|
                    0 <= k < self.slots.len() ==> #[trigger] self.slots[k] == if k < i
                        && !entities.alive[k] {
                        None
                    } else {
                        old(self).slots[k]
                    },
            decreases n - i,
        {
            if !entities.alive[i] {
                self.slots.set(i, None);
            }
            i = i + 1;
        }
        assert(self@ =~= without_gone(old(self)@, *entities));
    }

    /// Detaches every fragment.
    pub fn clear(&mut self)
        ensures
            final(self)@ == Map::<Entity, T>::empty(),
    {
        self.slots.clear();
        assert(self@ =~= Map::<Entity, T>::empty());
    }
}

} // verus!
