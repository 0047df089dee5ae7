use vstd::prelude::*;

verus! {

/// The largest number of entities a store can hold: one per 32-bit index.
pub open spec fn max_entities() -> nat {
    u32::MAX as nat + 1
}

/// The abstract state of a store.
///
/// `counts[e]` is the reference count of entity `e`, so `counts.len()` is the
/// number of entities. `columns[k]` is the column of component kind `k`, or
/// `None` while that kind has not been registered, and `defaults[k]` is the
/// value that kind `k` fills new rows with.
pub struct StoreModel<C> {
    pub counts: Seq<u8>,
    pub columns: Seq<Option<Seq<C>>>,
    pub defaults: Seq<C>,
}

/// One call made on a store, for reasoning about runs of calls.
pub enum Action<C> {
    /// `entity()`.
    Create,
    /// `insert(e, kind, value)`.
    Insert(nat, nat, C),
    /// `retain(e)`.
    Retain(nat),
    /// `release(e)`.
    Release(nat),
}

impl<C> StoreModel<C> {
    /// A store with no entities and no registered kinds.
    pub open spec fn empty(defaults: Seq<C>) -> Self {
        StoreModel {
            counts: Seq::empty(),
            columns: Seq::new(defaults.len(), |k: int| None),
            defaults,
        }
    }

    pub open spec fn entity_count(self) -> nat {
        self.counts.len()
    }

    pub open spec fn kind_count(self) -> nat {
        self.defaults.len()
    }

    pub open spec fn registered(self, k: int) -> bool {
        0 <= k < self.columns.len() && self.columns[k] is Some
    }

    /// The column of kind `k`, `None` when `k` is unregistered or unknown.
    pub open spec fn column(self, k: int) -> Option<Seq<C>> {
        if 0 <= k < self.columns.len() {
            self.columns[k]
        } else {
            None
        }
    }

    /// Every registered column has one value per entity, and the entity
    /// count fits the 32-bit index space.
    pub open spec fn wf(self) -> bool {
        &&& self.columns.len() == self.defaults.len()
        &&& self.entity_count() <= max_entities()
        &&& forall|k: int|
            0 <= k < self.columns.len() && (#[trigger] self.columns[k]) is Some
                ==> self.columns[k].unwrap().len() == self.entity_count()
    }

    /// A column of `n` default values of kind `k`.
    pub open spec fn default_column(self, k: int, n: nat) -> Seq<C> {
        Seq::new(n, |i: int| self.defaults[k])
    }

    /// The state after creating one entity: its count starts at one and every
    /// registered column gains its kind's default value.
    pub open spec fn with_entity(self) -> Self {
        StoreModel {
            counts: self.counts.push(1),
            columns: self.columns.map(
                |k: int, c: Option<Seq<C>>|
                    match c {
                        Some(s) => Some(s.push(self.defaults[k])),
                        None => None,
                    },
            ),
            defaults: self.defaults,
        }
    }

    /// The state after writing `v` as kind `k` of entity `e`. A kind seen for
    /// the first time gets a column of defaults with `v` at row `e`.
    pub open spec fn with_component(self, e: nat, k: nat, v: C) -> Self {
        let old_column = match self.columns[k as int] {
            Some(s) => s,
            None => self.default_column(k as int, self.entity_count()),
        };
        StoreModel {
            counts: self.counts,
            columns: self.columns.update(k as int, Some(old_column.update(e as int, v))),
            defaults: self.defaults,
        }
    }

    /// The state after adding one to the count of entity `e`.
    pub open spec fn retained(self, e: nat) -> Self {
        StoreModel {
            counts: self.counts.update(e as int, (self.counts[e as int] + 1) as u8),
            ..self
        }
    }

    /// The state after taking one from the count of entity `e`.
    pub open spec fn released(self, e: nat) -> Self {
        StoreModel {
            counts: self.counts.update(e as int, (self.counts[e as int] - 1) as u8),
            ..self
        }
    }

    /// The state after one call; a call that fails leaves the state as it was.
    pub open spec fn step(self, a: Action<C>) -> Self {
        match a {
            Action::Create => if self.entity_count() < max_entities() {
                self.with_entity()
            } else {
                self
            },
            Action::Insert(e, k, v) => if e < self.entity_count() && k < self.kind_count() {
                self.with_component(e, k, v)
            } else {
                self
            },
            Action::Retain(e) => if e < self.entity_count() && self.counts[e as int] < u8::MAX {
                self.retained(e)
            } else {
                self
            },
            Action::Release(e) => if e < self.entity_count() && self.counts[e as int] > 0 {
                self.released(e)
            } else {
                self
            },
        }
    }

    /// The state after the calls of `acts`, in order.
    pub open spec fn run(self, acts: Seq<Action<C>>) -> Self
        decreases acts.len(),
    {
        if acts.len() == 0 {
            self
        } else {
            self.run(acts.drop_last()).step(acts.last())
        }
    }
}

} // verus!
