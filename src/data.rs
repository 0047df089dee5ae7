use vstd::prelude::*;

use crate::entity::Entity;
use crate::model::{max_entities, Action, StoreModel};

verus! {

/// The faults a store reports instead of wrapping around.
#[derive(PartialEq, Eq, Structural, Clone, Copy, Debug)]
pub enum EcsError {
    /// Every 32-bit entity index is already in use.
    IdentifierOverflow,
    /// The reference count is already at its largest value.
    CountOverflow,
    /// The reference count is already zero.
    CountUnderflow,
}

/// A dense entity-component store over component values of type `C`.
///
/// Component kinds are the indices of the default table given to `new`; the
/// store keeps one column per kind that has been inserted at least once.
pub struct Data<C> {
    rc: Vec<u8>,
    components: Vec<Option<Vec<C>>>,
    defaults: Vec<C>,
}

/// The values a stored column holds, if it exists.
pub open spec fn column_view<C>(c: Option<Vec<C>>) -> Option<Seq<C>> {
    match c {
        Some(v) => Some(v@),
        None => None,
    }
}

impl<C> View for Data<C> {
    type V = StoreModel<C>;

    closed spec fn view(&self) -> StoreModel<C> {
        StoreModel {
            counts: self.rc@,
            columns: self.components@.map_values(|c: Option<Vec<C>>| column_view(c)),
            defaults: self.defaults@,
        }
    }
}

impl<C: Copy> Data<C> {
    /// An empty store whose kind `k` fills new rows with `defaults[k]`.
    #[must_use]
    pub fn new(defaults: Vec<C>) -> (r: Self)
        ensures
            r@ == StoreModel::empty(defaults@),
            r@.wf(),
    {
        let mut components: Vec<Option<Vec<C>>> = Vec::new();
        let mut k: usize = 0;
        while k < defaults.len()
            invariant
                k <= defaults.len(),
                components@.len() == k,
                forall|j: int| 0 <= j < k ==> (#[trigger] components@[j]) is None,
            decreases defaults.len() - k,
        {
            components.push(None);
            k = k + 1;
        }
        let r = Data { rc: Vec::new(), components, defaults };
        assert(r@.columns =~= StoreModel::<C>::empty(r.defaults@).columns);
        assert(r@.counts =~= Seq::<u8>::empty());
        r
    }

    /// Creates the next entity. Its reference count starts at one and every
    /// registered column gains its kind's default value for it.
    #[must_use]
    pub fn entity(&mut self) -> (r: Result<Entity, EcsError>)
        requires
            old(self)@.wf(),
        ensures
            final(self)@.wf(),
            final(self)@ == old(self)@.step(Action::Create),
            old(self)@.entity_count() < max_entities() ==> r is Ok
                && r.unwrap().index() == old(self)@.entity_count()
                && final(self)@ == old(self)@.with_entity(),
            old(self)@.entity_count() >= max_entities() ==> r == Err::<Entity, EcsError>(
                EcsError::IdentifierOverflow,
            ) && final(self)@ == old(self)@,
    {
        let id = self.rc.len();
        if id > u32::MAX as usize {
            return Err(EcsError::IdentifierOverflow);
        }
        let ghost before = self@;
        self.rc.push(1);
        let mut k: usize = 0;
        while k < self.components.len()
            invariant
                self.defaults@ == before.defaults,
                self.rc@ == before.counts.push(1),
                self.components@.len() == before.columns.len(),
                before.wf(),
                k <= self.components@.len(),
                forall|j: int|
                    0 <= j < k ==> column_view(#[trigger] self.components@[j]) == (
                    match before.columns[j] {
                        Some(s) => Some(s.push(before.defaults[j])),
                        None => None,
                    }),
                forall|j: int|
                    k <= j < self.components@.len() ==> column_view(
                        #[trigger] self.components@[j],
                    ) == before.columns[j],
            decreases self.components@.len() - k,
        {
            proof {
                assert(column_view(self.components@[k as int]) == before.columns[k as int]);
            }
            let d: C = self.defaults[k];
            match &mut self.components[k] {
                Some(column) => {
                    column.push(d);
                },
                None => {},
            }
            k = k + 1;
        }
        proof {
            assert(self@.columns =~= before.with_entity().columns);
            assert(self@.counts =~= before.with_entity().counts);
        }
        Ok(Entity::from_index(id as u32))
    }

    /// Sets kind `kind` of `entity` to `component`, and says whether that kind
    /// was registered before. A kind seen for the first time gets a column
    /// holding its default for every other entity.
    pub fn insert(&mut self, entity: Entity, kind: usize, component: C) -> (existed: bool)
        requires
            old(self)@.wf(),
            entity.index() < old(self)@.entity_count(),
            kind < old(self)@.kind_count(),
        ensures
            final(self)@.wf(),
            existed == old(self)@.registered(kind as int),
            final(self)@ == old(self)@.with_component(entity.index(), kind as nat, component),
            final(self)@ == old(self)@.step(Action::Insert(entity.index(), kind as nat, component)),
    {
        let ghost before = self@;
        let e = entity.i();
        let n = self.rc.len();
        let existed;
        proof {
            assert(column_view(self.components@[kind as int]) == before.columns[kind as int]);
        }
        match &mut self.components[kind] {
            Some(column) => {
                column.set(e, component);
                existed = true;
            },
            None => {
                existed = false;
            },
        }
        if !existed {
            let d: C = self.defaults[kind];
            let mut column: Vec<C> = Vec::with_capacity(n);
            let mut j: usize = 0;
            while j < n
                invariant
                    j <= n,
                    column@ == before.default_column(kind as int, j as nat),
                    d == before.defaults[kind as int],
                decreases n - j,
            {
                column.push(d);
                j = j + 1;
                proof {
                    assert(column@ =~= before.default_column(kind as int, j as nat));
                }
            }
            column.set(e, component);
            self.components.set(kind, Some(column));
        }
        proof {
            assert(self@.columns =~= before.with_component(entity.index(), kind as nat, component).columns);
        }
        existed
    }

    /// The column of kind `kind`, one value per entity in index order, or
    /// `None` while that kind has never been inserted.
    #[must_use]
    pub fn query(&self, kind: usize) -> (r: Option<&[C]>)
        ensures
            self@.column(kind as int) == (match r {
                Some(s) => Some(s@),
                None => None::<Seq<C>>,
            }),
    {
        if kind >= self.components.len() {
            return None;
        }
        proof {
            assert(column_view(self.components@[kind as int]) == self@.columns[kind as int]);
        }
        match &self.components[kind] {
            Some(column) => Some(column.as_slice()),
            None => None,
        }
    }

    /// Like `query`, but the values can be changed through the result; the
    /// column of `kind` becomes whatever the slice holds when it is dropped.
    #[must_use]
    pub fn query_mut(&mut self, kind: usize) -> (r: Option<&mut [C]>)
        ensures
            old(self)@.column(kind as int) == (match r {
                Some(s) => Some(s@),
                None => None::<Seq<C>>,
            }),
            final(self)@.counts == old(self)@.counts,
            final(self)@.defaults == old(self)@.defaults,
            r is None ==> final(self)@.columns =~= old(self)@.columns,
            r is Some ==> final(self)@.columns =~= old(self)@.columns.update(
                kind as int,
                Some(final(r.unwrap())@),
            ),
    {
        if kind >= self.components.len() {
            return None;
        }
        proof {
            assert(column_view(self.components@[kind as int]) == self@.columns[kind as int]);
        }
        match &mut self.components[kind] {
            Some(column) => Some(column.as_mut_slice()),
            None => None,
        }
    }

    /// Adds one to the reference count of `entity`; fails with
    /// `CountOverflow`, changing nothing, when the count is already 255.
    pub fn retain(&mut self, entity: Entity) -> (r: Result<(), EcsError>)
        requires
            old(self)@.wf(),
            entity.index() < old(self)@.entity_count(),
        ensures
            final(self)@.wf(),
            final(self)@ == old(self)@.step(Action::Retain(entity.index())),
            old(self)@.counts[entity.index() as int] < u8::MAX ==> r is Ok && final(self)@
                == old(self)@.retained(entity.index()),
            old(self)@.counts[entity.index() as int] == u8::MAX ==> r == Err::<(), EcsError>(
                EcsError::CountOverflow,
            ) && final(self)@ == old(self)@,
    {
        let e = entity.i();
        let count = self.rc[e];
        if count == u8::MAX {
            return Err(EcsError::CountOverflow);
        }
        let ghost before = self@;
        self.rc.set(e, count + 1);
        proof {
            assert(self@.columns =~= before.retained(entity.index()).columns);
        }
        Ok(())
    }

    /// Takes one from the reference count of `entity`; fails with
    /// `CountUnderflow`, changing nothing, when the count is already zero.
    pub fn release(&mut self, entity: Entity) -> (r: Result<(), EcsError>)
        requires
            old(self)@.wf(),
            entity.index() < old(self)@.entity_count(),
        ensures
            final(self)@.wf(),
            final(self)@ == old(self)@.step(Action::Release(entity.index())),
            old(self)@.counts[entity.index() as int] > 0 ==> r is Ok && final(self)@
                == old(self)@.released(entity.index()),
            old(self)@.counts[entity.index() as int] == 0 ==> r == Err::<(), EcsError>(
                EcsError::CountUnderflow,
            ) && final(self)@ == old(self)@,
    {
        let e = entity.i();
        let count = self.rc[e];
        if count == 0 {
            return Err(EcsError::CountUnderflow);
        }
        let ghost before = self@;
        self.rc.set(e, count - 1);
        proof {
            assert(self@.columns =~= before.released(entity.index()).columns);
        }
        Ok(())
    }

    /// The reference count of `entity`.
    #[must_use]
    pub fn count(&self, entity: Entity) -> (r: u8)
        requires
            self@.wf(),
            entity.index() < self@.entity_count(),
        ensures
            r == self@.counts[entity.index() as int],
    {
        self.rc[entity.i()]
    }
}

} // verus!
