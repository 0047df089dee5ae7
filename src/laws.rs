use vstd::prelude::*;

use crate::model::{max_entities, Action, StoreModel};

verus! {

/// Retains minus releases of entity `e` among `acts`.
pub open spec fn net_retains<C>(acts: Seq<Action<C>>, e: nat) -> int
    decreases acts.len(),
{
    if acts.len() == 0 {
        0
    } else {
        net_retains(acts.drop_last(), e) + if acts.last() == Action::<C>::Retain(e) {
            1int
        } else if acts.last() == Action::<C>::Release(e) {
            -1int
        } else {
            0int
        }
    }
}

/// Every call keeps a well-formed state well-formed, with the same kinds.
pub proof fn lemma_step_wf<C>(d: StoreModel<C>, a: Action<C>)
    requires
        d.wf(),
    ensures
        d.step(a).wf(),
        d.step(a).defaults == d.defaults,
{
    match a {
        Action::Create => {
            if d.entity_count() < max_entities() {
                let n = d.with_entity();
                assert forall|k: int|
                    0 <= k < n.columns.len() && (#[trigger] n.columns[k]) is Some implies n.columns[
                    k].unwrap().len() == n.entity_count() by {
                    assert(d.columns[k] is Some);
                }
            }
        },
        Action::Insert(e, k, v) => {
            if e < d.entity_count() && k < d.kind_count() {
                let n = d.with_component(e, k, v);
                assert forall|j: int|
                    0 <= j < n.columns.len() && (#[trigger] n.columns[j]) is Some implies n.columns[
                    j].unwrap().len() == n.entity_count() by {
                    if j != k {
                        assert(d.columns[j] is Some);
                    }
                }
            }
        },
        Action::Retain(e) => {},
        Action::Release(e) => {},
    }
}

/// Every run of calls keeps a well-formed state well-formed, with the same
/// kinds.
pub proof fn lemma_run_wf<C>(d: StoreModel<C>, acts: Seq<Action<C>>)
    requires
        d.wf(),
    ensures
        d.run(acts).wf(),
        d.run(acts).defaults == d.defaults,
    decreases acts.len(),
{
    if acts.len() > 0 {
        lemma_run_wf(d, acts.drop_last());
        lemma_step_wf(d.run(acts.drop_last()), acts.last());
    }
}

/// Entity indices are handed out in order: after `n` calls of `entity()` on a
/// new store there are `n` entities, so the call after them returns index `n`.
pub proof fn lemma_index_stability<C>(defaults: Seq<C>, acts: Seq<Action<C>>)
    requires
        acts.len() <= max_entities(),
        forall|i: int| 0 <= i < acts.len() ==> #[trigger] acts[i] == Action::<C>::Create,
    ensures
        StoreModel::empty(defaults).run(acts).entity_count() == acts.len(),
    decreases acts.len(),
{
    if acts.len() > 0 {
        let rest = acts.drop_last();
        assert forall|i: int| 0 <= i < rest.len() implies #[trigger] rest[i] == Action::<
            C,
        >::Create by {
            assert(rest[i] == acts[i]);
        }
        lemma_index_stability(defaults, rest);
        assert(acts.last() == acts[acts.len() - 1]);
    }
}

/// Whatever calls are made on a new store, every registered column holds
/// exactly one value per entity, so each entity's index is a valid position in
/// it, for entities created before the kind was registered and after.
pub proof fn lemma_columns_aligned<C>(defaults: Seq<C>, acts: Seq<Action<C>>, k: int, e: int)
    requires
        StoreModel::empty(defaults).run(acts).registered(k),
        0 <= e < StoreModel::empty(defaults).run(acts).entity_count(),
    ensures
        StoreModel::empty(defaults).run(acts).column(k).unwrap().len() == StoreModel::empty(
            defaults,
        ).run(acts).entity_count(),
        e < StoreModel::empty(defaults).run(acts).column(k).unwrap().len(),
{
    lemma_run_wf(StoreModel::empty(defaults), acts);
}

/// After `insert(e, k, v)`, row `e` of kind `k` reads back `v`, whether or not
/// kind `k` was registered before.
pub proof fn lemma_write_read<C>(d: StoreModel<C>, e: nat, k: nat, v: C)
    requires
        d.wf(),
        e < d.entity_count(),
        k < d.kind_count(),
    ensures
        d.with_component(e, k, v).column(k as int) is Some,
        d.with_component(e, k, v).column(k as int).unwrap()[e as int] == v,
        d.with_component(e, k, v).column(k as int).unwrap().len() == d.entity_count(),
{
}

/// When `insert(e1, k, v)` registers kind `k`, every other existing entity
/// reads the default of kind `k`.
pub proof fn lemma_default_backfill<C>(d: StoreModel<C>, e1: nat, e2: nat, k: nat, v: C)
    requires
        d.wf(),
        !d.registered(k as int),
        k < d.kind_count(),
        e1 < d.entity_count(),
        e2 < d.entity_count(),
        e2 != e1,
    ensures
        d.with_component(e1, k, v).column(k as int).unwrap()[e2 as int] == d.defaults[k as int],
{
}

/// A kind that no call inserted has no column.
pub proof fn lemma_absence<C>(defaults: Seq<C>, acts: Seq<Action<C>>, u: int)
    requires
        forall|i: int|
            0 <= i < acts.len() ==> !(#[trigger] acts[i] is Insert && acts[i]->Insert_1 == u),
    ensures
        StoreModel::empty(defaults).run(acts).column(u) is None,
    decreases acts.len(),
{
    if acts.len() > 0 {
        let rest = acts.drop_last();
        assert forall|i: int|
            0 <= i < rest.len() implies !(#[trigger] rest[i] is Insert && rest[i]->Insert_1
            == u) by {
            assert(rest[i] == acts[i]);
        }
        lemma_absence(defaults, rest, u);
        lemma_run_wf(StoreModel::empty(defaults), rest);
        assert(acts.last() == acts[acts.len() - 1]);
    }
}

/// A new entity's count starts at one; after retains and releases of it that
/// keep the count within `0..=255` at every point, the count is one plus the
/// retains minus the releases.
pub proof fn lemma_reference_count<C>(d: StoreModel<C>, acts: Seq<Action<C>>)
    requires
        d.wf(),
        d.entity_count() < max_entities(),
        forall|i: int|
            0 <= i < acts.len() ==> #[trigger] acts[i] == Action::<C>::Retain(d.entity_count())
                || acts[i] == Action::<C>::Release(d.entity_count()),
        forall|j: int|
            0 <= j <= acts.len() ==> 0 <= 1 + #[trigger] net_retains(acts.take(j), d.entity_count())
                <= u8::MAX,
    ensures
        d.with_entity().run(acts).counts[d.entity_count() as int] == 1 + net_retains(
            acts,
            d.entity_count(),
        ),
        d.with_entity().run(acts).entity_count() == d.entity_count() + 1,
    decreases acts.len(),
{
    let e = d.entity_count();
    if acts.len() > 0 {
        let rest = acts.drop_last();
        assert forall|i: int| 0 <= i < rest.len() implies #[trigger] rest[i] == Action::<
            C,
        >::Retain(e) || rest[i] == Action::<C>::Release(e) by {
            assert(rest[i] == acts[i]);
        }
        assert forall|j: int| 0 <= j <= rest.len() implies 0 <= 1 + #[trigger] net_retains(
            rest.take(j),
            e,
        ) <= u8::MAX by {
            assert(rest.take(j) =~= acts.take(j));
        }
        lemma_reference_count(d, rest);
        assert(acts.take(acts.len() as int) =~= acts);
        assert(acts.last() == acts[acts.len() - 1]);
    }
}

} // verus!
