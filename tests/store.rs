use ecs::data::{Data, EcsError};
use ecs::entity::Entity;

#[derive(Clone, Copy, PartialEq, Debug)]
enum Comp {
    Position(u64, u64),
    Velocity(i64, i64),
    Health(u32),
}

const POSITION: usize = 0;
const VELOCITY: usize = 1;
const HEALTH: usize = 2;

fn world() -> Data<Comp> {
    Data::new(vec![
        Comp::Position(0, 0),
        Comp::Velocity(0, 0),
        Comp::Health(100),
    ])
}

fn spawn(w: &mut Data<Comp>) -> Entity {
    w.entity().expect("entity index space exhausted")
}

#[test]
fn scenario_first_insert_on_first_entity() {
    let mut w = world();
    let e0 = spawn(&mut w);
    assert!(!w.insert(e0, POSITION, Comp::Position(10, 20)));
    assert_eq!(w.query(POSITION), Some(&[Comp::Position(10, 20)][..]));
    let e1 = spawn(&mut w);
    assert!(!w.insert(e1, VELOCITY, Comp::Velocity(1, 1)));
    let v = w.query(VELOCITY).unwrap();
    assert_eq!(v.len(), 2);
    assert_eq!(v[0], Comp::Velocity(0, 0));
    assert_eq!(v[1], Comp::Velocity(1, 1));
    let p = w.query(POSITION).unwrap();
    assert_eq!(p.len(), 2);
    assert_eq!(p[1], Comp::Position(0, 0));
}

#[test]
fn scenario_first_insert_on_later_entity() {
    let mut w = world();
    let _e0 = spawn(&mut w);
    let e1 = spawn(&mut w);
    assert!(!w.insert(e1, POSITION, Comp::Position(10, 20)));
    assert_eq!(
        w.query(POSITION),
        Some(&[Comp::Position(0, 0), Comp::Position(10, 20)][..])
    );
}

#[test]
fn scenario_retain_twice_release_once() {
    let mut w = world();
    let e0 = spawn(&mut w);
    assert_eq!(w.retain(e0), Ok(()));
    assert_eq!(w.retain(e0), Ok(()));
    assert_eq!(w.release(e0), Ok(()));
    assert_eq!(w.count(e0), 2);
}

#[test]
fn scenario_query_never_inserted() {
    let mut w = world();
    let _e0 = spawn(&mut w);
    assert_eq!(w.query(HEALTH), None);
    assert_eq!(w.query(99), None);
    assert!(w.query_mut(HEALTH).is_none());
}

#[test]
fn entity_indices_count_up_from_zero() {
    let mut w = world();
    for k in 0..10usize {
        assert_eq!(spawn(&mut w).i(), k);
    }
}

#[test]
fn columns_stay_aligned_with_entities() {
    let mut w = world();
    let a = spawn(&mut w);
    let b = spawn(&mut w);
    w.insert(b, HEALTH, Comp::Health(5));
    let c = spawn(&mut w);
    let d = spawn(&mut w);
    let h = w.query(HEALTH).unwrap();
    assert_eq!(h.len(), 4);
    for e in [a, b, c, d] {
        assert!(e.i() < h.len());
    }
    assert_eq!(h, &[Comp::Health(100), Comp::Health(5), Comp::Health(100), Comp::Health(100)][..]);
}

#[test]
fn insert_then_query_reads_value_back() {
    let mut w = world();
    let a = spawn(&mut w);
    let b = spawn(&mut w);
    assert!(!w.insert(b, VELOCITY, Comp::Velocity(-3, 4)));
    assert_eq!(w.query(VELOCITY).unwrap()[b.i()], Comp::Velocity(-3, 4));
    assert!(w.insert(a, VELOCITY, Comp::Velocity(7, 8)));
    assert_eq!(w.query(VELOCITY).unwrap()[a.i()], Comp::Velocity(7, 8));
    assert!(w.insert(b, VELOCITY, Comp::Velocity(9, 9)));
    assert_eq!(
        w.query(VELOCITY),
        Some(&[Comp::Velocity(7, 8), Comp::Velocity(9, 9)][..])
    );
}

#[test]
fn first_insert_backfills_defaults() {
    let mut w = world();
    let a = spawn(&mut w);
    let b = spawn(&mut w);
    let c = spawn(&mut w);
    w.insert(c, HEALTH, Comp::Health(1));
    let h = w.query(HEALTH).unwrap();
    assert_eq!(h[a.i()], Comp::Health(100));
    assert_eq!(h[b.i()], Comp::Health(100));
    assert_eq!(h[c.i()], Comp::Health(1));
}

#[test]
fn untouched_kind_stays_absent() {
    let mut w = world();
    let a = spawn(&mut w);
    w.insert(a, POSITION, Comp::Position(1, 2));
    let _ = w.retain(a);
    let _ = spawn(&mut w);
    assert!(w.query(POSITION).is_some());
    assert_eq!(w.query(VELOCITY), None);
    assert_eq!(w.query(HEALTH), None);
}

#[test]
fn reference_count_tracks_retains_and_releases() {
    let mut w = world();
    let a = spawn(&mut w);
    assert_eq!(w.count(a), 1);
    for _ in 0..5 {
        w.retain(a).unwrap();
    }
    for _ in 0..3 {
        w.release(a).unwrap();
    }
    assert_eq!(w.count(a), 3);
}

#[test]
fn retain_at_255_is_an_overflow() {
    let mut w = world();
    let a = spawn(&mut w);
    for _ in 0..254 {
        w.retain(a).unwrap();
    }
    assert_eq!(w.count(a), 255);
    assert_eq!(w.retain(a), Err(EcsError::CountOverflow));
    assert_eq!(w.count(a), 255);
}

#[test]
fn release_at_zero_is_an_underflow() {
    let mut w = world();
    let a = spawn(&mut w);
    assert_eq!(w.release(a), Ok(()));
    assert_eq!(w.count(a), 0);
    assert_eq!(w.release(a), Err(EcsError::CountUnderflow));
    assert_eq!(w.count(a), 0);
}

#[test]
fn query_mut_writes_are_seen_by_query() {
    let mut w = world();
    let a = spawn(&mut w);
    let b = spawn(&mut w);
    w.insert(a, POSITION, Comp::Position(10, 20));
    w.query_mut(POSITION).unwrap()[b.i()] = Comp::Position(3, 4);
    assert_eq!(
        w.query(POSITION),
        Some(&[Comp::Position(10, 20), Comp::Position(3, 4)][..])
    );
}

#[test]
fn counts_are_per_entity() {
    let mut w = world();
    let a = spawn(&mut w);
    let b = spawn(&mut w);
    w.retain(b).unwrap();
    assert_eq!(w.count(a), 1);
    assert_eq!(w.count(b), 2);
    assert!(a < b);
    assert_ne!(a, b);
}
