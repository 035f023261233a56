use recs::entity::Entity;
use recs::pool::Pool;

#[test]
fn empty_pool_has_nothing() {
    let pool: Pool<i32> = Pool::new();
    assert!(pool.get(Entity::new(0)).is_none());
    let pool2: Pool<String> = Pool::with_capacity(16);
    assert!(pool2.get(Entity::new(3)).is_none());
}

#[test]
fn pool_assign_then_get_returns_value() {
    let mut pool: Pool<i32> = Pool::new();
    let e = Entity::new(0);
    pool.assign(e, 42);
    assert_eq!(*pool.get(e).unwrap(), 42);
}

#[test]
fn assign_overwrites_in_place() {
    let mut pool: Pool<i32> = Pool::new();
    let e = Entity::new(4);
    pool.assign(e, 1);
    pool.assign(e, 2);
    assert_eq!(*pool.get(e).unwrap(), 2);
}

#[test]
fn pool_assign_returns_borrow_of_stored_value() {
    let mut pool: Pool<i32> = Pool::new();
    let e = Entity::new(0);
    let slot = pool.assign(e, 10);
    *slot = 11;
    assert_eq!(*pool.get(e).unwrap(), 11);
}

#[test]
fn pool_get_mut_writes_through() {
    let mut pool: Pool<String> = Pool::new();
    let e = Entity::new(2);
    pool.assign(e, String::from("a"));
    *pool.get_mut(e).unwrap() = String::from("b");
    assert_eq!(pool.get(e).unwrap(), "b");
    assert!(pool.get_mut(Entity::new(3)).is_none());
}

#[test]
fn free_removes_value_and_is_idempotent() {
    let mut pool: Pool<i32> = Pool::new();
    let e = Entity::new(1);
    pool.assign(e, 5);
    pool.free(e);
    assert!(pool.get(e).is_none());
    pool.free(e);
    assert!(pool.get(e).is_none());
}

#[test]
fn freed_dense_slot_is_reused() {
    let mut pool: Pool<i32> = Pool::new();
    let a = Entity::new(0);
    let b = Entity::new(1);
    pool.assign(a, 10);
    pool.free(a);
    pool.assign(b, 20);
    assert!(pool.get(a).is_none());
    assert_eq!(*pool.get(b).unwrap(), 20);
}

#[test]
fn pool_ignores_generations() {
    let mut pool: Pool<i32> = Pool::new();
    pool.assign(Entity::with_version(6, 0), 1);
    assert_eq!(*pool.get(Entity::with_version(6, 5)).unwrap(), 1);
}

#[test]
fn pool_assign_default_stores_the_default() {
    let mut pool: Pool<i32> = Pool::new();
    let e = Entity::new(0);
    pool.assign_default(e);
    assert_eq!(*pool.get(e).unwrap(), 0);
    let mut pool2: Pool<String> = Pool::new();
    pool2.assign_default(e);
    assert_eq!(pool2.get(e).unwrap(), "");
}
