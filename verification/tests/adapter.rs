use cached_redis::async_cache::AsyncRedisCache;
use cached_redis::cache::RedisCache;
use cached_redis::store::StoreModel;

fn env_absent() -> Result<String, String> {
    Err("environment variable not set".to_string())
}

#[test]
fn redis_cache() {
    let mut store = StoreModel::new(0);
    let mut c: RedisCache<u32, u32> = RedisCache::new("redis-cache-test", 2)
        .set_connection_string("redis://127.0.0.1/")
        .build(env_absent())
        .unwrap();

    assert!(c.cache_get(&mut store, &1).unwrap().is_none());

    assert!(c.cache_set(&mut store, 1, 100).unwrap().is_none());
    assert!(c.cache_get(&mut store, &1).unwrap().is_some());

    // 2.5 seconds pass: past the 2 second TTL.
    store.advance(3);
    assert!(c.cache_get(&mut store, &1).unwrap().is_none());

    let old = c.cache_set_lifespan(1).unwrap();
    assert_eq!(2, old);
    assert!(c.cache_set(&mut store, 1, 100).unwrap().is_none());
    assert!(c.cache_get(&mut store, &1).unwrap().is_some());

    // 1.6 seconds pass: past the 1 second TTL.
    store.advance(2);
    assert!(c.cache_get(&mut store, &1).unwrap().is_none());

    c.cache_set_lifespan(10).unwrap();
    assert!(c.cache_set(&mut store, 1, 100).unwrap().is_none());
    assert!(c.cache_set(&mut store, 2, 100).unwrap().is_none());
    assert_eq!(c.cache_get(&mut store, &1).unwrap().unwrap(), 100);
    assert_eq!(c.cache_get(&mut store, &1).unwrap().unwrap(), 100);
}

#[test]
fn test_async_redis_cache() {
    let mut store = StoreModel::new(0);
    let mut c: AsyncRedisCache<u32, u32> = AsyncRedisCache::new("async-redis-cache-test", 2)
        .set_connection_string("redis://127.0.0.1/")
        .build(env_absent())
        .unwrap();

    assert!(c.cache_get(&mut store, &1).unwrap().is_none());

    assert!(c.cache_set(&mut store, 1, 100).unwrap().is_none());
    assert!(c.cache_get(&mut store, &1).unwrap().is_some());

    store.advance(3);
    assert!(c.cache_get(&mut store, &1).unwrap().is_none());

    let old = c.cache_set_lifespan(1).unwrap();
    assert_eq!(2, old);
    assert!(c.cache_set(&mut store, 1, 100).unwrap().is_none());
    assert!(c.cache_get(&mut store, &1).unwrap().is_some());

    store.advance(2);
    assert!(c.cache_get(&mut store, &1).unwrap().is_none());

    c.cache_set_lifespan(10).unwrap();
    assert!(c.cache_set(&mut store, 1, 100).unwrap().is_none());
    assert!(c.cache_set(&mut store, 2, 100).unwrap().is_none());
    assert_eq!(c.cache_get(&mut store, &1).unwrap().unwrap(), 100);
    assert_eq!(c.cache_get(&mut store, &1).unwrap().unwrap(), 100);
}

#[test]
fn remove() {
    let mut store = StoreModel::new(0);
    let c: RedisCache<u32, u32> = RedisCache::new("redis-cache-test-remove", 3600)
        .set_connection_string("redis://127.0.0.1/")
        .build(env_absent())
        .unwrap();

    assert!(c.cache_set(&mut store, 1, 100).unwrap().is_none());
    assert!(c.cache_set(&mut store, 2, 200).unwrap().is_none());
    assert!(c.cache_set(&mut store, 3, 300).unwrap().is_none());

    assert_eq!(100, c.cache_remove(&mut store, &1).unwrap().unwrap());
}

#[test]
fn set_returns_prior_value() {
    let mut store = StoreModel::new(0);
    let c: RedisCache<u64, u64> = RedisCache::new("prior", 60)
        .set_connection_string("redis://127.0.0.1/")
        .build(env_absent())
        .unwrap();

    assert_eq!(None, c.cache_set(&mut store, 7, 10).unwrap());
    assert_eq!(Some(10), c.cache_set(&mut store, 7, 20).unwrap());
    assert_eq!(Some(20), c.cache_get(&mut store, &7).unwrap());
}

#[test]
fn refresh_keeps_key_alive() {
    let mut store = StoreModel::new(0);
    let mut c: RedisCache<u32, u32> = RedisCache::new("refresh-test", 2)
        .set_connection_string("redis://127.0.0.1/")
        .build(env_absent())
        .unwrap();
    let was = c.cache_set_refresh(true);
    assert!(!was);

    assert!(c.cache_set(&mut store, 1, 100).unwrap().is_none());
    // Each read before the window elapses re-arms the TTL.
    store.advance(1);
    assert_eq!(Some(100), c.cache_get(&mut store, &1).unwrap());
    store.advance(1);
    assert_eq!(Some(100), c.cache_get(&mut store, &1).unwrap());
    store.advance(1);
    assert_eq!(Some(100), c.cache_get(&mut store, &1).unwrap());
    // The key still expires a full TTL after the last read.
    store.advance(2);
    assert!(c.cache_get(&mut store, &1).unwrap().is_none());
}

#[test]
fn plain_get_does_not_extend_life() {
    let mut store = StoreModel::new(0);
    let c: RedisCache<u32, u32> = RedisCache::new("no-refresh-test", 2)
        .set_connection_string("redis://127.0.0.1/")
        .build(env_absent())
        .unwrap();

    assert!(c.cache_set(&mut store, 1, 100).unwrap().is_none());
    store.advance(1);
    assert_eq!(Some(100), c.cache_get(&mut store, &1).unwrap());
    store.advance(1);
    // Two seconds after the set, the read in between notwithstanding.
    assert!(c.cache_get(&mut store, &1).unwrap().is_none());
}

#[test]
fn remove_then_get_is_absent() {
    let mut store = StoreModel::new(0);
    let c: RedisCache<u32, u32> = RedisCache::new("remove-get", 3600)
        .set_connection_string("redis://127.0.0.1/")
        .build(env_absent())
        .unwrap();

    assert!(c.cache_set(&mut store, 1, 100).unwrap().is_none());
    assert_eq!(Some(100), c.cache_remove(&mut store, &1).unwrap());
    assert!(c.cache_get(&mut store, &1).unwrap().is_none());
    // Removing an absent key answers absence, not an error.
    assert_eq!(None, c.cache_remove(&mut store, &1).unwrap());
}

#[test]
fn lifespan_change_spares_stored_keys() {
    let mut store = StoreModel::new(0);
    let mut c: RedisCache<u32, u32> = RedisCache::new("lifespan-change", 2)
        .set_connection_string("redis://127.0.0.1/")
        .build(env_absent())
        .unwrap();

    assert!(c.cache_set(&mut store, 1, 100).unwrap().is_none());
    assert_eq!(Some(2), c.cache_set_lifespan(3600));
    assert!(c.cache_set(&mut store, 2, 200).unwrap().is_none());
    // Key 1 was stored under the old 2 second TTL and still expires then.
    store.advance(2);
    assert!(c.cache_get(&mut store, &1).unwrap().is_none());
    assert_eq!(Some(200), c.cache_get(&mut store, &2).unwrap());
}

#[test]
fn separate_prefixes_do_not_collide() {
    let mut store = StoreModel::new(0);
    let a: RedisCache<u32, u32> = RedisCache::new("left:", 60)
        .set_connection_string("redis://127.0.0.1/")
        .build(env_absent())
        .unwrap();
    let b: RedisCache<u32, u32> = RedisCache::new("right:", 60)
        .set_connection_string("redis://127.0.0.1/")
        .build(env_absent())
        .unwrap();

    assert!(a.cache_set(&mut store, 1, 100).unwrap().is_none());
    assert!(b.cache_get(&mut store, &1).unwrap().is_none());
    assert!(b.cache_set(&mut store, 1, 999).unwrap().is_none());
    assert_eq!(Some(100), a.cache_get(&mut store, &1).unwrap());
}

#[test]
fn string_keys_render_as_themselves() {
    let mut store = StoreModel::new(0);
    let c: RedisCache<String, u32> = RedisCache::new("s:", 60)
        .set_connection_string("redis://127.0.0.1/")
        .build(Err("environment variable not set".to_string()))
        .unwrap();
    assert_eq!("cached-redis-store:s:user7", c.generate_key(&"user7".to_string()).as_str());
    assert!(c.cache_set(&mut store, "user7".to_string(), 100).unwrap().is_none());
    assert_eq!(Some(100), c.cache_get(&mut store, &"user7".to_string()).unwrap());
}
