use cached_redis::cache::{generate_prefix, RedisCache, RedisCacheBuildError, RedisCacheError};
use cached_redis::store::StoreModel;

#[test]
fn prefix_joins_the_namespace_token() {
    assert_eq!("cached-redis-store:alpha", generate_prefix("alpha").as_str());
    assert_eq!("cached-redis-store:", generate_prefix("").as_str());
}

#[test]
fn generate_key_appends_the_canonical_key_form() {
    let c: RedisCache<u32, u32> = RedisCache::new("alpha:", 60)
        .set_connection_string("redis://127.0.0.1/")
        .build(Err("environment variable not set".to_string()))
        .unwrap();
    assert_eq!("cached-redis-store:alpha:17", c.generate_key(&17).as_str());
}

#[test]
fn build_uses_the_configured_connection_string() {
    let c: RedisCache<u32, u32> = RedisCache::new("alpha", 60)
        .set_connection_string("redis://10.0.0.1/")
        .build(Ok("redis://from-env/".to_string()))
        .unwrap();
    assert_eq!("redis://10.0.0.1/", c.connection_string().as_str());
}

#[test]
fn build_falls_back_to_the_environment() {
    let c: RedisCache<u32, u32> = RedisCache::new("alpha", 60)
        .build(Ok("redis://from-env/".to_string()))
        .unwrap();
    assert_eq!("redis://from-env/", c.connection_string().as_str());
}

#[test]
fn build_without_any_connection_string_names_the_variable() {
    let r: Result<RedisCache<u32, u32>, RedisCacheBuildError> =
        RedisCache::new("alpha", 60).build(Err("environment variable not set".to_string()));
    match r {
        Err(RedisCacheBuildError::MissingConnectionString { env_key, cause }) => {
            assert_eq!("CACHED_REDIS_CONNECTION_STRING", env_key.as_str());
            assert_eq!("environment variable not set", cause.as_str());
        }
        _ => panic!("expected a missing-connection-string error"),
    }
}

#[test]
fn builder_setters_configure_the_adapter() {
    let c: RedisCache<u32, u32> = RedisCache::new("alpha", 2)
        .set_lifespan(60)
        .set_refresh(true)
        .set_prefix("beta:")
        .set_connection_string("redis://127.0.0.1/")
        .build(Err("environment variable not set".to_string()))
        .unwrap();
    assert_eq!(Some(60), c.cache_lifespan());
    assert_eq!("cached-redis-store:beta:3", c.generate_key(&3).as_str());
}

#[test]
fn lifespan_and_refresh_report_their_old_values() {
    let mut c: RedisCache<u32, u32> = RedisCache::new("alpha", 2)
        .set_connection_string("redis://127.0.0.1/")
        .build(Err("environment variable not set".to_string()))
        .unwrap();
    assert_eq!(Some(2), c.cache_set_lifespan(5));
    assert_eq!(Some(5), c.cache_set_lifespan(9));
    assert_eq!(Some(9), c.cache_lifespan());
    assert!(!c.cache_set_refresh(true));
    assert!(c.cache_set_refresh(false));
}

#[test]
fn malformed_stored_text_is_an_error_not_absence() {
    let mut store = StoreModel::new(0);
    let c: RedisCache<u32, u32> = RedisCache::new("bad:", 60)
        .set_connection_string("redis://127.0.0.1/")
        .build(Err("environment variable not set".to_string()))
        .unwrap();
    // Plant a text under the adapter's own namespaced key that is no
    // envelope of a value.
    let key = c.generate_key(&1);
    store.store(key, "not an envelope".to_string(), 60);
    match c.cache_get(&mut store, &1) {
        Err(RedisCacheError::CacheDeserializationError { cached_value }) => {
            assert_eq!("not an envelope", cached_value.as_str());
        }
        _ => panic!("expected a deserialization error"),
    }
}

#[test]
fn envelope_with_malformed_inside_is_an_error() {
    let mut store = StoreModel::new(0);
    let c: RedisCache<u32, u32> = RedisCache::new("bad:", 60)
        .set_connection_string("redis://127.0.0.1/")
        .build(Err("environment variable not set".to_string()))
        .unwrap();
    let key = c.generate_key(&1);
    store.store(key, "{\"value\":oops}".to_string(), 60);
    match c.cache_get(&mut store, &1) {
        Err(RedisCacheError::CacheDeserializationError { cached_value }) => {
            assert_eq!("{\"value\":oops}", cached_value.as_str());
        }
        _ => panic!("expected a deserialization error"),
    }
}

#[test]
fn stored_text_is_the_envelope_not_the_input() {
    let mut store = StoreModel::new(0);
    let c: RedisCache<u32, u32> = RedisCache::new("raw:", 60)
        .set_connection_string("redis://127.0.0.1/")
        .build(Err("environment variable not set".to_string()))
        .unwrap();
    assert!(c.cache_set(&mut store, 1, 100).unwrap().is_none());
    let key = c.generate_key(&1);
    let raw = store.fetch(&key).unwrap();
    assert_eq!("{\"value\":100}", raw.as_str());
}
