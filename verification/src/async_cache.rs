//! The non-blocking variant of the cache adapter.
//!
//! `AsyncRedisCache` speaks the same protocol as `RedisCache`; it is
//! meant to run over one shared multiplexed session, where acquiring a
//! connection is a cheap handle clone and the only connection failure
//! can happen once, when the session is established at build time. The
//! session itself, like every transport, stays outside the library.

use core::marker::PhantomData;
use vstd::prelude::*;

use crate::codec::{envelope_of, CacheKey, CacheValue};
use crate::command::{apply_batch, fetch_resp};
use crate::cache::{
    connection_env_key, connection_resolution, decode_outcome, generate_prefix, get_batch_model,
    namespaced, namespaced_key, remove_batch_model, render_key, resolved_connection, run_get,
    run_remove, run_set, set_batch_model, RedisCacheBuildError, RedisCacheError,
};
use crate::store::StoreModel;

verus! {

/// Configure and assemble an `AsyncRedisCache`.
pub struct AsyncRedisCacheBuilder<K, V> {
    seconds: u64,
    refresh: bool,
    prefix: String,
    connection_string: Option<String>,
    _phantom_k: PhantomData<K>,
    _phantom_v: PhantomData<V>,
}

impl<K: CacheKey, V: CacheValue> AsyncRedisCacheBuilder<K, V> {
    /// The configured TTL in seconds.
    pub closed spec fn lifespan_spec(&self) -> u64 {
        self.seconds
    }

    /// Whether cache hits refresh the TTL.
    pub closed spec fn refresh_spec(&self) -> bool {
        self.refresh
    }

    /// The full key prefix.
    pub closed spec fn prefix_spec(&self) -> Seq<char> {
        self.prefix@
    }

    /// The explicitly configured connection string, if any.
    pub closed spec fn connection_spec(&self) -> Option<Seq<char>> {
        match self.connection_string {
            Some(ref s) => Some(s@),
            None => None,
        }
    }

    /// Initialize an `AsyncRedisCacheBuilder`.
    pub fn new(prefix: &str, seconds: u64) -> (b: Self)
        ensures
            b.lifespan_spec() == seconds,
            !b.refresh_spec(),
            b.prefix_spec() == namespaced(prefix@),
            b.connection_spec() is None,
    {
        AsyncRedisCacheBuilder {
            seconds,
            refresh: false,
            prefix: generate_prefix(prefix),
            connection_string: None,
            _phantom_k: PhantomData,
            _phantom_v: PhantomData,
        }
    }

    /// Specify the cache TTL/lifespan in seconds.
    pub fn set_lifespan(self, seconds: u64) -> (b: Self)
        ensures
            b.lifespan_spec() == seconds,
            b.refresh_spec() == self.refresh_spec(),
            b.prefix_spec() == self.prefix_spec(),
            b.connection_spec() == self.connection_spec(),
    {
        let mut b = self;
        b.seconds = seconds;
        b
    }

    /// Specify whether cache hits refresh the TTL.
    pub fn set_refresh(self, refresh: bool) -> (b: Self)
        ensures
            b.refresh_spec() == refresh,
            b.lifespan_spec() == self.lifespan_spec(),
            b.prefix_spec() == self.prefix_spec(),
            b.connection_spec() == self.connection_spec(),
    {
        let mut b = self;
        b.refresh = refresh;
        b
    }

    /// Set the prefix for the keys.
    pub fn set_prefix(self, prefix: &str) -> (b: Self)
        ensures
            b.prefix_spec() == namespaced(prefix@),
            b.lifespan_spec() == self.lifespan_spec(),
            b.refresh_spec() == self.refresh_spec(),
            b.connection_spec() == self.connection_spec(),
    {
        let mut b = self;
        b.prefix = generate_prefix(prefix);
        b
    }

    /// Set the connection string for the remote store.
    pub fn set_connection_string(self, cs: &str) -> (b: Self)
        ensures
            b.connection_spec() == Some(cs@),
            b.lifespan_spec() == self.lifespan_spec(),
            b.refresh_spec() == self.refresh_spec(),
            b.prefix_spec() == self.prefix_spec(),
    {
        let mut b = self;
        b.connection_string = Some(String::from_str(cs));
        b
    }

    /// Resolve the connection string: the configured one, else whatever
    /// the environment variable supplied, handed in by the caller as
    /// its value or the cause of its absence.
    pub fn connection_string(&self, env_result: Result<String, String>) -> (r: Result<
        String,
        RedisCacheBuildError,
    >)
        ensures
            connection_resolution(self.connection_spec(), env_result, r),
    {
        match self.connection_string {
            Some(ref s) => Ok(s.clone()),
            None => {
                match env_result {
                    Ok(e) => Ok(e),
                    Err(cause) => Err(
                        RedisCacheBuildError::MissingConnectionString {
                            env_key: String::from_str("CACHED_REDIS_CONNECTION_STRING"),
                            cause,
                        },
                    ),
                }
            },
        }
    }

    /// Assemble the adapter. Connection establishment itself happens
    /// outside; this step fails exactly when no connection string can
    /// be resolved.
    pub fn build(self, env_result: Result<String, String>) -> (r: Result<
        AsyncRedisCache<K, V>,
        RedisCacheBuildError,
    >)
        ensures
            match r {
                Ok(c) => {
                    &&& c.lifespan_spec() == self.lifespan_spec()
                    &&& c.refresh_spec() == self.refresh_spec()
                    &&& c.prefix_spec() == self.prefix_spec()
                    &&& resolved_connection(self.connection_spec(), env_result)
                        == Some(c.connection_spec())
                },
                Err(e) => {
                    &&& resolved_connection(self.connection_spec(), env_result) is None
                    &&& e matches RedisCacheBuildError::MissingConnectionString {
                        env_key,
                        cause,
                    } && env_key@ == connection_env_key()
                },
            },
    {
        let cs = self.connection_string(env_result);
        match cs {
            Err(e) => Err(e),
            Ok(connection_string) => Ok(
                AsyncRedisCache {
                    seconds: self.seconds,
                    refresh: self.refresh,
                    prefix: self.prefix,
                    connection_string,
                    _phantom_k: PhantomData,
                    _phantom_v: PhantomData,
                },
            ),
        }
    }
}

/// Non-blocking cache store backed by a remote key-value store with
/// native per-key expiration. Values carry a TTL enforced by the store.
pub struct AsyncRedisCache<K, V> {
    seconds: u64,
    refresh: bool,
    prefix: String,
    connection_string: String,
    _phantom_k: PhantomData<K>,
    _phantom_v: PhantomData<V>,
}

impl<K: CacheKey, V: CacheValue> AsyncRedisCache<K, V> {
    /// The configured TTL in seconds.
    pub closed spec fn lifespan_spec(&self) -> u64 {
        self.seconds
    }

    /// Whether cache hits refresh the TTL.
    pub closed spec fn refresh_spec(&self) -> bool {
        self.refresh
    }

    /// The full key prefix.
    pub closed spec fn prefix_spec(&self) -> Seq<char> {
        self.prefix@
    }

    /// The connection string the adapter was built with.
    pub closed spec fn connection_spec(&self) -> Seq<char> {
        self.connection_string@
    }

    /// Initialize an `AsyncRedisCacheBuilder`.
    pub fn new(prefix: &str, seconds: u64) -> (b: AsyncRedisCacheBuilder<K, V>)
        ensures
            b.lifespan_spec() == seconds,
            !b.refresh_spec(),
            b.prefix_spec() == namespaced(prefix@),
            b.connection_spec() is None,
    {
        AsyncRedisCacheBuilder::new(prefix, seconds)
    }

    /// The namespaced key a key is stored under.
    pub fn generate_key(&self, key: &K) -> (r: String)
        ensures
            r@ == namespaced_key(self.prefix_spec(), key.key_spec()),
    {
        render_key(&self.prefix, key)
    }

    /// Return the connection string used.
    pub fn connection_string(&self) -> (r: String)
        ensures
            r@ == self.connection_spec(),
    {
        self.connection_string.clone()
    }

    /// Get a cached value. With refresh-on-read, the same batch re-arms
    /// the key's expiry; absence stays `None`, and a malformed stored
    /// text is an error, never absence.
    pub fn cache_get(&self, store: &mut StoreModel, key: &K) -> (r: Result<
        Option<V>,
        RedisCacheError,
    >)
        requires
            old(store).wf(),
            self.refresh_spec() ==> old(store).time() + self.lifespan_spec() <= u64::MAX,
        ensures
            final(store).wf(),
            final(store).time() == old(store).time(),
            final(store).contents() == apply_batch(
                old(store).contents(),
                old(store).time(),
                get_batch_model(
                    namespaced_key(self.prefix_spec(), key.key_spec()),
                    self.refresh_spec(),
                    self.lifespan_spec() as int,
                ),
            ),
            decode_outcome::<V>(
                r,
                fetch_resp(
                    old(store).contents(),
                    old(store).time(),
                    namespaced_key(self.prefix_spec(), key.key_spec()),
                ),
            ),
    {
        run_get::<K, V>(&self.prefix, self.refresh, self.seconds, store, key)
    }

    /// Set a cached value with the configured TTL and return the prior
    /// value, fetched in the same atomic batch.
    pub fn cache_set(&self, store: &mut StoreModel, key: K, value: V) -> (r: Result<
        Option<V>,
        RedisCacheError,
    >)
        requires
            old(store).wf(),
            old(store).time() + self.lifespan_spec() <= u64::MAX,
        ensures
            final(store).wf(),
            final(store).time() == old(store).time(),
            final(store).contents() == apply_batch(
                old(store).contents(),
                old(store).time(),
                set_batch_model(
                    namespaced_key(self.prefix_spec(), key.key_spec()),
                    envelope_of(value.encoding()),
                    self.lifespan_spec() as int,
                ),
            ),
            decode_outcome::<V>(
                r,
                fetch_resp(
                    old(store).contents(),
                    old(store).time(),
                    namespaced_key(self.prefix_spec(), key.key_spec()),
                ),
            ),
    {
        run_set::<K, V>(&self.prefix, self.seconds, store, &key, &value)
    }

    /// Remove a cached value and return it, fetched in the same atomic
    /// batch.
    pub fn cache_remove(&self, store: &mut StoreModel, key: &K) -> (r: Result<
        Option<V>,
        RedisCacheError,
    >)
        requires
            old(store).wf(),
        ensures
            final(store).wf(),
            final(store).time() == old(store).time(),
            final(store).contents() == apply_batch(
                old(store).contents(),
                old(store).time(),
                remove_batch_model(namespaced_key(self.prefix_spec(), key.key_spec())),
            ),
            decode_outcome::<V>(
                r,
                fetch_resp(
                    old(store).contents(),
                    old(store).time(),
                    namespaced_key(self.prefix_spec(), key.key_spec()),
                ),
            ),
    {
        run_remove::<K, V>(&self.prefix, store, key)
    }

    /// Return the lifespan of cached values (time to eviction); a TTL
    /// is mandatory, so this is always defined.
    pub fn cache_lifespan(&self) -> (r: Option<u64>)
        ensures
            r == Some(self.lifespan_spec()),
    {
        Some(self.seconds)
    }

    /// Set the lifespan of cached values and return the old one; only
    /// operations issued afterwards are affected.
    pub fn cache_set_lifespan(&mut self, seconds: u64) -> (r: Option<u64>)
        ensures
            r == Some(old(self).lifespan_spec()),
            final(self).lifespan_spec() == seconds,
            final(self).refresh_spec() == old(self).refresh_spec(),
            final(self).prefix_spec() == old(self).prefix_spec(),
            final(self).connection_spec() == old(self).connection_spec(),
    {
        let old_seconds = self.seconds;
        self.seconds = seconds;
        Some(old_seconds)
    }

    /// Set the refresh-on-read flag and return the old one.
    pub fn cache_set_refresh(&mut self, refresh: bool) -> (r: bool)
        ensures
            r == old(self).refresh_spec(),
            final(self).refresh_spec() == refresh,
            final(self).lifespan_spec() == old(self).lifespan_spec(),
            final(self).prefix_spec() == old(self).prefix_spec(),
            final(self).connection_spec() == old(self).connection_spec(),
    {
        let old_refresh = self.refresh;
        self.refresh = refresh;
        old_refresh
    }
}

} // verus!
