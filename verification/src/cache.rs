//! The cache adapter: configuration, key namespacing, and the three
//! operations, each one atomic batch against the store.
//!
//! Two adapters share one protocol. `RedisCache` is meant to run over a
//! pool of blocking connections, `AsyncRedisCache` over one shared
//! multiplexed session; connection handling itself stays outside the
//! library, which is why every operation takes the store it talks to as
//! an argument.

use core::marker::PhantomData;
use vstd::prelude::*;

use crate::codec::{
    envelope_decode, envelope_encode, envelope_of, stored_decoded, CacheKey, CacheValue,
};
use crate::command::{apply_batch, fetch_resp, Command, CommandModel};
use crate::store::StoreModel;

verus! {

/// The fixed namespace token every prefix is joined with.
pub open spec fn namespace_token() -> Seq<char> {
    "cached-redis-store"@
}

/// The full key prefix a caller-supplied prefix yields.
pub open spec fn namespaced(prefix: Seq<char>) -> Seq<char> {
    namespace_token() + ":"@ + prefix
}

/// The namespaced key: the adapter's prefix followed by the key's
/// canonical string form, with no further separator.
pub open spec fn namespaced_key(prefix: Seq<char>, key: Seq<char>) -> Seq<char> {
    prefix + key
}

/// The name of the environment variable that supplies the connection
/// string when none is configured.
pub open spec fn connection_env_key() -> Seq<char> {
    "CACHED_REDIS_CONNECTION_STRING"@
}

/// Join the fixed namespace token with a caller-supplied prefix.
pub fn generate_prefix(prefix: &str) -> (r: String)
    ensures
        r@ == namespaced(prefix@),
{
    let mut s = String::from_str("cached-redis-store");
    s.append(":");
    s.append(prefix);
    proof {
        assert(s@ =~= namespaced(prefix@));
    }
    s
}

/// A failure while assembling an adapter.
#[derive(Debug)]
pub enum RedisCacheBuildError {
    /// The initial handshake with the remote store failed.
    Connection,
    /// The connection pool could not be built.
    Pool,
    /// No connection string was configured and the environment variable
    /// named here did not supply one, for the cause given.
    MissingConnectionString { env_key: String, cause: String },
}

/// A failure during one cache operation.
#[derive(Debug)]
pub enum RedisCacheError {
    /// The remote store failed during a batch.
    RedisCacheError,
    /// No pooled connection could be checked out.
    PoolError,
    /// A stored text was not a well-formed envelope of a value; the raw
    /// text is kept for diagnosis. Distinct from absence.
    CacheDeserializationError { cached_value: String },
    /// A value could not be encoded; nothing was written.
    CacheSerializationError,
}

/// What decoding the prior value must yield: absence stays `None`, a
/// well-formed stored text yields its value, and anything else is a
/// deserialization error carrying the raw text.
pub open spec fn decode_outcome<V: CacheValue>(
    r: Result<Option<V>, RedisCacheError>,
    prior: Option<Seq<char>>,
) -> bool {
    match prior {
        None => r == Result::<Option<V>, RedisCacheError>::Ok(None),
        Some(data) => match stored_decoded::<V>(data) {
            Some(v) => r == Result::<Option<V>, RedisCacheError>::Ok(Some(v)),
            None => r matches Err(RedisCacheError::CacheDeserializationError { cached_value })
                && cached_value@ == data,
        },
    }
}

/// The batch one `get` sends: a fetch, and, with refresh-on-read, a
/// result-discarding re-arm of the key's expiry in the same round trip.
pub open spec fn get_batch_model(nk: Seq<char>, refresh: bool, ttl: int) -> Seq<CommandModel> {
    if refresh {
        seq![
            CommandModel::Fetch { key: nk },
            CommandModel::Refresh { key: nk, seconds: ttl },
        ]
    } else {
        seq![CommandModel::Fetch { key: nk }]
    }
}

/// The batch one `set` sends: fetch the prior value, then store the new
/// one with the configured expiry.
pub open spec fn set_batch_model(nk: Seq<char>, data: Seq<char>, ttl: int) -> Seq<CommandModel> {
    seq![
        CommandModel::Fetch { key: nk },
        CommandModel::Store { key: nk, data: data, seconds: ttl },
    ]
}

/// The batch one `remove` sends: fetch the prior value, then delete.
pub open spec fn remove_batch_model(nk: Seq<char>) -> Seq<CommandModel> {
    seq![CommandModel::Fetch { key: nk }, CommandModel::Delete { key: nk }]
}

/// Render the namespaced key of `key` under `prefix`.
pub(crate) fn render_key<K: CacheKey>(prefix: &String, key: &K) -> (r: String)
    ensures
        r@ == namespaced_key(prefix@, key.key_spec()),
{
    let mut s = prefix.clone();
    let tail = key.key_string();
    s.append(tail.as_str());
    s
}

/// Decode the prior value a batch answered.
fn decode_prior<V: CacheValue>(prior: Option<String>) -> (r: Result<Option<V>, RedisCacheError>)
    ensures
        decode_outcome::<V>(r, prior.deep_view()),
{
    match prior {
        None => Ok(None),
        Some(s) => {
            let inner = envelope_decode(s.as_str());
            match inner {
                None => Err(RedisCacheError::CacheDeserializationError { cached_value: s }),
                Some(t) => {
                    match V::decode(t) {
                        None => Err(
                            RedisCacheError::CacheDeserializationError { cached_value: s },
                        ),
                        Some(v) => Ok(Some(v)),
                    }
                },
            }
        },
    }
}

/// One `get` round trip against the store.
pub(crate) fn run_get<K: CacheKey, V: CacheValue>(
    prefix: &String,
    refresh: bool,
    seconds: u64,
    store: &mut StoreModel,
    key: &K,
) -> (r: Result<Option<V>, RedisCacheError>)
    requires
        old(store).wf(),
        refresh ==> old(store).time() + seconds <= u64::MAX,
    ensures
        final(store).wf(),
        final(store).time() == old(store).time(),
        final(store).contents() == apply_batch(
            old(store).contents(),
            old(store).time(),
            get_batch_model(namespaced_key(prefix@, key.key_spec()), refresh, seconds as int),
        ),
        decode_outcome::<V>(
            r,
            fetch_resp(
                old(store).contents(),
                old(store).time(),
                namespaced_key(prefix@, key.key_spec()),
            ),
        ),
{
    let nk = render_key(prefix, key);
    let ghost nkv = nk@;
    let mut batch: Vec<Command> = Vec::new();
    batch.push(Command::Fetch { key: nk.clone() });
    if refresh {
        batch.push(Command::Refresh { key: nk, seconds });
    }
    proof {
        assert(batch.deep_view() =~= get_batch_model(nkv, refresh, seconds as int));
    }
    let mut resps = store.run_batch(&batch);
    proof {
        assert(resps.deep_view().len() == resps@.len());
        assert(resps.deep_view()[0] == fetch_resp(old(store).contents(), old(store).time(), nkv));
    }
    let prior = resps.remove(0);
    decode_prior::<V>(prior)
}

/// One `set` round trip against the store.
pub(crate) fn run_set<K: CacheKey, V: CacheValue>(
    prefix: &String,
    seconds: u64,
    store: &mut StoreModel,
    key: &K,
    value: &V,
) -> (r: Result<Option<V>, RedisCacheError>)
    requires
        old(store).wf(),
        old(store).time() + seconds <= u64::MAX,
    ensures
        final(store).wf(),
        final(store).time() == old(store).time(),
        final(store).contents() == apply_batch(
            old(store).contents(),
            old(store).time(),
            set_batch_model(
                namespaced_key(prefix@, key.key_spec()),
                envelope_of(value.encoding()),
                seconds as int,
            ),
        ),
        decode_outcome::<V>(
            r,
            fetch_resp(
                old(store).contents(),
                old(store).time(),
                namespaced_key(prefix@, key.key_spec()),
            ),
        ),
{
    let nk = render_key(prefix, key);
    let ghost nkv = nk@;
    let encoded = value.encode();
    let data = envelope_encode(encoded.as_str());
    let mut batch: Vec<Command> = Vec::new();
    batch.push(Command::Fetch { key: nk.clone() });
    batch.push(Command::Store { key: nk, data, seconds });
    proof {
        assert(batch.deep_view() =~= set_batch_model(
            nkv,
            envelope_of(value.encoding()),
            seconds as int,
        ));
    }
    let mut resps = store.run_batch(&batch);
    proof {
        assert(resps.deep_view().len() == resps@.len());
        assert(resps.deep_view()[0] == fetch_resp(old(store).contents(), old(store).time(), nkv));
    }
    let prior = resps.remove(0);
    decode_prior::<V>(prior)
}

/// One `remove` round trip against the store.
pub(crate) fn run_remove<K: CacheKey, V: CacheValue>(
    prefix: &String,
    store: &mut StoreModel,
    key: &K,
) -> (r: Result<Option<V>, RedisCacheError>)
    requires
        old(store).wf(),
    ensures
        final(store).wf(),
        final(store).time() == old(store).time(),
        final(store).contents() == apply_batch(
            old(store).contents(),
            old(store).time(),
            remove_batch_model(namespaced_key(prefix@, key.key_spec())),
        ),
        decode_outcome::<V>(
            r,
            fetch_resp(
                old(store).contents(),
                old(store).time(),
                namespaced_key(prefix@, key.key_spec()),
            ),
        ),
{
    let nk = render_key(prefix, key);
    let ghost nkv = nk@;
    let mut batch: Vec<Command> = Vec::new();
    batch.push(Command::Fetch { key: nk.clone() });
    batch.push(Command::Delete { key: nk });
    proof {
        assert(batch.deep_view() =~= remove_batch_model(nkv));
    }
    let mut resps = store.run_batch(&batch);
    proof {
        assert(resps.deep_view().len() == resps@.len());
        assert(resps.deep_view()[0] == fetch_resp(old(store).contents(), old(store).time(), nkv));
    }
    let prior = resps.remove(0);
    decode_prior::<V>(prior)
}

/// Configure and assemble a `RedisCache`.
pub struct RedisCacheBuilder<K, V> {
    seconds: u64,
    refresh: bool,
    prefix: String,
    connection_string: Option<String>,
    _phantom_k: PhantomData<K>,
    _phantom_v: PhantomData<V>,
}

impl<K: CacheKey, V: CacheValue> RedisCacheBuilder<K, V> {
    /// The configured TTL in seconds.
    pub closed spec fn lifespan_spec(&self) -> u64 {
        self.seconds
    }

    /// Whether cache hits refresh the TTL.
    pub closed spec fn refresh_spec(&self) -> bool {
        self.refresh
    }

    /// The full key prefix.
    pub closed spec fn prefix_spec(&self) -> Seq<char> {
        self.prefix@
    }

    /// The explicitly configured connection string, if any.
    pub closed spec fn connection_spec(&self) -> Option<Seq<char>> {
        match self.connection_string {
            Some(ref s) => Some(s@),
            None => None,
        }
    }

    /// Initialize a `RedisCacheBuilder`.
    pub fn new(prefix: &str, seconds: u64) -> (b: Self)
        ensures
            b.lifespan_spec() == seconds,
            !b.refresh_spec(),
            b.prefix_spec() == namespaced(prefix@),
            b.connection_spec() is None,
    {
        RedisCacheBuilder {
            seconds,
            refresh: false,
            prefix: generate_prefix(prefix),
            connection_string: None,
            _phantom_k: PhantomData,
            _phantom_v: PhantomData,
        }
    }

    /// Specify the cache TTL/lifespan in seconds.
    pub fn set_lifespan(self, seconds: u64) -> (b: Self)
        ensures
            b.lifespan_spec() == seconds,
            b.refresh_spec() == self.refresh_spec(),
            b.prefix_spec() == self.prefix_spec(),
            b.connection_spec() == self.connection_spec(),
    {
        let mut b = self;
        b.seconds = seconds;
        b
    }

    /// Specify whether cache hits refresh the TTL.
    pub fn set_refresh(self, refresh: bool) -> (b: Self)
        ensures
            b.refresh_spec() == refresh,
            b.lifespan_spec() == self.lifespan_spec(),
            b.prefix_spec() == self.prefix_spec(),
            b.connection_spec() == self.connection_spec(),
    {
        let mut b = self;
        b.refresh = refresh;
        b
    }

    /// Set the prefix for the keys.
    pub fn set_prefix(self, prefix: &str) -> (b: Self)
        ensures
            b.prefix_spec() == namespaced(prefix@),
            b.lifespan_spec() == self.lifespan_spec(),
            b.refresh_spec() == self.refresh_spec(),
            b.connection_spec() == self.connection_spec(),
    {
        let mut b = self;
        b.prefix = generate_prefix(prefix);
        b
    }

    /// Set the connection string for the remote store.
    pub fn set_connection_string(self, cs: &str) -> (b: Self)
        ensures
            b.connection_spec() == Some(cs@),
            b.lifespan_spec() == self.lifespan_spec(),
            b.refresh_spec() == self.refresh_spec(),
            b.prefix_spec() == self.prefix_spec(),
    {
        let mut b = self;
        b.connection_string = Some(String::from_str(cs));
        b
    }

    /// Resolve the connection string: the configured one, else whatever
    /// the environment variable supplied, handed in by the caller as
    /// its value or the cause of its absence.
    pub fn connection_string(&self, env_result: Result<String, String>) -> (r: Result<
        String,
        RedisCacheBuildError,
    >)
        ensures
            connection_resolution(self.connection_spec(), env_result, r),
    {
        match self.connection_string {
            Some(ref s) => Ok(s.clone()),
            None => {
                match env_result {
                    Ok(e) => Ok(e),
                    Err(cause) => Err(
                        RedisCacheBuildError::MissingConnectionString {
                            env_key: String::from_str("CACHED_REDIS_CONNECTION_STRING"),
                            cause,
                        },
                    ),
                }
            },
        }
    }

    /// Assemble the adapter. Connection establishment itself happens
    /// outside; this step fails exactly when no connection string can
    /// be resolved.
    pub fn build(self, env_result: Result<String, String>) -> (r: Result<
        RedisCache<K, V>,
        RedisCacheBuildError,
    >)
        ensures
            match r {
                Ok(c) => {
                    &&& c.lifespan_spec() == self.lifespan_spec()
                    &&& c.refresh_spec() == self.refresh_spec()
                    &&& c.prefix_spec() == self.prefix_spec()
                    &&& resolved_connection(self.connection_spec(), env_result)
                        == Some(c.connection_spec())
                },
                Err(e) => {
                    &&& resolved_connection(self.connection_spec(), env_result) is None
                    &&& e matches RedisCacheBuildError::MissingConnectionString {
                        env_key,
                        cause,
                    } && env_key@ == connection_env_key()
                },
            },
    {
        let cs = self.connection_string(env_result);
        match cs {
            Err(e) => Err(e),
            Ok(connection_string) => Ok(
                RedisCache {
                    seconds: self.seconds,
                    refresh: self.refresh,
                    prefix: self.prefix,
                    connection_string,
                    _phantom_k: PhantomData,
                    _phantom_v: PhantomData,
                },
            ),
        }
    }
}

/// The connection string a configuration resolves to, if any.
pub open spec fn resolved_connection(
    configured: Option<Seq<char>>,
    env_result: Result<String, String>,
) -> Option<Seq<char>> {
    match configured {
        Some(s) => Some(s),
        None => match env_result {
            Ok(e) => Some(e@),
            Err(_) => None,
        },
    }
}

/// How `connection_string` answers: the resolved string, or an error
/// naming the environment variable and the cause.
pub open spec fn connection_resolution(
    configured: Option<Seq<char>>,
    env_result: Result<String, String>,
    r: Result<String, RedisCacheBuildError>,
) -> bool {
    match resolved_connection(configured, env_result) {
        Some(s) => r matches Ok(cs) && cs@ == s,
        None => r matches Err(RedisCacheBuildError::MissingConnectionString { env_key, cause })
            && env_key@ == connection_env_key() && (env_result matches Err(c) && cause@ == c@),
    }
}

/// Cache store backed by a remote key-value store with native per-key
/// expiration. Values carry a TTL enforced by the store itself.
pub struct RedisCache<K, V> {
    seconds: u64,
    refresh: bool,
    prefix: String,
    connection_string: String,
    _phantom_k: PhantomData<K>,
    _phantom_v: PhantomData<V>,
}

impl<K: CacheKey, V: CacheValue> RedisCache<K, V> {
    /// The configured TTL in seconds.
    pub closed spec fn lifespan_spec(&self) -> u64 {
        self.seconds
    }

    /// Whether cache hits refresh the TTL.
    pub closed spec fn refresh_spec(&self) -> bool {
        self.refresh
    }

    /// The full key prefix.
    pub closed spec fn prefix_spec(&self) -> Seq<char> {
        self.prefix@
    }

    /// The connection string the adapter was built with.
    pub closed spec fn connection_spec(&self) -> Seq<char> {
        self.connection_string@
    }

    /// Initialize a `RedisCacheBuilder`.
    pub fn new(prefix: &str, seconds: u64) -> (b: RedisCacheBuilder<K, V>)
        ensures
            b.lifespan_spec() == seconds,
            !b.refresh_spec(),
            b.prefix_spec() == namespaced(prefix@),
            b.connection_spec() is None,
    {
        RedisCacheBuilder::new(prefix, seconds)
    }

    /// The namespaced key a key is stored under.
    pub fn generate_key(&self, key: &K) -> (r: String)
        ensures
            r@ == namespaced_key(self.prefix_spec(), key.key_spec()),
    {
        render_key(&self.prefix, key)
    }

    /// Return the connection string used.
    pub fn connection_string(&self) -> (r: String)
        ensures
            r@ == self.connection_spec(),
    {
        self.connection_string.clone()
    }

    /// Get a cached value. With refresh-on-read, the same batch re-arms
    /// the key's expiry; absence stays `None`, and a malformed stored
    /// text is an error, never absence.
    pub fn cache_get(&self, store: &mut StoreModel, key: &K) -> (r: Result<
        Option<V>,
        RedisCacheError,
    >)
        requires
            old(store).wf(),
            self.refresh_spec() ==> old(store).time() + self.lifespan_spec() <= u64::MAX,
        ensures
            final(store).wf(),
            final(store).time() == old(store).time(),
            final(store).contents() == apply_batch(
                old(store).contents(),
                old(store).time(),
                get_batch_model(
                    namespaced_key(self.prefix_spec(), key.key_spec()),
                    self.refresh_spec(),
                    self.lifespan_spec() as int,
                ),
            ),
            decode_outcome::<V>(
                r,
                fetch_resp(
                    old(store).contents(),
                    old(store).time(),
                    namespaced_key(self.prefix_spec(), key.key_spec()),
                ),
            ),
    {
        run_get::<K, V>(&self.prefix, self.refresh, self.seconds, store, key)
    }

    /// Set a cached value with the configured TTL and return the prior
    /// value, fetched in the same atomic batch.
    pub fn cache_set(&self, store: &mut StoreModel, key: K, value: V) -> (r: Result<
        Option<V>,
        RedisCacheError,
    >)
        requires
            old(store).wf(),
            old(store).time() + self.lifespan_spec() <= u64::MAX,
        ensures
            final(store).wf(),
            final(store).time() == old(store).time(),
            final(store).contents() == apply_batch(
                old(store).contents(),
                old(store).time(),
                set_batch_model(
                    namespaced_key(self.prefix_spec(), key.key_spec()),
                    envelope_of(value.encoding()),
                    self.lifespan_spec() as int,
                ),
            ),
            decode_outcome::<V>(
                r,
                fetch_resp(
                    old(store).contents(),
                    old(store).time(),
                    namespaced_key(self.prefix_spec(), key.key_spec()),
                ),
            ),
    {
        run_set::<K, V>(&self.prefix, self.seconds, store, &key, &value)
    }

    /// Remove a cached value and return it, fetched in the same atomic
    /// batch.
    pub fn cache_remove(&self, store: &mut StoreModel, key: &K) -> (r: Result<
        Option<V>,
        RedisCacheError,
    >)
        requires
            old(store).wf(),
        ensures
            final(store).wf(),
            final(store).time() == old(store).time(),
            final(store).contents() == apply_batch(
                old(store).contents(),
                old(store).time(),
                remove_batch_model(namespaced_key(self.prefix_spec(), key.key_spec())),
            ),
            decode_outcome::<V>(
                r,
                fetch_resp(
                    old(store).contents(),
                    old(store).time(),
                    namespaced_key(self.prefix_spec(), key.key_spec()),
                ),
            ),
    {
        run_remove::<K, V>(&self.prefix, store, key)
    }

    /// Return the lifespan of cached values (time to eviction); a TTL
    /// is mandatory, so this is always defined.
    pub fn cache_lifespan(&self) -> (r: Option<u64>)
        ensures
            r == Some(self.lifespan_spec()),
    {
        Some(self.seconds)
    }

    /// Set the lifespan of cached values and return the old one; only
    /// operations issued afterwards are affected.
    pub fn cache_set_lifespan(&mut self, seconds: u64) -> (r: Option<u64>)
        ensures
            r == Some(old(self).lifespan_spec()),
            final(self).lifespan_spec() == seconds,
            final(self).refresh_spec() == old(self).refresh_spec(),
            final(self).prefix_spec() == old(self).prefix_spec(),
            final(self).connection_spec() == old(self).connection_spec(),
    {
        let old_seconds = self.seconds;
        self.seconds = seconds;
        Some(old_seconds)
    }

    /// Set the refresh-on-read flag and return the old one.
    pub fn cache_set_refresh(&mut self, refresh: bool) -> (r: bool)
        ensures
            r == old(self).refresh_spec(),
            final(self).refresh_spec() == refresh,
            final(self).lifespan_spec() == old(self).lifespan_spec(),
            final(self).prefix_spec() == old(self).prefix_spec(),
            final(self).connection_spec() == old(self).connection_spec(),
    {
        let old_refresh = self.refresh;
        self.refresh = refresh;
        old_refresh
    }
}

} // verus!
