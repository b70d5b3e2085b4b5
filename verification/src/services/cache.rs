//! The response cache: answers stored under the fingerprint of the
//! conversation that produced them, bounded in size and in age.
use crate::config::CacheConfig;
use crate::models::{transcript, CacheCounts, ChatMessage, MessageView};
use sha2::Digest;
use vstd::prelude::*;
use vstd::string::StringExecFns;

verus! {

/// The store of `moka`, opaque to the verifier.
#[verifier::external_type_specification]
#[verifier::external_body]
#[verifier::reject_recursive_types(K)]
#[verifier::reject_recursive_types(V)]
#[verifier::reject_recursive_types(S)]
pub struct ExStore<K, V, S>(moka::sync::Cache<K, V, S>);

/// The entries written to a store: for each key the value of the latest
/// insertion. The store itself may have dropped any of them, by age or for
/// want of room. This is what the store's one owner has written:
/// `CacheService` hands out no second handle to its store.
pub uninterp spec fn store_written(
    store: moka::sync::Cache<String, String>,
) -> Map<Seq<char>, Seq<char>>;

/// The limits that a store was made with: the most that it holds, and the
/// seconds for which it keeps an entry.
pub uninterp spec fn store_limits(store: moka::sync::Cache<String, String>) -> (u64, u64);

/// The contents of a store to which nothing has been written.
pub open spec fn no_entries() -> Map<Seq<char>, Seq<char>> {
    Map::empty()
}

/// The SHA-256 digest of a text's UTF-8 bytes, written as 64 lower-case
/// hexadecimal digits.
pub uninterp spec fn sha256_hex(text: Seq<char>) -> Seq<char>;

/// Whether a character is a decimal digit or one of the letters `a` to `f`.
pub open spec fn is_hex_digit(c: char) -> bool {
    let u = c as u32;
    0x30 <= u <= 0x39 || 0x61 <= u <= 0x66
}

/// Whether a text has the form of a digest: 64 lower-case hexadecimal
/// digits.
pub open spec fn is_digest(text: Seq<char>) -> bool {
    text.len() == 64 && forall|i: int| 0 <= i < text.len() ==> is_hex_digit(#[trigger] text[i])
}

/// The longest time to live, in seconds, that a store accepts: a thousand
/// years of 365 days.
pub const MAX_TTL_SECONDS: u64 = 31_536_000_000;

/// The largest ceiling in megabytes whose size in bytes fits in 64 bits.
pub const MAX_SIZE_MB: u64 = 17_592_186_044_415;

/// Calls `sha2::Sha256::digest` and formats the digest in lower-case
/// hexadecimal. Trusted: the result is the named digest of the input, and it
/// has the form of a digest: two lower-case hexadecimal digits for each of
/// the 32 bytes.
#[verifier::external_body]
fn digest_hex(input: &str) -> (digest: String)
    ensures
        digest@ == sha256_hex(input@),
        is_digest(digest@),
{
    format!("{:x}", sha2::Sha256::digest(input.as_bytes()))
}

/// Builds a store with `moka::sync::Cache::builder`, its `max_capacity` and
/// `time_to_live`, and `build`. Trusted: a new store holds nothing, and its
/// limits are the two that were given. `build` panics on a time to live of
/// more than a thousand years, which the precondition leaves out.
#[verifier::external_body]
fn store_build(max_capacity: u64, ttl_seconds: u64) -> (store: moka::sync::Cache<String, String>)
    requires
        ttl_seconds <= MAX_TTL_SECONDS,
    ensures
        store_written(store) == no_entries(),
        store_limits(store) == (max_capacity, ttl_seconds),
{
    moka::sync::Cache::builder().max_capacity(max_capacity).time_to_live(
        std::time::Duration::from_secs(ttl_seconds),
    ).build()
}

/// Calls `moka::sync::Cache::get`. Trusted: a value that comes back is the
/// one written last under that key. Whether one comes back depends on the
/// entry's age and on the store's eviction, so nothing is promised of that.
#[verifier::external_body]
fn store_get(store: &moka::sync::Cache<String, String>, key: &str) -> (found: Option<String>)
    ensures
        found matches Some(value) ==> store_written(*store).contains_key(key@) && store_written(
            *store,
        )[key@] == value@,
{
    store.get(key)
}

/// Calls `moka::sync::Cache::insert`. Trusted: the pair is written, in place
/// of an earlier value under the same key, and the store keeps its limits.
#[verifier::external_body]
fn store_insert(store: &mut moka::sync::Cache<String, String>, key: String, value: String)
    ensures
        store_written(*final(store)) == store_written(*old(store)).insert(key@, value@),
        store_limits(*final(store)) == store_limits(*old(store)),
{
    store.insert(key, value)
}

/// Calls `moka::sync::Cache::entry_count`, which is an estimate: nothing is
/// claimed of the number.
#[verifier::external_body]
fn store_entry_count(store: &moka::sync::Cache<String, String>) -> (count: u64) {
    store.entry_count()
}

/// The text of one message as it enters the fingerprint: role, a colon,
/// content.
pub open spec fn message_text(message: MessageView) -> Seq<char> {
    message.role + seq![':'] + message.content
}

/// The texts of the messages, joined by two vertical bars.
pub open spec fn joined_text(messages: Seq<MessageView>) -> Seq<char>
    decreases messages.len(),
{
    if messages.len() == 0 {
        Seq::empty()
    } else if messages.len() == 1 {
        message_text(messages[0])
    } else {
        joined_text(messages.drop_last()) + seq!['|', '|'] + message_text(messages.last())
    }
}

/// The text that is hashed: the model's name, two colons, the joined
/// messages.
pub open spec fn fingerprint_input(model: Seq<char>, messages: Seq<MessageView>) -> Seq<char> {
    model + seq![':', ':'] + joined_text(messages)
}

/// The fingerprint of a model and a transcript.
pub open spec fn fingerprint(model: Seq<char>, messages: Seq<MessageView>) -> Seq<char> {
    sha256_hex(fingerprint_input(model, messages))
}

/// Hit and miss counters of a cache.
#[derive(Debug, Clone, Copy)]
pub struct CacheMetrics {
    pub hits: u64,
    pub misses: u64,
}

impl CacheMetrics {
    /// The counters after one more lookup.
    pub open spec fn counted(self, hit: bool) -> CacheMetrics {
        if hit {
            CacheMetrics { hits: (self.hits + 1) as u64, misses: self.misses }
        } else {
            CacheMetrics { hits: self.hits, misses: (self.misses + 1) as u64 }
        }
    }

    /// Whether the counter that a lookup raises can count one more.
    pub open spec fn has_room(self, hit: bool) -> bool {
        if hit {
            self.hits < u64::MAX
        } else {
            self.misses < u64::MAX
        }
    }

    /// Counts one lookup as a hit or as a miss.
    pub fn record(&mut self, hit: bool)
        requires
            old(self).has_room(hit),
        ensures
            *final(self) == old(self).counted(hit),
    {
        if hit {
            self.hits = self.hits + 1;
        } else {
            self.misses = self.misses + 1;
        }
    }
}

/// The limits that a cache gives to its store: the most that the store
/// holds, in bytes, and the seconds for which it keeps an entry.
pub struct StoreLimits {
    capacity: u64,
    ttl_seconds: u64,
}

impl StoreLimits {
    /// A store can be built with the limits.
    #[verifier::type_invariant]
    spec fn accepted(self) -> bool {
        self.ttl_seconds <= MAX_TTL_SECONDS
    }
}

/// A response cache over one store.
pub struct CacheService {
    store: moka::sync::Cache<String, String>,
    stats: CacheMetrics,
    config: CacheConfig,
    limits: StoreLimits,
}

impl CacheService {
    /// The entries written since the cache was made or last cleared, by key.
    pub closed spec fn written(&self) -> Map<Seq<char>, Seq<char>> {
        store_written(self.store)
    }

    /// The hit and miss counters.
    pub closed spec fn metrics(&self) -> CacheMetrics {
        self.stats
    }

    /// Whether the cache is switched on.
    pub closed spec fn enabled(&self) -> bool {
        self.config.enabled
    }

    /// The configured ceiling in megabytes.
    pub closed spec fn max_size_mb(&self) -> u64 {
        self.config.max_size_mb
    }

    /// The seconds for which the cache keeps an entry.
    pub closed spec fn ttl_seconds(&self) -> u64 {
        self.limits.ttl_seconds
    }

    /// The most that the cache holds, in bytes.
    pub closed spec fn capacity(&self) -> u64 {
        self.limits.capacity
    }

    /// Whether the store was made with the limits of the cache.
    pub closed spec fn store_fits(&self) -> bool {
        store_limits(self.store) == (self.limits.capacity, self.limits.ttl_seconds)
    }

    /// Whether the outcome `found` of a lookup can be counted.
    pub open spec fn can_settle(&self, found: Option<String>) -> bool {
        self.metrics().has_room(found is Some)
    }

    /// Whether a lookup of `key` can be counted, whatever it gives: a
    /// disabled cache counts none; an enabled one needs room for a miss, and
    /// room for a hit where something is written under the key.
    pub open spec fn can_look_up(&self, key: Seq<char>) -> bool {
        self.enabled() ==> self.metrics().has_room(false) && (self.written().contains_key(key)
            ==> self.metrics().has_room(true))
    }

    /// Whether two states of a cache have the same settings and limits.
    pub open spec fn same_limits(&self, other: &CacheService) -> bool {
        &&& other.enabled() == self.enabled()
        &&& other.max_size_mb() == self.max_size_mb()
        &&& other.ttl_seconds() == self.ttl_seconds()
        &&& other.capacity() == self.capacity()
    }

    /// Whether two states of a cache have the same settings and limits, and
    /// a store that fits them alike.
    pub open spec fn same_settings(&self, other: &CacheService) -> bool {
        self.same_limits(other) && other.store_fits() == self.store_fits()
    }

    /// Whether two states of a cache show no difference.
    pub open spec fn same_as(&self, other: &CacheService) -> bool {
        &&& other.written() == self.written()
        &&& other.metrics() == self.metrics()
        &&& other.same_settings(self)
    }

    /// What a lookup of `key` may give on a cache in state `self`, and the
    /// state `after` it: a disabled cache gives nothing and counts nothing;
    /// an enabled one gives nothing, or the value written last under the key,
    /// and counts the lookup.
    pub open spec fn looked_up(&self, after: &CacheService, key: Seq<char>, found: Option<Seq<char>>) -> bool {
        &&& after.written() == self.written()
        &&& after.same_settings(self)
        &&& !self.enabled() ==> found is None && after.metrics() == self.metrics()
        &&& self.enabled() ==> after.metrics() == self.metrics().counted(found is Some)
        &&& found matches Some(value) ==> self.written().contains_key(key) && self.written()[key]
            == value
    }

    /// The state `after` storing `value` under `key` on a cache in state
    /// `self`: a disabled cache is unchanged; an enabled one has the pair
    /// written and its counters unchanged.
    pub open spec fn stored(&self, after: &CacheService, key: Seq<char>, value: Seq<char>) -> bool {
        &&& after.same_settings(self)
        &&& after.metrics() == self.metrics()
        &&& after.written() == if self.enabled() {
            self.written().insert(key, value)
        } else {
            self.written()
        }
    }

    /// A cache with no entries and both counters at zero, over a store that
    /// holds up to the configured number of megabytes and keeps an entry for
    /// the configured time.
    pub fn new(config: CacheConfig) -> (cache: CacheService)
        requires
            config.ttl_seconds <= MAX_TTL_SECONDS,
            config.max_size_mb <= MAX_SIZE_MB,
        ensures
            cache.written() == no_entries(),
            cache.metrics() == (CacheMetrics { hits: 0, misses: 0 }),
            cache.enabled() == config.enabled,
            cache.max_size_mb() == config.max_size_mb,
            cache.capacity() == config.max_size_mb * 1024 * 1024,
            cache.ttl_seconds() == config.ttl_seconds,
            cache.store_fits(),
    {
        let max_capacity: u64 = config.max_size_mb * 1024 * 1024;
        let limits = StoreLimits { capacity: max_capacity, ttl_seconds: config.ttl_seconds };
        let store = store_build(limits.capacity, limits.ttl_seconds);
        CacheService { store, stats: CacheMetrics { hits: 0, misses: 0 }, config, limits }
    }

    /// The cache key of a conversation with a model: the fingerprint of the
    /// model's name and the messages in their order.
    pub fn generate_key(messages: &[ChatMessage], model: &str) -> (key: String)
        ensures
            key@ == fingerprint(model@, transcript(messages@)),
            is_digest(key@),
    {
        let mut input = String::from_str(model);
        input.append("::");
        proof {
            reveal_strlit("::");
            reveal_strlit("||");
            reveal_strlit(":");
            assert("::"@ =~= seq![':', ':']);
            assert("||"@ =~= seq!['|', '|']);
            assert(":"@ =~= seq![':']);
        }
        let ghost head = input@;
        let mut i: usize = 0;
        while i < messages.len()
            invariant
                i <= messages.len(),
                head == model@ + seq![':', ':'],
                input@ == head + joined_text(transcript(messages@).take(i as int)),
                "||"@ == seq!['|', '|'],
                ":"@ == seq![':'],
            decreases messages.len() - i,
        {
            let ghost seen = transcript(messages@).take(i as int);
            let ghost more = transcript(messages@).take(i + 1);
            proof {
                assert(more.drop_last() =~= seen);
                assert(more.last() == messages@[i as int]@);
            }
            if i > 0 {
                input.append("||");
            }
            input.append(messages[i].role.as_str());
            input.append(":");
            input.append(messages[i].content.as_str());
            proof {
                if i == 0 {
                    assert(seen.len() == 0);
                    assert(more[0] == more.last());
                    assert(input@ =~= head + joined_text(more));
                } else {
                    assert(input@ =~= head + joined_text(more));
                }
            }
            i += 1;
        }
        proof {
            assert(transcript(messages@).take(i as int) =~= transcript(messages@));
        }
        digest_hex(input.as_str())
    }

    /// Counts a lookup whose outcome is `found` and hands the outcome on.
    pub fn settle_lookup(&mut self, found: Option<String>) -> (out: Option<String>)
        requires
            old(self).can_settle(found),
        ensures
            out == found,
            final(self).written() == old(self).written(),
            final(self).same_settings(old(self)),
            final(self).metrics() == old(self).metrics().counted(found is Some),
    {
        self.stats.record(found.is_some());
        found
    }

    /// Looks a key up. A disabled cache answers `None` and counts nothing.
    /// An enabled cache counts a hit and returns the value where the store
    /// still holds the entry, and counts a miss where it does not.
    pub fn get(&mut self, key: &str) -> (found: Option<String>)
        requires
            old(self).can_look_up(key@),
        ensures
            old(self).looked_up(final(self), key@, crate::models::opt_text(found)),
    {
        if !self.config.enabled {
            return None;
        }
        let found = store_get(&self.store, key);
        self.settle_lookup(found)
    }

    /// Stores a value under a key, in place of an earlier one. A disabled
    /// cache is left as it is.
    pub fn set(&mut self, key: String, value: String)
        ensures
            old(self).stored(final(self), key@, value@),
    {
        if !self.config.enabled {
            return;
        }
        store_insert(&mut self.store, key, value);
    }

    /// Answers whether a key is present from the outcome `found` of its
    /// lookup: on an enabled cache, whether something was found.
    pub fn settle_contains(&self, found: Option<String>) -> (present: bool)
        ensures
            present == (self.enabled() && found is Some),
    {
        self.config.enabled && found.is_some()
    }

    /// Whether the store still holds an entry under the key. A disabled cache
    /// answers `false`. The counters are not touched.
    pub fn contains(&self, key: &str) -> (present: bool)
        ensures
            !self.enabled() ==> !present,
            present ==> self.written().contains_key(key@),
    {
        if !self.config.enabled {
            return false;
        }
        self.settle_contains(store_get(&self.store, key))
    }

    /// Drops every entry and sets both counters to zero: a new store with
    /// the limits of the cache takes the place of the old one.
    pub fn clear(&mut self)
        ensures
            final(self).written() == no_entries(),
            final(self).metrics() == (CacheMetrics { hits: 0, misses: 0 }),
            final(self).same_limits(old(self)),
            final(self).store_fits(),
    {
        proof {
            use_type_invariant(&self.limits);
        }
        self.store = store_build(self.limits.capacity, self.limits.ttl_seconds);
        self.stats = CacheMetrics { hits: 0, misses: 0 };
    }

    /// The counters from which the cache's rates are derived, with the
    /// store's estimate of its number of entries.
    pub fn stats(&self) -> (counts: CacheCounts)
        ensures
            counts.hits == self.metrics().hits,
            counts.misses == self.metrics().misses,
            counts.max_size_mb == self.max_size_mb(),
    {
        CacheCounts {
            total_entries: store_entry_count(&self.store),
            hits: self.stats.hits,
            misses: self.stats.misses,
            max_size_mb: self.config.max_size_mb,
        }
    }
}

/// A value written and looked up again is either gone or the value written:
/// whatever a lookup on an enabled cache returns right after `value` was
/// stored under `key`, it is nothing or `value`, never another text.
pub proof fn lemma_round_trip(
    before: &CacheService,
    written: &CacheService,
    after: &CacheService,
    key: Seq<char>,
    value: Seq<char>,
    found: Option<Seq<char>>,
)
    requires
        before.enabled(),
        before.stored(written, key, value),
        written.looked_up(after, key, found),
    ensures
        found is None || found == Some(value),
        after.written().contains_key(key),
        after.written()[key] == value,
{
}

/// A disabled cache is never altered: storing leaves it as it was, and a
/// lookup finds nothing and counts nothing.
pub proof fn lemma_disabled_is_inert(
    before: &CacheService,
    after: &CacheService,
    key: Seq<char>,
    value: Seq<char>,
    found: Option<Seq<char>>,
)
    requires
        !before.enabled(),
    ensures
        before.stored(after, key, value) ==> before.same_as(after),
        before.looked_up(after, key, found) ==> found is None && before.same_as(after),
{
}

/// A key under which nothing is written is never found.
pub proof fn lemma_unwritten_key_misses(
    before: &CacheService,
    after: &CacheService,
    key: Seq<char>,
    found: Option<Seq<char>>,
)
    requires
        !before.written().contains_key(key),
        before.looked_up(after, key, found),
    ensures
        found is None,
{
}

/// After a cache was cleared, no key is found.
pub proof fn lemma_cleared_misses(
    before: &CacheService,
    after: &CacheService,
    key: Seq<char>,
    found: Option<Seq<char>>,
)
    requires
        before.written() == no_entries(),
        before.looked_up(after, key, found),
    ensures
        found is None,
{
}

/// Equal models and equal transcripts have equal fingerprints.
pub proof fn lemma_fingerprint_is_stable(
    model_a: Seq<char>,
    messages_a: Seq<MessageView>,
    model_b: Seq<char>,
    messages_b: Seq<MessageView>,
)
    requires
        model_a == model_b,
        messages_a == messages_b,
    ensures
        fingerprint(model_a, messages_a) == fingerprint(model_b, messages_b),
{
}

/// Whether a text holds no occurrence of a character.
pub open spec fn free_of(text: Seq<char>, c: char) -> bool {
    forall|i: int| 0 <= i < text.len() ==> text[i] != c
}

/// Whether a message keeps clear of the characters that separate the parts
/// of the hashed text: no colon or bar in its role, no bar in its content.
pub open spec fn plain_message(message: MessageView) -> bool {
    free_of(message.role, ':') && free_of(message.role, '|') && free_of(message.content, '|')
}

/// Whether every message of a transcript is plain.
pub open spec fn plain_transcript(messages: Seq<MessageView>) -> bool {
    forall|i: int| 0 <= i < messages.len() ==> plain_message(#[trigger] messages[i])
}

/// Two texts that end in a separator-free tail each, behind the same
/// separator, are equal only where heads and tails are.
proof fn lemma_split_at_last(
    head_a: Seq<char>,
    tail_a: Seq<char>,
    head_b: Seq<char>,
    tail_b: Seq<char>,
    bar: Seq<char>,
    c: char,
)
    requires
        bar.len() > 0,
        bar.last() == c,
        free_of(tail_a, c),
        free_of(tail_b, c),
        head_a + bar + tail_a == head_b + bar + tail_b,
    ensures
        head_a == head_b,
        tail_a == tail_b,
{
    let a = head_a + bar + tail_a;
    let b = head_b + bar + tail_b;
    let n = a.len() as int;
    assert(a.len() == head_a.len() + bar.len() + tail_a.len());
    assert(b.len() == head_b.len() + bar.len() + tail_b.len());
    if tail_a.len() < tail_b.len() {
        let at = n - tail_a.len() - 1;
        assert(a[at] == bar[bar.len() - 1]);
        assert(b[at] == tail_b[at - head_b.len() - bar.len()]);
        assert(false);
    }
    if tail_b.len() < tail_a.len() {
        let at = n - tail_b.len() - 1;
        assert(b[at] == bar[bar.len() - 1]);
        assert(a[at] == tail_a[at - head_a.len() - bar.len()]);
        assert(false);
    }
    assert forall|i: int| 0 <= i < tail_a.len() implies tail_a[i] == tail_b[i] by {
        assert(a[head_a.len() + bar.len() + i] == tail_a[i]);
        assert(b[head_b.len() + bar.len() + i] == tail_b[i]);
    }
    assert(tail_a =~= tail_b);
    assert forall|i: int| 0 <= i < head_a.len() implies head_a[i] == head_b[i] by {
        assert(a[i] == head_a[i]);
        assert(b[i] == head_b[i]);
    }
    assert(head_a =~= head_b);
}

/// Two texts that start with a separator-free head each, in front of the
/// same separator, are equal only where heads and tails are.
proof fn lemma_split_at_first(
    head_a: Seq<char>,
    tail_a: Seq<char>,
    head_b: Seq<char>,
    tail_b: Seq<char>,
    bar: Seq<char>,
    c: char,
)
    requires
        bar.len() > 0,
        bar[0] == c,
        free_of(head_a, c),
        free_of(head_b, c),
        head_a + bar + tail_a == head_b + bar + tail_b,
    ensures
        head_a == head_b,
        tail_a == tail_b,
{
    let a = head_a + bar + tail_a;
    let b = head_b + bar + tail_b;
    assert(a.len() == head_a.len() + bar.len() + tail_a.len());
    assert(b.len() == head_b.len() + bar.len() + tail_b.len());
    if head_a.len() < head_b.len() {
        let at = head_a.len() as int;
        assert(a[at] == bar[0]);
        assert(b[at] == head_b[at]);
        assert(false);
    }
    if head_b.len() < head_a.len() {
        let at = head_b.len() as int;
        assert(b[at] == bar[0]);
        assert(a[at] == head_a[at]);
        assert(false);
    }
    assert forall|i: int| 0 <= i < head_a.len() implies head_a[i] == head_b[i] by {
        assert(a[i] == head_a[i]);
        assert(b[i] == head_b[i]);
    }
    assert(head_a =~= head_b);
    assert forall|i: int| 0 <= i < tail_a.len() implies tail_a[i] == tail_b[i] by {
        assert(a[head_a.len() + bar.len() + i] == tail_a[i]);
        assert(b[head_b.len() + bar.len() + i] == tail_b[i]);
    }
    assert(tail_a =~= tail_b);
}

/// The text of a plain message holds no bar, and is not empty.
proof fn lemma_message_text_is_plain(message: MessageView)
    requires
        plain_message(message),
    ensures
        free_of(message_text(message), '|'),
        message_text(message).len() > 0,
{
    let text = message_text(message);
    assert forall|i: int| 0 <= i < text.len() implies text[i] != '|' by {
        if i < message.role.len() {
            assert(text[i] == message.role[i]);
        } else if i == message.role.len() {
            assert(text[i] == ':');
        } else {
            assert(text[i] == message.content[i - message.role.len() - 1]);
        }
    }
}

/// Plain messages with the same text are the same message.
proof fn lemma_message_text_tells_apart(a: MessageView, b: MessageView)
    requires
        plain_message(a),
        plain_message(b),
        message_text(a) == message_text(b),
    ensures
        a == b,
{
    lemma_split_at_first(a.role, a.content, b.role, b.content, seq![':'], ':');
}

/// What the joined text of a plain transcript shows of its length: it is
/// empty for no message, free of bars for one, and holds a bar for more.
proof fn lemma_joined_text_shape(messages: Seq<MessageView>)
    requires
        plain_transcript(messages),
    ensures
        messages.len() == 0 ==> joined_text(messages).len() == 0,
        messages.len() >= 1 ==> joined_text(messages).len() > 0,
        messages.len() == 1 ==> free_of(joined_text(messages), '|'),
        messages.len() >= 2 ==> !free_of(joined_text(messages), '|'),
{
    if messages.len() == 1 {
        lemma_message_text_is_plain(messages[0]);
    } else if messages.len() >= 2 {
        let head = joined_text(messages.drop_last());
        let tail = message_text(messages.last());
        let text = joined_text(messages);
        assert(text == head + seq!['|', '|'] + tail);
        assert(text[head.len() as int] == '|');
    }
}

/// Plain transcripts with the same joined text are the same transcript.
proof fn lemma_joined_text_tells_apart(a: Seq<MessageView>, b: Seq<MessageView>)
    requires
        plain_transcript(a),
        plain_transcript(b),
        joined_text(a) == joined_text(b),
    ensures
        a == b,
    decreases a.len(),
{
    lemma_joined_text_shape(a);
    lemma_joined_text_shape(b);
    if a.len() == 0 {
        assert(a =~= b);
    } else if a.len() == 1 {
        assert(b.len() == 1);
        lemma_message_text_tells_apart(a[0], b[0]);
        assert(a =~= b);
    } else {
        assert(b.len() >= 2);
        let init_a = a.drop_last();
        let init_b = b.drop_last();
        lemma_message_text_is_plain(a.last());
        lemma_message_text_is_plain(b.last());
        lemma_split_at_last(
            joined_text(init_a),
            message_text(a.last()),
            joined_text(init_b),
            message_text(b.last()),
            seq!['|', '|'],
            '|',
        );
        lemma_message_text_tells_apart(a.last(), b.last());
        assert(plain_transcript(init_a)) by {
            assert forall|i: int| 0 <= i < init_a.len() implies plain_message(
                #[trigger] init_a[i],
            ) by {
                assert(init_a[i] == a[i]);
            }
        }
        assert(plain_transcript(init_b)) by {
            assert forall|i: int| 0 <= i < init_b.len() implies plain_message(
                #[trigger] init_b[i],
            ) by {
                assert(init_b[i] == b[i]);
            }
        }
        lemma_joined_text_tells_apart(init_a, init_b);
        assert(a =~= init_a.push(a.last()));
        assert(b =~= init_b.push(b.last()));
    }
}

/// Conversations that differ are hashed from texts that differ. Where the
/// models' names hold no colon and the transcripts are plain, the text that
/// is hashed is the same only for the same model and the same messages in
/// the same order. Whether the digests then differ rests on SHA-256.
pub proof fn lemma_fingerprint_input_tells_apart(
    model_a: Seq<char>,
    messages_a: Seq<MessageView>,
    model_b: Seq<char>,
    messages_b: Seq<MessageView>,
)
    requires
        free_of(model_a, ':'),
        free_of(model_b, ':'),
        plain_transcript(messages_a),
        plain_transcript(messages_b),
        fingerprint_input(model_a, messages_a) == fingerprint_input(model_b, messages_b),
    ensures
        model_a == model_b,
        messages_a == messages_b,
{
    lemma_split_at_first(
        model_a,
        joined_text(messages_a),
        model_b,
        joined_text(messages_b),
        seq![':', ':'],
        ':',
    );
    lemma_joined_text_tells_apart(messages_a, messages_b);
}

} // verus!
