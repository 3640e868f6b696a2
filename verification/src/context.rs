//! What is remembered about a command so that a later reply to its response
//! can be traced back to it: a bounded store, keyed by the id of the
//! response message, that forgets the least recently used entry first.

use vstd::prelude::*;

verus! {

/// The value of one command option.
#[derive(Debug, Clone, PartialEq, Eq)]
pub enum OptionValue {
    String(String),
    Integer(i64),
    /// A floating-point number, held as the bits of its IEEE 754 double.
    Number(u64),
    Boolean(bool),
}

impl OptionValue {
    /// The text, if the value is a string.
    pub fn as_str(&self) -> (text: Option<&str>)
        ensures
            match (text, *self) {
                (Some(text), OptionValue::String(value)) => text@ == value@,
                (None, OptionValue::String(_)) => false,
                (Some(_), _) => false,
                (None, _) => true,
            },
    {
        match self {
            OptionValue::String(s) => Some(s.as_str()),
            _ => None,
        }
    }

    /// The integer, if the value is one.
    pub fn as_i64(&self) -> (number: Option<i64>)
        ensures
            number == (match *self {
                OptionValue::Integer(i) => Some(i),
                _ => None,
            }),
    {
        match self {
            OptionValue::Integer(i) => Some(*i),
            _ => None,
        }
    }

    /// The bits of the double, if the value is a floating-point number.
    pub fn as_number_bits(&self) -> (bits: Option<u64>)
        ensures
            bits == (match *self {
                OptionValue::Number(n) => Some(n),
                _ => None,
            }),
    {
        match self {
            OptionValue::Number(n) => Some(*n),
            _ => None,
        }
    }

    /// The truth value, if the value is one.
    pub fn as_bool(&self) -> (flag: Option<bool>)
        ensures
            flag == (match *self {
                OptionValue::Boolean(b) => Some(b),
                _ => None,
            }),
    {
        match self {
            OptionValue::Boolean(b) => Some(*b),
            _ => None,
        }
    }
}

/// The command behind a response message.
#[derive(Debug, Clone, PartialEq, Eq)]
pub struct InteractionContext {
    /// The command that was invoked.
    pub command_name: String,
    /// The options passed to the command, by name.
    pub options: Vec<(String, OptionValue)>,
    /// The user who invoked the command.
    pub user_id: u64,
    /// The channel where the command was invoked.
    pub channel_id: u64,
    /// The guild where the command was invoked; none for direct messages.
    pub guild_id: Option<u64>,
}

/// `lru::LruCache`, a map that holds a bounded number of entries and
/// drops the least recently used one when a new entry needs its place.
#[verifier::external_type_specification]
#[verifier::external_body]
#[verifier::reject_recursive_types(K)]
#[verifier::reject_recursive_types(V)]
#[verifier::reject_recursive_types(S)]
pub struct ExLruCache<K, V, S>(lru::LruCache<K, V, S>);

/// `lru::DefaultHasher`, the hasher of a cache made with `LruCache::new`.
#[verifier::external_type_specification]
#[verifier::external_body]
pub struct ExDefaultHasher(lru::DefaultHasher);

/// The entries of a cache, most recently used first.
pub uninterp spec fn cache_entries(cache: lru::LruCache<u64, InteractionContext>) -> Seq<
    (u64, InteractionContext),
>;

/// The number of entries a cache was made to hold.
pub uninterp spec fn cache_limit(cache: lru::LruCache<u64, InteractionContext>) -> nat;

/// The position of `key` among `entries`, if it is there.
pub open spec fn position(entries: Seq<(u64, InteractionContext)>, key: u64) -> Option<int> {
    if exists|i: int| 0 <= i < entries.len() && entries[i].0 == key {
        Some(choose|i: int| 0 <= i < entries.len() && entries[i].0 == key)
    } else {
        None
    }
}

/// The context stored under `key`, if any.
pub open spec fn lookup(entries: Seq<(u64, InteractionContext)>, key: u64) -> Option<
    InteractionContext,
> {
    match position(entries, key) {
        Some(i) => Some(entries[i].1),
        None => None,
    }
}

/// The entries after `key` was used: its entry moves to the front.
pub open spec fn touched(entries: Seq<(u64, InteractionContext)>, key: u64) -> Seq<
    (u64, InteractionContext),
> {
    match position(entries, key) {
        Some(i) => seq![entries[i]] + entries.remove(i),
        None => entries,
    }
}

/// The entries after `value` was put under `key` in a cache that holds at
/// most `limit` entries: an entry for `key` is replaced and moves to the
/// front; otherwise the new entry goes to the front, and the entry at the
/// back leaves if the cache was full.
pub open spec fn put(
    entries: Seq<(u64, InteractionContext)>,
    limit: nat,
    key: u64,
    value: InteractionContext,
) -> Seq<(u64, InteractionContext)> {
    match position(entries, key) {
        Some(i) => seq![(key, value)] + entries.remove(i),
        None => if entries.len() >= limit && entries.len() > 0 {
            seq![(key, value)] + entries.drop_last()
        } else {
            seq![(key, value)] + entries
        },
    }
}

/// No key occurs twice, and the limit is kept.
pub open spec fn orderly(entries: Seq<(u64, InteractionContext)>, limit: nat) -> bool {
    &&& entries.len() <= limit
    &&& forall|i: int, j: int|
        0 <= i < j < entries.len() ==> (#[trigger] entries[i]).0 != (#[trigger] entries[j]).0
}

/// `LruCache::new`: an empty cache for at most `capacity` entries. The
/// capacity must not be zero.
#[verifier::external_body]
fn cache_new(capacity: usize) -> (cache: lru::LruCache<u64, InteractionContext>)
    requires
        capacity > 0,
    ensures
        cache_entries(cache).len() == 0,
        cache_limit(cache) == capacity,
{
    lru::LruCache::new(std::num::NonZeroUsize::new(capacity).unwrap())
}

/// `LruCache::put`: stores `value` under `key` as the most recently used
/// entry, replacing an entry for the same key, or else pushing out the least
/// recently used entry of a full cache.
#[verifier::external_body]
fn cache_put(cache: &mut lru::LruCache<u64, InteractionContext>, key: u64, value: InteractionContext)
    ensures
        cache_entries(*final(cache)) == put(
            cache_entries(*old(cache)),
            cache_limit(*old(cache)),
            key,
            value,
        ),
        cache_limit(*final(cache)) == cache_limit(*old(cache)),
{
    cache.put(key, value);
}

/// `LruCache::get`, with the value cloned: the value under `key`, whose
/// entry becomes the most recently used; `None`, and no change, when the
/// key is not there.
#[verifier::external_body]
fn cache_get(cache: &mut lru::LruCache<u64, InteractionContext>, key: u64) -> (value: Option<
    InteractionContext,
>)
    ensures
        value == lookup(cache_entries(*old(cache)), key),
        cache_entries(*final(cache)) == touched(cache_entries(*old(cache)), key),
        cache_limit(*final(cache)) == cache_limit(*old(cache)),
{
    cache.get(&key).cloned()
}

/// A position that holds `key` is the position of `key`, when no key
/// occurs twice.
proof fn lemma_position_unique(entries: Seq<(u64, InteractionContext)>, limit: nat, key: u64, i: int)
    requires
        orderly(entries, limit),
        0 <= i < entries.len(),
        entries[i].0 == key,
    ensures
        position(entries, key) == Some(i),
{
    let found = choose|j: int| 0 <= j < entries.len() && entries[j].0 == key;
    if found < i {
        assert(entries[found].0 != entries[i].0);
    } else if i < found {
        assert(entries[i].0 != entries[found].0);
    }
}

/// Putting keeps the entries orderly, leaves the new entry at the front and
/// keeps every other entry that was not pushed out.
pub proof fn lemma_put_orderly(
    entries: Seq<(u64, InteractionContext)>,
    limit: nat,
    key: u64,
    value: InteractionContext,
)
    requires
        orderly(entries, limit),
        limit > 0,
    ensures
        orderly(put(entries, limit, key, value), limit),
        lookup(put(entries, limit, key, value), key) == Some(value),
        forall|other: u64|
            other != key && lookup(put(entries, limit, key, value), other) is Some ==> lookup(
                put(entries, limit, key, value),
                other,
            ) == lookup(entries, other),
{
    let after = put(entries, limit, key, value);
    let rest = match position(entries, key) {
        Some(i) => entries.remove(i),
        None => if entries.len() >= limit && entries.len() > 0 {
            entries.drop_last()
        } else {
            entries
        },
    };
    assert(after =~= seq![(key, value)] + rest);
    // every entry of the rest is an entry of before, in the same order, and none has the key
    let from = |j: int| -> int
        {
            match position(entries, key) {
                Some(i) => if j < i {
                    j
                } else {
                    j + 1
                },
                None => j,
            }
        };
    assert forall|j: int| 0 <= j < rest.len() implies 0 <= from(j) < entries.len() && rest[j]
        == entries[from(j)] && rest[j].0 != key by {
        match position(entries, key) {
            Some(i) => {
                if j >= i {
                    assert(entries[i].0 != entries[j + 1].0);
                } else {
                    assert(entries[j].0 != entries[i].0);
                }
            },
            None => {
                assert(entries[j] == rest[j]);
            },
        }
    }
    assert forall|a: int, b: int| 0 <= a < b < after.len() implies (#[trigger] after[a]).0 != (
    #[trigger] after[b]).0 by {
        if a == 0 {
            assert(after[b] == rest[b - 1]);
            assert(rest[b - 1].0 != key);
        } else {
            assert(after[a] == rest[a - 1]);
            assert(after[b] == rest[b - 1]);
            assert(from(a - 1) < from(b - 1));
            assert(entries[from(a - 1)].0 != entries[from(b - 1)].0);
        }
    }
    assert(orderly(after, limit));
    assert(after[0].0 == key);
    lemma_position_unique(after, limit, key, 0);
    assert forall|other: u64| other != key && lookup(after, other) is Some implies lookup(
        after,
        other,
    ) == lookup(entries, other) by {
        let p = position(after, other)->0;
        assert(0 <= p < after.len() && after[p].0 == other);
        assert(p > 0);
        assert(after[p] == rest[p - 1]);
        lemma_position_unique(entries, limit, other, from(p - 1));
    }
}

/// Using an entry keeps the entries orderly and changes no stored context.
pub proof fn lemma_touched_orderly(entries: Seq<(u64, InteractionContext)>, limit: nat, key: u64)
    requires
        orderly(entries, limit),
    ensures
        orderly(touched(entries, key), limit),
        forall|other: u64| lookup(touched(entries, key), other) == lookup(entries, other),
{
    let after = touched(entries, key);
    match position(entries, key) {
        Some(i) => {
            let rest = entries.remove(i);
            assert(after =~= seq![entries[i]] + rest);
            let from = |j: int| -> int
                {
                    if j == 0 {
                        i
                    } else if j - 1 < i {
                        j - 1
                    } else {
                        j
                    }
                };
            assert forall|j: int| 0 <= j < after.len() implies 0 <= from(j) < entries.len()
                && after[j] == entries[from(j)] by {}
            assert forall|a: int, b: int| 0 <= a < b < after.len() implies (
            #[trigger] after[a]).0 != (#[trigger] after[b]).0 by {
                let x = from(a);
                let y = from(b);
                assert(after[a] == entries[x]);
                assert(after[b] == entries[y]);
                if x < y {
                    assert(entries[x].0 != entries[y].0);
                } else {
                    assert(x != y);
                    assert(entries[y].0 != entries[x].0);
                }
            }
            assert forall|other: u64| lookup(after, other) == lookup(entries, other) by {
                if position(after, other) is Some {
                    let p = position(after, other)->0;
                    assert(0 <= p < after.len() && after[p].0 == other);
                    lemma_position_unique(entries, limit, other, from(p));
                } else if position(entries, other) is Some {
                    let q = position(entries, other)->0;
                    assert(0 <= q < entries.len() && entries[q].0 == other);
                    let p = if q == i {
                        0
                    } else if q < i {
                        q + 1
                    } else {
                        q
                    };
                    assert(after[p] == entries[q]);
                    assert(false);
                }
            }
        },
        None => {},
    }
}

/// A store of interaction contexts with a fixed capacity.
pub struct InteractionContextStore {
    cache: lru::LruCache<u64, InteractionContext>,
}

impl InteractionContextStore {
    /// The stored contexts with the ids of their messages, most recently
    /// used first.
    pub closed spec fn entries(&self) -> Seq<(u64, InteractionContext)> {
        cache_entries(self.cache)
    }

    /// The number of contexts the store holds at most.
    pub closed spec fn capacity(&self) -> nat {
        cache_limit(self.cache)
    }

    /// The store never holds two contexts for one message, nor more than
    /// its capacity.
    pub open spec fn wf(&self) -> bool {
        self.capacity() > 0 && orderly(self.entries(), self.capacity())
    }

    /// An empty store for at most `capacity` contexts.
    pub fn new(capacity: usize) -> (store: Self)
        requires
            capacity > 0,
        ensures
            store.wf(),
            store.entries().len() == 0,
            store.capacity() == capacity,
    {
        InteractionContextStore { cache: cache_new(capacity) }
    }

    /// Remembers `context` for the response message `message_id`. It
    /// replaces what was remembered for that message; in a full store the
    /// least recently used context is forgotten.
    pub fn store(&mut self, message_id: u64, context: InteractionContext)
        requires
            old(self).wf(),
        ensures
            final(self).wf(),
            final(self).capacity() == old(self).capacity(),
            final(self).entries() == put(
                old(self).entries(),
                old(self).capacity(),
                message_id,
                context,
            ),
            lookup(final(self).entries(), message_id) == Some(context),
    {
        proof {
            lemma_put_orderly(self.entries(), self.capacity(), message_id, context);
        }
        cache_put(&mut self.cache, message_id, context);
    }

    /// The context remembered for `message_id`, which thereby becomes the
    /// most recently used; `None` when nothing is remembered for it.
    pub fn get(&mut self, message_id: u64) -> (context: Option<InteractionContext>)
        requires
            old(self).wf(),
        ensures
            final(self).wf(),
            final(self).capacity() == old(self).capacity(),
            context == lookup(old(self).entries(), message_id),
            final(self).entries() == touched(old(self).entries(), message_id),
            forall|other: u64|
                lookup(final(self).entries(), other) == lookup(old(self).entries(), other),
    {
        proof {
            lemma_touched_orderly(self.entries(), self.capacity(), message_id);
        }
        cache_get(&mut self.cache, message_id)
    }

    /// Looks for a context along a chain of messages, given as pairs of a
    /// message id and whether the bot wrote the message: the context of the
    /// first message that the bot wrote and that the store remembers.
    pub fn find_in_chain(&mut self, chain: &Vec<(u64, bool)>) -> (context: Option<
        InteractionContext,
    >)
        requires
            old(self).wf(),
        ensures
            final(self).wf(),
            final(self).capacity() == old(self).capacity(),
            match context {
                Some(found) => exists|i: int|
                    0 <= i < chain.len() && chain[i].1 && lookup(old(self).entries(), chain[i].0)
                        == Some(found) && forall|j: int|
                        0 <= j < i && chain[j].1 ==> lookup(old(self).entries(), chain[j].0)
                            is None,
                None => forall|j: int|
                    0 <= j < chain.len() && chain[j].1 ==> lookup(
                        old(self).entries(),
                        chain[j].0,
                    ) is None,
            },
            forall|other: u64|
                lookup(final(self).entries(), other) == lookup(old(self).entries(), other),
    {
        let mut i: usize = 0;
        while i < chain.len()
            invariant
                i <= chain.len(),
                self.wf(),
                self.capacity() == old(self).capacity(),
                forall|other: u64|
                    lookup(self.entries(), other) == lookup(old(self).entries(), other),
                forall|j: int|
                    0 <= j < i && chain[j].1 ==> lookup(old(self).entries(), chain[j].0) is None,
            decreases chain.len() - i,
        {
            if chain[i].1 {
                let found = self.get(chain[i].0);
                if found.is_some() {
                    return found;
                }
            }
            i += 1;
        }
        None
    }
}

} // verus!
