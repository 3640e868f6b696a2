//! Which output channels a script writes to: one shared interpreter serves
//! several runs at a time, each with channels of its own, registered under
//! the identity of its coroutine; everything else writes to the default
//! channels.

use vstd::prelude::*;
use std::collections::HashMap;

verus! {

broadcast use vstd::std_specs::hash::group_hash_axioms;

/// The key of the default channels.
pub const DEFAULT_CHANNELS_KEY: usize = 0;

/// The channels registered for the runs that are under way, by the identity
/// of the run. `T` is the channel set.
pub struct OutputChannelsMap<T> {
    map: HashMap<usize, T>,
}

impl<T> View for OutputChannelsMap<T> {
    type V = Map<usize, T>;

    closed spec fn view(&self) -> Map<usize, T> {
        self.map@
    }
}

/// The key under which the channels for the run `key` are found: its own if
/// it has registered any, else the default key if that is registered.
pub open spec fn channels_key<T>(map: Map<usize, T>, key: usize) -> Option<usize> {
    if map.dom().contains(key) {
        Some(key)
    } else if map.dom().contains(DEFAULT_CHANNELS_KEY) {
        Some(DEFAULT_CHANNELS_KEY)
    } else {
        None
    }
}

impl<T> OutputChannelsMap<T> {
    /// A map without any channels.
    pub fn new() -> (map: Self)
        ensures
            map@ == Map::<usize, T>::empty(),
    {
        OutputChannelsMap { map: HashMap::new() }
    }

    /// Registers `channels` for the run `key`, in place of any registered
    /// before.
    pub fn insert(&mut self, key: usize, channels: T)
        ensures
            final(self)@ == old(self)@.insert(key, channels),
    {
        self.map.insert(key, channels);
    }

    /// The channels that the run `key` writes to: its own, or the default
    /// channels, or none when neither is registered.
    pub fn get_for_thread(&self, key: usize) -> (channels: Option<&T>)
        ensures
            match channels {
                Some(channels) => channels_key(self@, key) is Some && *channels
                    == self@[channels_key(self@, key)->0],
                None => channels_key(self@, key) is None,
            },
    {
        match self.map.get(&key) {
            Some(channels) => Some(channels),
            None => self.map.get(&DEFAULT_CHANNELS_KEY),
        }
    }

    /// Removes the channels of the run `key`.
    pub fn remove(&mut self, key: usize)
        ensures
            final(self)@ == old(self)@.remove(key),
    {
        self.map.remove(&key);
    }
}

/// A run that has registered channels writes to them and to no others; once
/// they are removed it writes to the default channels again.
pub proof fn lemma_own_channels_first<T>(map: Map<usize, T>, key: usize, channels: T)
    ensures
        channels_key(map.insert(key, channels), key) == Some(key),
        map.insert(key, channels)[key] == channels,
        key != DEFAULT_CHANNELS_KEY ==> channels_key(map.insert(key, channels).remove(key), key)
            == channels_key(map.remove(key), key),
        key != DEFAULT_CHANNELS_KEY && map.dom().contains(DEFAULT_CHANNELS_KEY) ==> channels_key(
            map.remove(key),
            key,
        ) == Some(DEFAULT_CHANNELS_KEY),
{
    assert(map.insert(key, channels).remove(key) =~= map.remove(key));
}

} // verus!
