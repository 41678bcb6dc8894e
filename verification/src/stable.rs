//! Stable memory: the durable ordered maps that keep the service's records
//! across restarts.

use ic_stable_structures::memory_manager::{MemoryId, MemoryManager, VirtualMemory};
use ic_stable_structures::{DefaultMemoryImpl, StableBTreeMap};
use vstd::prelude::*;

verus! {

/// A durable map from a `u64` key to bytes, kept in one region of stable
/// memory. It is an `ic_stable_structures::StableBTreeMap`, which stores its
/// keys big-endian and keeps them in ascending order.
#[verifier::external_body]
pub struct ByteMap {
    map: StableBTreeMap<u64, Vec<u8>, VirtualMemory<DefaultMemoryImpl>>,
}

/// What a durable map holds: the bytes that stand under each key.
pub uninterp spec fn stored(map: ByteMap) -> Map<u64, Seq<u8>>;

/// Calls `MemoryManager::init` on the default memory, and
/// `StableBTreeMap::init` on its regions 0 and 2; each call loads the map
/// that its region holds, or starts an empty one. Nothing is claimed of
/// what the two maps hold, since that depends on what the memory held.
/// The contracts of the other calls take each map to be the only handle on
/// its region, which holds as long as a process opens its memory once.
#[verifier::external_body]
pub(crate) fn open_maps() -> (maps: (ByteMap, ByteMap))
{
    let manager = MemoryManager::init(DefaultMemoryImpl::default());
    let first = ByteMap { map: StableBTreeMap::init(manager.get(MemoryId::new(0))) };
    let second = ByteMap { map: StableBTreeMap::init(manager.get(MemoryId::new(2))) };
    (first, second)
}

/// Calls `StableBTreeMap::insert`. Trusted: the value now stands under the
/// key, every other key keeps its value, and what stood under the key
/// before is returned.
#[verifier::external_body]
pub(crate) fn stable_insert(map: &mut ByteMap, key: u64, value: Vec<u8>) -> (previous: Option<
    Vec<u8>,
>)
    ensures
        stored(*final(map)) == stored(*old(map)).insert(key, value@),
        previous.is_some() == stored(*old(map)).contains_key(key),
        previous.is_some() ==> previous.unwrap()@ == stored(*old(map))[key],
{
    map.map.insert(key, value)
}

/// Calls `StableBTreeMap::get`. Trusted: it returns the value that stands
/// under the key, if there is one.
#[verifier::external_body]
pub(crate) fn stable_get(map: &ByteMap, key: u64) -> (value: Option<Vec<u8>>)
    ensures
        value.is_some() == stored(*map).contains_key(key),
        value.is_some() ==> value.unwrap()@ == stored(*map)[key],
{
    map.map.get(&key)
}

/// Calls `StableBTreeMap::iter` and collects the entries. Trusted: the
/// iterator yields every entry of the map once, sorted by key; so the keys
/// of the result ascend strictly, each entry stands in the map, and every
/// key of the map occurs.
#[verifier::external_body]
pub(crate) fn stable_entries(map: &ByteMap) -> (entries: Vec<(u64, Vec<u8>)>)
    ensures
        forall|i: int, j: int| 0 <= i < j < entries@.len() ==> entries@[i].0 < entries@[j].0,
        forall|i: int|
            0 <= i < entries@.len() ==> stored(*map).contains_key(#[trigger] entries@[i].0)
                && stored(*map)[entries@[i].0] == entries@[i].1@,
        forall|k: u64| #[trigger]
            stored(*map).contains_key(k) ==> exists|i: int|
                0 <= i < entries@.len() && entries@[i].0 == k,
{
    map.map.iter().map(|entry| entry.into_pair()).collect()
}

} // verus!
