//! The journal: the engine's orders and counters written through to stable
//! memory, order by order, and read back after a restart.

use crate::codec::{
    decode_order, encodable, encode_order, encoding, law_decode_inverts_encode, parse_order,
    read_u64, remaining, u64_from_be,
};
use crate::engine::{order_sound, restorable, rewritten, Engine, Stage};
use crate::helper_utils::{append_bytes, be_bytes_u64, u64_to_be_bytes};
use crate::order::{OrderView, PaymentOrder, PaymentStatus};
use crate::principal::MAX_PRINCIPAL_LEN;
use crate::stable::{open_maps, stable_entries, stable_get, stable_insert, stored, ByteMap};
use crate::state::{default_state, UserState};
use crate::state_codec::{
    decode_state, encode_state, parse_state, state_encodable, state_encoding,
};
use crate::store::{
    ascending, holds, index_of, law_lookup_determines_orders, lemma_lookup_at, lookup,
};
use vstd::prelude::*;

verus! {

/// The key of the settings under which the journal keeps the counters.
pub const COUNTERS_KEY: u64 = 0;

/// The key of the settings under which the journal keeps the
/// configuration state.
pub const STATE_KEY: u64 = 1;

/// The bytes of the two counters: next order id, then number of orders.
pub open spec fn counter_bytes(next_id: u64, total: u64) -> Seq<u8> {
    be_bytes_u64(next_id) + be_bytes_u64(total)
}

/// The two counters that the bytes hold, if they hold two.
pub open spec fn parse_counters(s: Seq<u8>) -> Option<(u64, u64)> {
    if s.len() == 16 {
        Some((u64_from_be(s.subrange(0, 8)), u64_from_be(s.subrange(8, 16))))
    } else {
        None
    }
}

/// The counters that the settings hold: both 0 where none were written.
pub open spec fn counters_of(settings: Map<u64, Seq<u8>>) -> Option<(u64, u64)> {
    if settings.contains_key(COUNTERS_KEY) {
        parse_counters(settings[COUNTERS_KEY])
    } else {
        Some((0, 0))
    }
}

/// The configuration state that the settings hold: that of a service that
/// was never configured where none was written, and none where what is
/// written is not the bytes of a state.
pub open spec fn stored_state(settings: Map<u64, Seq<u8>>) -> Option<crate::state::StateView> {
    if settings.contains_key(STATE_KEY) {
        parse_state(settings[STATE_KEY])
    } else {
        Some(default_state())
    }
}

/// Stored bytes that an engine can be rebuilt from: the counters can be
/// read, and under every key stand the bytes of a sound order with that id,
/// below the next id.
pub open spec fn sound_journal(orders: Map<u64, Seq<u8>>, settings: Map<u64, Seq<u8>>) -> bool {
    &&& counters_of(settings).is_some()
    &&& forall|k: u64| #[trigger]
        orders.contains_key(k) ==> sound_entry(k, orders[k], counters_of(settings).unwrap().0)
}

/// The orders and settings of a service in stable memory.
pub struct Journal {
    orders: ByteMap,
    meta: ByteMap,
}

impl Journal {
    /// The bytes of each stored order, by order id.
    pub closed spec fn order_bytes(&self) -> Map<u64, Seq<u8>> {
        stored(self.orders)
    }

    /// The bytes of each setting, by key. Key 0 holds the counters.
    pub closed spec fn settings(&self) -> Map<u64, Seq<u8>> {
        stored(self.meta)
    }

    /// Opens the service's stable memory. A service does this once and
    /// keeps everything that is to outlast a restart in this journal. What
    /// the journal holds is what the memory held.
    pub fn open() -> (journal: Journal) {
        let (meta, orders) = open_maps();
        Journal { orders, meta }
    }

    /// Stores a setting of the service. Keys 0 and 1 belong to the counters
    /// and to the configuration state and are refused: the answer is then
    /// `false` and nothing is stored.
    pub fn put_setting(&mut self, key: u64, value: Vec<u8>) -> (done: bool)
        ensures
            done == (key != COUNTERS_KEY && key != STATE_KEY),
            final(self).order_bytes() == old(self).order_bytes(),
            final(self).settings() == if done {
                old(self).settings().insert(key, value@)
            } else {
                old(self).settings()
            },
    {
        if key == COUNTERS_KEY || key == STATE_KEY {
            return false;
        }
        stable_insert(&mut self.meta, key, value);
        true
    }

    /// Writes the configuration state to stable memory. Every stored order
    /// and every other setting stays as it is.
    pub fn save_state(&mut self, state: &UserState)
        ensures
            final(self).order_bytes() == old(self).order_bytes(),
            final(self).settings() == old(self).settings().insert(
                STATE_KEY,
                state_encoding(state@),
            ),
            state_encodable(state@),
    {
        let bytes = encode_state(state);
        stable_insert(&mut self.meta, STATE_KEY, bytes);
    }

    /// Reads the configuration state from stable memory: the state that was
    /// saved last, or the state of a service that was never configured
    /// where none was saved. Returns `None` where what is stored cannot
    /// have been written by `save_state`.
    pub fn load_state(&self) -> (state: Option<UserState>)
        ensures
            match stored_state(self.settings()) {
                Some(v) => state.is_some() && state.unwrap()@ == v,
                None => state.is_none(),
            },
    {
        match stable_get(&self.meta, STATE_KEY) {
            None => Some(UserState::initial()),
            Some(bytes) => decode_state(&bytes),
        }
    }

    /// The setting stored under a key, if there is one.
    pub fn get_setting(&self, key: u64) -> (value: Option<Vec<u8>>)
        ensures
            value.is_some() == self.settings().contains_key(key),
            value.is_some() ==> value.unwrap()@ == self.settings()[key],
    {
        stable_get(&self.meta, key)
    }

    /// The stored bytes of an order, if it was recorded.
    pub fn get_order_bytes(&self, order_id: u64) -> (value: Option<Vec<u8>>)
        ensures
            value.is_some() == self.order_bytes().contains_key(order_id),
            value.is_some() ==> value.unwrap()@ == self.order_bytes()[order_id],
    {
        stable_get(&self.orders, order_id)
    }

    /// Writes the engine's counters, and the order with this id as the
    /// engine now holds it, to stable memory. Every other stored order and
    /// setting stays as it is.
    pub fn record(&mut self, engine: &Engine, order_id: u64)
        requires
            engine.wf(),
        ensures
            final(self).settings() == old(self).settings().insert(
                COUNTERS_KEY,
                counter_bytes(engine.next_id(), engine.total()),
            ),
            final(self).order_bytes() == match lookup(engine.orders(), order_id) {
                Some(o) => old(self).order_bytes().insert(order_id, encoding(o)),
                None => old(self).order_bytes(),
            },
    {
        let mut counters = u64_to_be_bytes(engine.next_order_id());
        let total = u64_to_be_bytes(engine.total_orders());
        append_bytes(&mut counters, &total);
        stable_insert(&mut self.meta, COUNTERS_KEY, counters);
        match engine.get_payment_order(order_id) {
            Some(order) => {
                let bytes = encode_order(&order);
                stable_insert(&mut self.orders, order_id, bytes);
            },
            None => {},
        }
    }
    /// Rebuilds the engine from what stable memory holds, as after a
    /// restart. No operation is under way in the rebuilt engine, and the
    /// order found under each id is the one whose bytes stand under that
    /// id. Returns `None` exactly when the stored bytes cannot have been
    /// written by `record`.
    pub fn restore(&self) -> (engine: Option<Engine>)
        ensures
            engine.is_some() == sound_journal(self.order_bytes(), self.settings()),
            engine.is_some() ==> {
                &&& engine.unwrap().wf()
                &&& engine.unwrap().next_id() == counters_of(self.settings()).unwrap().0
                &&& engine.unwrap().total() == counters_of(self.settings()).unwrap().1
                &&& engine.unwrap().stages() == Seq::new(
                    engine.unwrap().orders().len(),
                    |i: int| Stage::Idle,
                )
                &&& forall|k: u64| #[trigger]
                    lookup(engine.unwrap().orders(), k) == if self.order_bytes().contains_key(k) {
                        parse_order(self.order_bytes()[k])
                    } else {
                        None
                    }
            },
    {
        let (next_order_id, total_orders) = match stable_get(&self.meta, COUNTERS_KEY) {
            None => (0u64, 0u64),
            Some(bytes) => match read_counters(&bytes) {
                Some(pair) => pair,
                None => {
                    return None;
                },
            },
        };
        let entries = stable_entries(&self.orders);
        let ghost m = stored(self.orders);
        let mut orders: Vec<PaymentOrder> = Vec::new();
        let mut i: usize = 0;
        while i < entries.len()
            invariant
                i <= entries@.len(),
                m == stored(self.orders),
                counters_of(stored(self.meta)) == Some((next_order_id, total_orders)),
                orders@.len() == i,
                forall|a: int, b: int| 0 <= a < b < entries@.len() ==> entries@[a].0 < entries@[b].0,
                forall|a: int|
                    0 <= a < entries@.len() ==> m.contains_key(#[trigger] entries@[a].0)
                        && m[entries@[a].0] == entries@[a].1@,
                forall|a: int|
                    0 <= a < i ==> {
                        &&& parse_order(entries@[a].1@) == Some((#[trigger] orders@[a])@)
                        &&& sound_entry(entries@[a].0, entries@[a].1@, next_order_id)
                    },
            decreases entries@.len() - i,
        {
            let order = match read_entry(entries[i].0, &entries[i].1, next_order_id) {
                Some(order) => order,
                None => {
                    assert(m.contains_key(entries@[i as int].0));
                    assert(!sound_entry(entries@[i as int].0, m[entries@[i as int].0], next_order_id));
                    return None;
                },
            };
            orders.push(order);
            i += 1;
        }
        let ghost s = orders@.map_values(|o: PaymentOrder| o@);
        proof {
            assert forall|a: int, b: int| 0 <= a < b < s.len() implies s[a].id < s[b].id by {
                assert(s[a] == orders@[a]@);
                assert(s[b] == orders@[b]@);
            }
            assert forall|a: int| 0 <= a < s.len() implies (#[trigger] s[a]).id < next_order_id
                && order_sound(s[a]) by {
                assert(s[a] == orders@[a]@);
            }
            assert(restorable(s, next_order_id));
            assert forall|k: u64| #[trigger] m.contains_key(k) implies sound_entry(
                k,
                m[k],
                next_order_id,
            ) by {
                let a = choose|a: int| 0 <= a < entries@.len() && entries@[a].0 == k;
                assert(s[a] == orders@[a]@);
            }
            assert forall|k: u64| #[trigger] lookup(s, k) == if m.contains_key(k) {
                parse_order(m[k])
            } else {
                None
            } by {
                if m.contains_key(k) {
                    let a = choose|a: int| 0 <= a < entries@.len() && entries@[a].0 == k;
                    assert(s[a] == orders@[a]@);
                    lemma_lookup_at(s, a);
                } else if holds(s, k) {
                    let a = index_of(s, k);
                    assert(s[a] == orders@[a]@);
                    assert(m.contains_key(entries@[a].0));
                }
            }
        }
        Engine::restore(orders, next_order_id, total_orders)
    }
}

/// A stored entry that an engine can hold: the bytes are those of a sound
/// order with the entry's key as its id, below the next id.
pub open spec fn sound_entry(key: u64, bytes: Seq<u8>, next_id: u64) -> bool {
    &&& parse_order(bytes).is_some()
    &&& parse_order(bytes).unwrap().id == key
    &&& order_sound(parse_order(bytes).unwrap())
    &&& key < next_id
}

/// Reads the order of a stored entry, if the entry is sound.
pub fn read_entry(key: u64, bytes: &Vec<u8>, next_id: u64) -> (order: Option<PaymentOrder>)
    ensures
        order.is_some() == sound_entry(key, bytes@, next_id),
        order.is_some() ==> parse_order(bytes@) == Some(order.unwrap()@),
{
    let order = match decode_order(bytes) {
        Some(order) => order,
        None => {
            return None;
        },
    };
    let sound = order.payer.as_slice().len() <= MAX_PRINCIPAL_LEN && (order.shared_time.is_none()
        || order.status == PaymentStatus::Paid);
    if order.id != key || !sound || key >= next_id {
        return None;
    }
    Some(order)
}

/// Reads the two counters from their bytes.
pub fn read_counters(bytes: &Vec<u8>) -> (counters: Option<(u64, u64)>)
    ensures
        counters == parse_counters(bytes@),
{
    if bytes.len() != 16 {
        return None;
    }
    assert(remaining(bytes@, 0) =~= bytes@);
    let (next_id, p1) = match read_u64(bytes, 0) {
        Some(pair) => pair,
        None => {
            return None;
        },
    };
    assert(remaining(bytes@, 8).subrange(0, 8) =~= bytes@.subrange(8, 16));
    let (total, p2) = match read_u64(bytes, p1) {
        Some(pair) => pair,
        None => {
            return None;
        },
    };
    Some((next_id, total))
}

/// What stable memory holds of a sequence of orders once each was
/// recorded: under each id, the bytes of the order with that id.
pub open spec fn mirror_of(s: Seq<OrderView>) -> Map<u64, Seq<u8>> {
    Map::new(|k: u64| holds(s, k), |k: u64| encoding(lookup(s, k).unwrap()))
}

/// Recording an order that an operation has rewritten brings stable memory
/// up to date: if it held the orders as they were before, it holds them as
/// they are now.
pub proof fn law_record_follows_change(s: Seq<OrderView>, id: u64, o: OrderView)
    requires
        ascending(s),
        holds(s, id),
        o.id == id,
    ensures
        mirror_of(rewritten(s, id, o)) == mirror_of(s).insert(id, encoding(o)),
{
    let r = rewritten(s, id, o);
    assert forall|a: int, b: int| 0 <= a < b < r.len() implies r[a].id < r[b].id by {
        assert(r[a].id == s[a].id);
        assert(r[b].id == s[b].id);
    }
    assert forall|k: u64| #[trigger] holds(r, k) == holds(s, k) by {
        if holds(s, k) {
            let a = index_of(s, k);
            assert(r[a].id == k);
        }
        if holds(r, k) {
            let a = index_of(r, k);
            assert(s[a].id == k);
        }
    }
    assert forall|k: u64| holds(r, k) implies #[trigger] lookup(r, k) == if k == id {
        Some(o)
    } else {
        lookup(s, k)
    } by {
        let a = index_of(s, k);
        lemma_lookup_at(s, a);
        assert(r[a].id == k);
        lemma_lookup_at(r, a);
    }
    assert(mirror_of(r) =~= mirror_of(s).insert(id, encoding(o)));
}

/// Recording a newly created order brings stable memory up to date.
pub proof fn law_record_follows_creation(s: Seq<OrderView>, o: OrderView)
    requires
        ascending(s),
        forall|j: int| 0 <= j < s.len() ==> s[j].id < o.id,
    ensures
        mirror_of(s.push(o)) == mirror_of(s).insert(o.id, encoding(o)),
{
    let r = s.push(o);
    assert forall|a: int, b: int| 0 <= a < b < r.len() implies r[a].id < r[b].id by {
        if b < s.len() {
            assert(r[a] == s[a] && r[b] == s[b]);
        } else {
            assert(r[a] == s[a]);
        }
    }
    assert forall|k: u64| #[trigger] holds(r, k) == (holds(s, k) || k == o.id) by {
        if holds(s, k) {
            let a = index_of(s, k);
            assert(r[a].id == k);
        }
        if k == o.id {
            assert(r[s.len() as int].id == k);
        }
        if holds(r, k) && k != o.id {
            let a = index_of(r, k);
            assert(s[a].id == k);
        }
    }
    assert forall|k: u64| holds(r, k) implies #[trigger] lookup(r, k) == if k == o.id {
        Some(o)
    } else {
        lookup(s, k)
    } by {
        if k == o.id {
            lemma_lookup_at(r, s.len() as int);
        } else {
            let a = index_of(s, k);
            lemma_lookup_at(s, a);
            assert(r[a] == s[a]);
            lemma_lookup_at(r, a);
        }
    }
    assert(mirror_of(r) =~= mirror_of(s).insert(o.id, encoding(o)));
}

/// Orders survive a restart: where stable memory holds the orders as
/// recorded, the orders rebuilt from it are the orders that were recorded.
pub proof fn law_restore_recovers(s: Seq<OrderView>, rebuilt: Seq<OrderView>)
    requires
        ascending(s),
        ascending(rebuilt),
        forall|i: int| 0 <= i < s.len() ==> encodable(#[trigger] s[i]),
        forall|k: u64| #[trigger]
            lookup(rebuilt, k) == if mirror_of(s).contains_key(k) {
                parse_order(mirror_of(s)[k])
            } else {
                None
            },
    ensures
        rebuilt == s,
{
    assert forall|k: u64| lookup(s, k) == lookup(rebuilt, k) by {
        if holds(s, k) {
            let a = index_of(s, k);
            lemma_lookup_at(s, a);
            law_decode_inverts_encode(s[a]);
            assert(mirror_of(s).contains_key(k));
        } else {
            assert(!mirror_of(s).contains_key(k));
        }
    }
    law_lookup_determines_orders(s, rebuilt);
}

} // verus!
