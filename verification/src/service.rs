//! The service: the lifecycle engine together with its journal. Every
//! operation writes what it changed to stable memory before it hands back
//! its step, so that stable memory always holds the orders as the engine
//! has them, and a restart loses nothing.

use crate::codec::{encoding, law_encode_inverts_decode, lemma_be_roundtrip, parse_order};
use crate::engine::{evolves, step_view, Engine, Step};
use crate::helper_utils::be_bytes_u64;
use crate::journal::{
    counter_bytes, counters_of, law_record_follows_creation, mirror_of, parse_counters,
    sound_journal, Journal, COUNTERS_KEY,
};
use crate::order::{OrderView, PaymentInfo, PaymentType};
use crate::principal::Principal;
use crate::store::{ascending, holds, index_of, lemma_lookup_at, lookup};
use vstd::prelude::*;

verus! {

/// The counters are read back from their bytes.
pub proof fn lemma_counters_roundtrip(next_id: u64, total: u64)
    ensures
        parse_counters(counter_bytes(next_id, total)) == Some((next_id, total)),
{
    let s = counter_bytes(next_id, total);
    assert(s.subrange(0, 8) =~= be_bytes_u64(next_id));
    assert(s.subrange(8, 16) =~= be_bytes_u64(total));
    lemma_be_roundtrip(next_id);
    lemma_be_roundtrip(total);
}

/// Recording the one order that an operation may have changed brings
/// stable memory up to date with the orders.
pub proof fn lemma_record_keeps_mirror(pre: Seq<OrderView>, post: Seq<OrderView>, id: u64)
    requires
        ascending(pre),
        pre.len() == post.len(),
        forall|i: int| 0 <= i < pre.len() ==> (#[trigger] pre[i]).id == post[i].id,
        forall|i: int| 0 <= i < pre.len() && pre[i].id != id ==> #[trigger] post[i] == pre[i],
    ensures
        ascending(post),
        match lookup(post, id) {
            Some(o) => mirror_of(post) == mirror_of(pre).insert(id, encoding(o)),
            None => mirror_of(post) == mirror_of(pre),
        },
{
    assert forall|a: int, b: int| 0 <= a < b < post.len() implies post[a].id < post[b].id by {
        assert(pre[a].id == post[a].id);
        assert(pre[b].id == post[b].id);
    }
    assert forall|k: u64| #[trigger] holds(post, k) == holds(pre, k) by {
        if holds(pre, k) {
            let a = index_of(pre, k);
            assert(post[a].id == k);
        }
        if holds(post, k) {
            let a = index_of(post, k);
            assert(pre[a].id == post[a].id);
        }
    }
    assert forall|k: u64| holds(pre, k) && k != id implies #[trigger] lookup(post, k) == lookup(
        pre,
        k,
    ) by {
        let a = index_of(pre, k);
        lemma_lookup_at(pre, a);
        assert(post[a] == pre[a]);
        lemma_lookup_at(post, a);
    }
    match lookup(post, id) {
        Some(o) => {
            assert(mirror_of(post) =~= mirror_of(pre).insert(id, encoding(o)));
        },
        None => {
            assert(mirror_of(post) =~= mirror_of(pre));
        },
    }
}

/// The lifecycle engine with the journal that it writes to.
pub struct Service {
    engine: Engine,
    journal: Journal,
}

impl Service {
    /// The engine as it stands.
    pub closed spec fn engine(&self) -> Engine {
        self.engine
    }

    /// The journal as it stands.
    pub closed spec fn journal(&self) -> Journal {
        self.journal
    }

    /// The service's invariant: the engine's own, and stable memory holds
    /// exactly the engine's orders and counters.
    pub open spec fn wf(&self) -> bool {
        &&& self.engine().wf()
        &&& self.journal().order_bytes() == mirror_of(self.engine().orders())
        &&& counters_of(self.journal().settings()) == Some(
            (self.engine().next_id(), self.engine().total()),
        )
    }

    /// What an operation may do to the settings: write the counters, and
    /// nothing else.
    pub open spec fn settings_kept(&self, pre: &Service) -> bool {
        forall|k: u64|
            k != COUNTERS_KEY ==> {
                &&& self.journal().settings().contains_key(k)
                    == pre.journal().settings().contains_key(k)
                &&& self.journal().settings()[k] == pre.journal().settings()[k]
            }
    }

    /// The service over a journal: the engine is rebuilt from what the
    /// journal holds. Where that cannot have been written by a service, the
    /// journal is handed back untouched.
    pub fn over(journal: Journal) -> (service: Result<Service, Journal>)
        ensures
            service.is_ok() == sound_journal(journal.order_bytes(), journal.settings()),
            match service {
                Ok(s) => s.wf() && s.journal() == journal,
                Err(j) => j == journal,
            },
    {
        match journal.restore() {
            None => Err(journal),
            Some(engine) => {
                proof {
                    let bytes = journal.order_bytes();
                    let orders = engine.orders();
                    assert forall|k: u64| #[trigger] bytes.contains_key(k) == holds(orders, k) by {
                        assert(lookup(orders, k) == if bytes.contains_key(k) {
                            parse_order(bytes[k])
                        } else {
                            None
                        });
                    }
                    assert forall|k: u64| bytes.contains_key(k) implies #[trigger] bytes[k]
                        == encoding(lookup(orders, k).unwrap()) by {
                        assert(lookup(orders, k) == if bytes.contains_key(k) {
                            parse_order(bytes[k])
                        } else {
                            None
                        });
                        law_encode_inverts_decode(bytes[k]);
                    }
                    assert(bytes =~= mirror_of(orders));
                }
                Ok(Service { engine, journal })
            },
        }
    }

    /// Opens the service's stable memory and rebuilds the engine from it.
    /// A service does this once, when it starts. Returns `None` where the
    /// memory holds what no service can have written.
    pub fn open() -> (service: Option<Service>)
        ensures
            service.is_some() ==> service.unwrap().wf(),
    {
        match Service::over(Journal::open()) {
            Ok(service) => Some(service),
            Err(_) => None,
        }
    }

    /// Gives up the engine and hands back the journal, as it stands.
    pub fn close(self) -> (journal: Journal)
        ensures
            journal == self.journal(),
    {
        self.journal
    }

    /// The engine, to ask it what it holds.
    pub fn inspect(&self) -> (engine: &Engine)
        ensures
            *engine == self.engine(),
    {
        &self.engine
    }

    /// The journal, to read settings from it.
    pub fn records(&self) -> (journal: &Journal)
        ensures
            *journal == self.journal(),
    {
        &self.journal
    }

    /// Stores a setting of the service in stable memory. Keys 0 and 1 are
    /// the journal's own and are refused.
    pub fn put_setting(&mut self, key: u64, value: Vec<u8>) -> (done: bool)
        requires
            old(self).wf(),
        ensures
            final(self).wf(),
            final(self).engine() == old(self).engine(),
            done == (key != COUNTERS_KEY && key != crate::journal::STATE_KEY),
            final(self).journal().settings() == if done {
                old(self).journal().settings().insert(key, value@)
            } else {
                old(self).journal().settings()
            },
    {
        self.journal.put_setting(key, value)
    }

    /// Writes the engine's counters and the order with this id to stable
    /// memory, after an operation that changed no other order.
    fn record(&mut self, Ghost(pre): Ghost<Service>, order_id: u64)
        requires
            pre.wf(),
            old(self).engine.wf(),
            old(self).journal == pre.journal,
            old(self).engine.touches(&pre.engine, order_id),
            evolves(pre.engine.orders(), old(self).engine.orders()),
        ensures
            final(self).wf(),
            final(self).engine == old(self).engine,
            final(self).settings_kept(&pre),
    {
        self.journal.record(&self.engine, order_id);
        proof {
            assert forall|i: int| 0 <= i < pre.engine.orders().len() implies (
            #[trigger] pre.engine.orders()[i]).id == self.engine.orders()[i].id by {
                assert(pre.engine.orders()[i].same_terms(self.engine.orders()[i]));
            }
            lemma_record_keeps_mirror(pre.engine.orders(), self.engine.orders(), order_id);
            lemma_counters_roundtrip(self.engine.next_id(), self.engine.total());
        }
    }
    /// Creates an order, as `Engine::create_order` does, and writes it and
    /// the counters to stable memory.
    pub fn create_order(
        &mut self,
        payer: Principal,
        source: String,
        token: String,
        amount: u64,
        payment_type: PaymentType,
        now: u64,
    ) -> (info: Option<PaymentInfo>)
        requires
            old(self).wf(),
            payer.wf(),
        ensures
            final(self).wf(),
            final(self).settings_kept(old(self)),
            evolves(old(self).engine().orders(), final(self).engine().orders()),
            final(self).engine().created(
                &old(self).engine(),
                payer@,
                source@,
                token@,
                amount,
                payment_type@,
                now,
                match info {
                    Some(i) => Some(i@),
                    None => None,
                },
            ),
    {
        let ghost pre = *self;
        let info = self.engine.create_order(payer, source, token, amount, payment_type, now);
        match &info {
            None => {},
            Some(made) => {
                self.journal.record(&self.engine, made.id);
                proof {
                    let before = pre.engine.orders();
                    let fresh = self.engine.orders()[before.len() as int];
                    assert(self.engine.orders() == before.push(fresh));
                    assert forall|j: int| 0 <= j < before.len() implies before[j].id
                        < fresh.id by {
                        assert(before[j].id < pre.engine.next_id());
                    }
                    law_record_follows_creation(before, fresh);
                    lemma_lookup_at(self.engine.orders(), before.len() as int);
                    lemma_counters_roundtrip(self.engine.next_id(), self.engine.total());
                }
            },
        }
        info
    }

    /// Starts the confirmation of an order, as
    /// `Engine::confirm_payment_order` does, and writes the order to stable
    /// memory before the step is handed back: an order that is `Verifying`
    /// is stored as such before the ledger is asked.
    pub fn confirm_payment_order(&mut self, order_id: u64, now: u64) -> (step: Step)
        requires
            old(self).wf(),
        ensures
            final(self).wf(),
            final(self).settings_kept(old(self)),
            evolves(old(self).engine().orders(), final(self).engine().orders()),
            final(self).engine().confirm_begun(&old(self).engine(), order_id, now, step@),
    {
        let ghost pre = *self;
        let step = self.engine.confirm_payment_order(order_id, now);
        self.record(Ghost(pre), order_id);
        step
    }

    /// Goes on with a confirmation that asked for a balance, as
    /// `Engine::confirm_with_balance` does, and writes the order to stable
    /// memory.
    pub fn confirm_with_balance(&mut self, order_id: u64, balance: u64, now: u64) -> (step: Option<
        Step,
    >)
        requires
            old(self).wf(),
        ensures
            final(self).wf(),
            final(self).settings_kept(old(self)),
            evolves(old(self).engine().orders(), final(self).engine().orders()),
            final(self).engine().balance_settled(
                &old(self).engine(),
                order_id,
                balance,
                now,
                step_view(step),
            ),
    {
        let ghost pre = *self;
        let step = self.engine.confirm_with_balance(order_id, balance, now);
        self.record(Ghost(pre), order_id);
        step
    }

    /// Ends a confirmation that asked for the transfer to the treasury, as
    /// `Engine::confirm_with_transfer` does, and writes the order to stable
    /// memory.
    pub fn confirm_with_transfer(&mut self, order_id: u64, transferred: bool, now: u64) -> (step:
        Option<Step>)
        requires
            old(self).wf(),
        ensures
            final(self).wf(),
            final(self).settings_kept(old(self)),
            evolves(old(self).engine().orders(), final(self).engine().orders()),
            final(self).engine().share_ended(
                &old(self).engine(),
                order_id,
                transferred,
                now,
                step_view(step),
            ),
    {
        let ghost pre = *self;
        let step = self.engine.confirm_with_transfer(order_id, transferred, now);
        self.record(Ghost(pre), order_id);
        step
    }

    /// Starts the refund of an order, as `Engine::refund_payment_order`
    /// does. No order changes, so stable memory is left as it is.
    pub fn refund_payment_order(&mut self, order_id: u64, caller: &Principal) -> (step: Step)
        requires
            old(self).wf(),
        ensures
            final(self).wf(),
            final(self).journal() == old(self).journal(),
            evolves(old(self).engine().orders(), final(self).engine().orders()),
            final(self).engine().refund_begun(&old(self).engine(), order_id, caller@, step@),
    {
        self.engine.refund_payment_order(order_id, caller)
    }

    /// Goes on with a refund that asked for a balance, as
    /// `Engine::refund_with_balance` does. No order changes, so stable
    /// memory is left as it is.
    pub fn refund_with_balance(&mut self, order_id: u64, to: Vec<u8>, balance: u64) -> (step:
        Option<Step>)
        requires
            old(self).wf(),
        ensures
            final(self).wf(),
            final(self).journal() == old(self).journal(),
            evolves(old(self).engine().orders(), final(self).engine().orders()),
            final(self).engine().refund_planned(
                &old(self).engine(),
                order_id,
                to@,
                balance,
                step_view(step),
            ),
    {
        self.engine.refund_with_balance(order_id, to, balance)
    }

    /// Ends a refund that asked for a transfer, as
    /// `Engine::refund_with_transfer` does, and writes the order to stable
    /// memory.
    pub fn refund_with_transfer(&mut self, order_id: u64, transferred: bool, now: u64) -> (step:
        Option<Step>)
        requires
            old(self).wf(),
        ensures
            final(self).wf(),
            final(self).settings_kept(old(self)),
            evolves(old(self).engine().orders(), final(self).engine().orders()),
            final(self).engine().refund_ended(
                &old(self).engine(),
                order_id,
                transferred,
                now,
                step_view(step),
            ),
    {
        let ghost pre = *self;
        let step = self.engine.refund_with_transfer(order_id, transferred, now);
        self.record(Ghost(pre), order_id);
        step
    }
}

} // verus!
