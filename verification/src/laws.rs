//! What holds of the library as a whole, proved from the definitions that
//! the contracts are stated over.

use crate::engine::{
    confirm_stage, confirm_step, evolves, refund_step, rewritten, StepView, Stage,
};
use crate::error::PaymentError;
use crate::helper_utils::{be_bytes_u64, domain_tag, order_subaccount, subaccount_preimage};
use crate::lifecycle::{after_confirm_start, refund_check, refund_result};
use crate::order::{status_step, OrderView, PaymentStatus};
use crate::store::{ascending, holds, index_of, lemma_index_of, lookup};
use vstd::prelude::*;

verus! {

/// The deposit subaccount is a function of payer and order id alone: the
/// same inputs give the same subaccount, whenever and wherever it is
/// derived.
pub proof fn law_derivation_deterministic(
    payer_a: Seq<u8>,
    id_a: u64,
    payer_b: Seq<u8>,
    id_b: u64,
)
    requires
        payer_a == payer_b,
        id_a == id_b,
    ensures
        order_subaccount(payer_a, id_a) == order_subaccount(payer_b, id_b),
{
}

/// Two ids with the same eight big-endian bytes are the same id.
pub proof fn lemma_be_bytes_injective(x: u64, y: u64)
    requires
        be_bytes_u64(x) == be_bytes_u64(y),
    ensures
        x == y,
{
    let a = be_bytes_u64(x);
    let b = be_bytes_u64(y);
    assert(a[0] == b[0] && a[1] == b[1] && a[2] == b[2] && a[3] == b[3] && a[4] == b[4] && a[5]
        == b[5] && a[6] == b[6] && a[7] == b[7]);
    assert(x == y) by (bit_vector)
        requires
            (x >> 56) as u8 == (y >> 56) as u8,
            ((x >> 48) & 0xff) as u8 == ((y >> 48) & 0xff) as u8,
            ((x >> 40) & 0xff) as u8 == ((y >> 40) & 0xff) as u8,
            ((x >> 32) & 0xff) as u8 == ((y >> 32) & 0xff) as u8,
            ((x >> 24) & 0xff) as u8 == ((y >> 24) & 0xff) as u8,
            ((x >> 16) & 0xff) as u8 == ((y >> 16) & 0xff) as u8,
            ((x >> 8) & 0xff) as u8 == ((y >> 8) & 0xff) as u8,
            (x & 0xff) as u8 == (y & 0xff) as u8,
    ;
}

/// Changing the payer or the order id changes what is hashed: no two
/// different pairs share a preimage. That the digests then differ too rests
/// on the hash function and is not claimed here.
pub proof fn law_preimage_injective(payer_a: Seq<u8>, id_a: u64, payer_b: Seq<u8>, id_b: u64)
    requires
        subaccount_preimage(payer_a, id_a) == subaccount_preimage(payer_b, id_b),
    ensures
        payer_a == payer_b,
        id_a == id_b,
{
    let pa = subaccount_preimage(payer_a, id_a);
    let pb = subaccount_preimage(payer_b, id_b);
    let tag = domain_tag();
    assert(pa.len() == 14 + payer_a.len());
    assert(pb.len() == 14 + payer_b.len());
    assert(be_bytes_u64(id_a) =~= pa.subrange(6, 14));
    assert(be_bytes_u64(id_b) =~= pb.subrange(6, 14));
    lemma_be_bytes_injective(id_a, id_b);
    assert(payer_a =~= pa.subrange(14, pa.len() as int));
    assert(payer_b =~= pb.subrange(14, pb.len() as int));
}

/// Confirming a `Paid` order is a no-op that reports success: the order,
/// with its verification time, stays exactly as it is, and no ledger call
/// is asked for.
pub proof fn law_confirm_paid_idempotent(o: OrderView, now: u64)
    requires
        o.status == PaymentStatus::Paid,
    ensures
        confirm_step(o, now) == StepView::Done(Ok(true)),
        after_confirm_start(o, now) == o,
        confirm_stage(o, now) == Stage::Idle,
{
}

/// A refund asked for by anyone but the payer is refused as `Unauthorized`,
/// whatever the order's status, the balance found, or the outcome of any
/// transfer.
pub proof fn law_refund_needs_payer(
    o: OrderView,
    caller: Seq<u8>,
    balance: u64,
    transferred: bool,
)
    requires
        caller != o.payer,
    ensures
        refund_check(o, caller) == Err::<crate::payment::Token, PaymentError>(
            PaymentError::Unauthorized,
        ),
        refund_step(o, caller) == StepView::Done(Err(PaymentError::Unauthorized)),
        refund_result(o, caller, balance, transferred) == Err::<bool, PaymentError>(
            PaymentError::Unauthorized,
        ),
{
}

/// Some path of the status graph leads from one status to the other.
pub open spec fn reachable(from: PaymentStatus, to: PaymentStatus) -> bool {
    from == to || match from {
        PaymentStatus::Unpaid => true,
        PaymentStatus::Verifying => true,
        PaymentStatus::TimedOut => to == PaymentStatus::Refunded,
        PaymentStatus::Paid => false,
        PaymentStatus::Refunded => false,
    }
}

/// A history of observed statuses in which each follows from the one
/// before by at most one edge of the status graph.
pub open spec fn valid_history(history: Seq<PaymentStatus>) -> bool {
    forall|k: int| 0 <= k < history.len() - 1 ==> status_step(#[trigger] history[k], history[k + 1])
}

/// Every status that is observed later lies on a path of the status graph
/// from every status observed earlier.
pub proof fn law_history_follows_graph(history: Seq<PaymentStatus>, i: int, j: int)
    requires
        valid_history(history),
        0 <= i <= j < history.len(),
    ensures
        reachable(history[i], history[j]),
    decreases j - i,
{
    if i < j {
        law_history_follows_graph(history, i, j - 1);
        assert(status_step(history[j - 1], history[j]));
    }
}

/// `Paid` is never followed by another status: not by `Unpaid`, not by
/// `Verifying`, not by any.
pub proof fn law_paid_is_final(history: Seq<PaymentStatus>, i: int, j: int)
    requires
        valid_history(history),
        0 <= i <= j < history.len(),
        history[i] == PaymentStatus::Paid,
    ensures
        history[j] == PaymentStatus::Paid,
{
    law_history_follows_graph(history, i, j);
}

/// What the engine's operations promise of the orders carries over any run
/// of them: orders are kept, their terms stay, and each status moves along
/// the graph.
pub proof fn law_evolution_composes(a: Seq<OrderView>, b: Seq<OrderView>, c: Seq<OrderView>)
    requires
        evolves(a, b),
        evolves(b, c),
    ensures
        a.len() <= c.len(),
        forall|i: int|
            0 <= i < a.len() ==> {
                &&& (#[trigger] a[i]).same_terms(c[i])
                &&& reachable(a[i].status, c[i].status)
                &&& a[i].status == PaymentStatus::Paid ==> c[i].status == PaymentStatus::Paid
                    && c[i].amount_paid == a[i].amount_paid && c[i].verified_time
                    == a[i].verified_time
            },
{
    assert forall|i: int| 0 <= i < a.len() implies {
        &&& (#[trigger] a[i]).same_terms(c[i])
        &&& reachable(a[i].status, c[i].status)
        &&& a[i].status == PaymentStatus::Paid ==> c[i].status == PaymentStatus::Paid
            && c[i].amount_paid == a[i].amount_paid && c[i].verified_time == a[i].verified_time
    } by {
        assert(a[i].same_terms(b[i]));
        assert(b[i].same_terms(c[i]));
    }
}

/// Replacing the order under an id changes what is found under that id and
/// nothing else.
pub proof fn law_rewrite_is_local(s: Seq<OrderView>, id: u64, o: OrderView, other: u64)
    requires
        ascending(s),
        holds(s, id),
        o.id == id,
    ensures
        ascending(rewritten(s, id, o)),
        lookup(rewritten(s, id, o), id) == Some(o),
        other != id ==> lookup(rewritten(s, id, o), other) == lookup(s, other),
{
    let r = rewritten(s, id, o);
    let i = index_of(s, id);
    assert forall|a: int, b: int| 0 <= a < b < r.len() implies r[a].id < r[b].id by {
        assert(r[a].id == s[a].id);
        assert(r[b].id == s[b].id);
    }
    assert(r[i] == o);
    lemma_index_of(r, i);
    if other != id {
        if holds(s, other) {
            let k = index_of(s, other);
            assert(r[k] == s[k]);
            lemma_index_of(r, k);
        } else if holds(r, other) {
            let k = index_of(r, other);
            assert(s[k].id == other);
            assert(false);
        }
    }
}

/// Rewriting an order by itself leaves the orders as they are.
pub proof fn law_rewrite_same(s: Seq<OrderView>, id: u64)
    requires
        ascending(s),
        holds(s, id),
    ensures
        rewritten(s, id, lookup(s, id).unwrap()) == s,
{
    let o = lookup(s, id).unwrap();
    let i = index_of(s, id);
    assert forall|k: int| 0 <= k < s.len() implies rewritten(s, id, o)[k] == s[k] by {
        if s[k].id == id {
            lemma_index_of(s, k);
        }
    }
    assert(rewritten(s, id, o) =~= s);
}

} // verus!
