use vstd::prelude::*;

use crate::clients::Client;
use crate::clients::ClientModel;
use crate::clients::apply_fits;
use crate::clients::create_client;
use crate::clients::fresh_client;
use crate::clients::spec_apply;
use crate::transactions::Transaction;

verus! {

/// The models of a sequence of client ledgers, in order.
pub open spec fn clients_view(cs: Seq<Client>) -> Seq<ClientModel> {
    cs.map_values(|c: Client| c@)
}

/// True when every ledger in the sequence is well formed.
pub open spec fn all_wf(cs: Seq<Client>) -> bool {
    forall|i: int| 0 <= i < cs.len() ==> (#[trigger] cs[i]).wf()
}

/// The index of the first ledger belonging to client `id`, or `-1` when the
/// client has not been seen yet.
pub open spec fn find_client(cs: Seq<ClientModel>, id: u16) -> int
    decreases cs.len(),
{
    if cs.len() == 0 {
        -1
    } else if cs[0].id == id {
        0
    } else if find_client(cs.subrange(1, cs.len() as int), id) == -1 {
        -1
    } else {
        1 + find_client(cs.subrange(1, cs.len() as int), id)
    }
}

/// `find_client` returns either `-1`, and then no ledger belongs to the
/// client, or the first index of one that does.
pub proof fn lemma_find_client(cs: Seq<ClientModel>, id: u16)
    ensures
        -1 <= find_client(cs, id) < cs.len(),
        find_client(cs, id) == -1 ==> forall|j: int| 0 <= j < cs.len() ==> cs[j].id != id,
        find_client(cs, id) >= 0 ==> cs[find_client(cs, id)].id == id,
        find_client(cs, id) >= 0 ==> forall|j: int| 0 <= j < find_client(cs, id) ==> cs[j].id != id,
    decreases cs.len(),
{
    if cs.len() == 0 {
    } else if cs[0].id == id {
    } else {
        let rest = cs.subrange(1, cs.len() as int);
        lemma_find_client(rest, id);
        assert(forall|j: int| 1 <= j < cs.len() ==> cs[j] == rest[j - 1]);
    }
}

/// The ledger an event is routed to: the stored one carrying its client id,
/// or a fresh one created on first sight.
pub open spec fn route_target(cs: Seq<ClientModel>, tx: Transaction) -> ClientModel {
    let i = find_client(cs, tx.client_id);
    if i == -1 {
        fresh_client(tx.client_id)
    } else {
        cs[i]
    }
}

/// The effect of routing one event: the target ledger, created on first
/// sight of its client id, has the event applied in place.
pub open spec fn spec_process(cs: Seq<ClientModel>, tx: Transaction) -> Seq<ClientModel> {
    let i = find_client(cs, tx.client_id);
    if i == -1 {
        cs.push(spec_apply(fresh_client(tx.client_id), tx))
    } else {
        cs.update(i, spec_apply(cs[i], tx))
    }
}

/// Law: routing keeps every ledger balanced — after any event, each total
/// still equals its available part plus its held part.
pub proof fn lemma_process_balanced(cs: Seq<ClientModel>, tx: Transaction)
    requires
        forall|i: int| 0 <= i < cs.len() ==> (#[trigger] cs[i]).balanced(),
    ensures
        forall|i: int|
            0 <= i < spec_process(cs, tx).len() ==> (#[trigger] spec_process(cs, tx)[i]).balanced(),
{
    lemma_find_client(cs, tx.client_id);
    let k = find_client(cs, tx.client_id);
    if k == -1 {
        crate::clients::lemma_apply_balanced(fresh_client(tx.client_id), tx);
    } else {
        crate::clients::lemma_apply_balanced(cs[k], tx);
    }
}

/// Law: routing never clears a lock — a ledger locked before an event is
/// still locked after it.
pub proof fn lemma_process_locked_monotonic(cs: Seq<ClientModel>, tx: Transaction)
    ensures
        forall|i: int|
            0 <= i < cs.len() && cs[i].locked ==> (#[trigger] spec_process(cs, tx)[i]).locked,
{
    lemma_find_client(cs, tx.client_id);
    let k = find_client(cs, tx.client_id);
    if k >= 0 {
        crate::clients::lemma_apply_locked_monotonic(cs[k], tx);
    }
}

/// Routes one event to the ledger of its client, creating that ledger the
/// first time the client id is seen, and applies it there.
///
/// The event is applied exactly when the balances it would write stay
/// within `i64`; otherwise the ledgers are left untouched and `false` comes
/// back.
#[verifier::loop_isolation(false)]
pub fn process_transaction(clients: &mut Vec<Client>, tx: &Transaction) -> (applied: bool)
    requires
        all_wf(old(clients)@),
        tx.wf(),
    ensures
        applied == apply_fits(route_target(clients_view(old(clients)@), *tx), *tx),
        applied ==> clients_view(final(clients)@) == spec_process(
            clients_view(old(clients)@),
            *tx,
        ),
        !applied ==> final(clients)@ == old(clients)@,
        all_wf(final(clients)@),
{
    let ghost view0 = clients_view(old(clients)@);
    proof {
        assert(forall|j: int| 0 <= j < view0.len() ==> view0[j] == #[trigger] old(clients)@[j]@);
        lemma_find_client(view0, tx.client_id);
    }
    let n: usize = clients.len();
    let mut k: usize = 0;
    while k < n
        invariant
            n == clients@.len(),
            k <= n,
            *clients == *old(clients),
            forall|j: int| 0 <= j < k ==> clients@[j].id != tx.client_id,
        decreases n - k,
    {
        if clients[k].id == tx.client_id {
            proof {
                assert(view0[k as int].id == tx.client_id);
                assert(find_client(view0, tx.client_id) == k);
            }
            let fits = clients[k].can_apply(tx);
            if fits {
                tx.calculate_transaction(&mut clients[k]);
                proof {
                    assert(clients_view(clients@) =~= spec_process(view0, *tx));
                }
                return true;
            } else {
                return false;
            }
        }
        k += 1;
    }
    proof {
        assert(find_client(view0, tx.client_id) == -1);
    }
    let mut c = create_client(tx.client_id);
    let fits = c.can_apply(tx);
    if fits {
        tx.calculate_transaction(&mut c);
        clients.push(c);
        proof {
            assert(clients_view(clients@) =~= spec_process(view0, *tx));
        }
        true
    } else {
        false
    }
}

} // verus!
