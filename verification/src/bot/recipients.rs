//! Recipients: chats in order, each once.

use vstd::prelude::*;

use crate::panel::models::{client_models, Client, ClientModel};

verus! {

/// The numbers grow.
pub open spec fn growing(s: Seq<i64>) -> bool {
    forall|i: int, j: int| 0 <= i < j < s.len() ==> #[trigger] s[i] < #[trigger] s[j]
}

/// Puts a number into its place among numbers that grow, unless it is there.
pub fn insert_recipient(list: &mut Vec<i64>, id: i64)
    requires
        growing(old(list)@),
    ensures
        growing(final(list)@),
        forall|x: i64|
            final(list)@.contains(x) <==> old(list)@.contains(x) || x == id,
{
    let ghost before = list@;
    let mut i: usize = 0;
    while i < list.len() && list[i] < id
        invariant
            i <= list@.len(),
            list@ == before,
            forall|k: int| 0 <= k < i ==> #[trigger] before[k] < id,
        decreases list@.len() - i,
    {
        i = i + 1;
    }
    if i < list.len() && list[i] == id {
        assert(before[i as int] == id);
        return ;
    }
    list.insert(i, id);
    proof {
        let after = list@;
        assert(after == before.insert(i as int, id));
        assert forall|x: i64| after.contains(x) <==> before.contains(x) || x == id by {
            if before.contains(x) {
                let k = choose|k: int| 0 <= k < before.len() && before[k] == x;
                if k < i {
                    assert(after[k] == x);
                } else {
                    assert(after[k + 1] == x);
                }
            }
            if x == id {
                assert(after[i as int] == x);
            }
            if after.contains(x) && x != id {
                let k = choose|k: int| 0 <= k < after.len() && after[k] == x;
                if k < i {
                    assert(before[k] == x);
                } else {
                    assert(before[k - 1] == x);
                }
            }
        }
    }
}

/// One of the clients has that chat.
pub open spec fn has_chat(clients: Seq<ClientModel>, id: i64) -> bool {
    exists|i: int| 0 <= i < clients.len() && (#[trigger] clients[i]).chat() == Some(id)
}

/// The chats of the clients.
pub fn client_recipients(clients: &Vec<Client>) -> (r: Vec<i64>)
    ensures
        growing(r@),
        forall|id: i64| r@.contains(id) <==> has_chat(client_models(clients@), id),
{
    let ghost all = client_models(clients@);
    let mut out: Vec<i64> = Vec::new();
    let mut i: usize = 0;
    while i < clients.len()
        invariant
            i <= clients@.len(),
            all == client_models(clients@),
            growing(out@),
            forall|id: i64| out@.contains(id) <==> has_chat(all.take(i as int), id),
        decreases clients@.len() - i,
    {
        let ghost before = out@;
        let ghost head = all.take(i as int);
        let ghost next = all.take(i + 1);
        let ghost client = all[i as int];
        assert(client == clients@[i as int]@);
        if let Some(id) = clients[i].telegram_chat_id() {
            insert_recipient(&mut out, id);
        }
        proof {
            assert forall|id: i64| out@.contains(id) <==> has_chat(next, id) by {
                if has_chat(head, id) {
                    let k = choose|k: int| 0 <= k < head.len() && (#[trigger] head[k]).chat() == Some(
                        id,
                    );
                    assert(next[k].chat() == Some(id));
                }
                if client.chat() == Some(id) {
                    assert(next[i as int].chat() == Some(id));
                }
                if has_chat(next, id) {
                    let k = choose|k: int| 0 <= k < next.len() && (#[trigger] next[k]).chat() == Some(
                        id,
                    );
                    if k < i {
                        assert(head[k].chat() == Some(id));
                    }
                }
                assert(before.contains(id) <==> has_chat(head, id));
            }
        }
        i = i + 1;
    }
    assert(all.take(i as int) =~= all);
    out
}

/// A list of recipients is fixed by whom it holds: two lists that grow and hold the same chats are
/// equal.
pub proof fn recipients_are_determined(a: Seq<i64>, b: Seq<i64>)
    requires
        growing(a),
        growing(b),
        forall|id: i64| a.contains(id) <==> b.contains(id),
    ensures
        a == b,
    decreases a.len(),
{
    if a.len() == 0 {
        if b.len() > 0 {
            assert(b.contains(b[0]));
        }
        assert(a =~= b);
    } else {
        assert(a.contains(a.last()));
        let k = choose|k: int| 0 <= k < b.len() && b[k] == a.last();
        assert(b.contains(b.last()));
        let m = choose|m: int| 0 <= m < a.len() && a[m] == b.last();
        assert(b.last() == a.last()) by {
            assert(b[b.len() - 1] >= b[k]);
            assert(a[a.len() - 1] >= a[m]);
        }
        let x = a.drop_last();
        let y = b.drop_last();
        assert forall|id: i64| x.contains(id) <==> y.contains(id) by {
            if x.contains(id) {
                let i = choose|i: int| 0 <= i < x.len() && x[i] == id;
                assert(a[i] == id);
                assert(a.contains(id));
                let j = choose|j: int| 0 <= j < b.len() && b[j] == id;
                assert(a[i] < a[a.len() - 1]);
                assert(y[j] == id);
            }
            if y.contains(id) {
                let i = choose|i: int| 0 <= i < y.len() && y[i] == id;
                assert(b[i] == id);
                assert(b.contains(id));
                let j = choose|j: int| 0 <= j < a.len() && a[j] == id;
                assert(b[i] < b[b.len() - 1]);
                assert(x[j] == id);
            }
        }
        recipients_are_determined(x, y);
        assert(a =~= x.push(a.last()));
        assert(b =~= y.push(b.last()));
    }
}

/// The number of deliveries that succeeded.
pub open spec fn delivered(results: Seq<bool>) -> nat
    decreases results.len(),
{
    if results.len() == 0 {
        0
    } else {
        delivered(results.drop_last()) + (if results.last() {
            1nat
        } else {
            0
        })
    }
}

/// Each delivery counts once, and only where it succeeded.
pub proof fn only_successes_are_counted(results: Seq<bool>)
    ensures
        delivered(results) == results.filter(|sent: bool| sent).len(),
        delivered(results) <= results.len(),
    decreases results.len(),
{
    reveal(Seq::filter);
    if results.len() > 0 {
        only_successes_are_counted(results.drop_last());
    }
}

/// A chat is reached exactly where it is the Telegram identifier, above zero, of one of the clients.
pub proof fn chats_are_identifiers_of_clients(clients: Seq<ClientModel>, id: i64)
    ensures
        has_chat(clients, id) <==> id > 0 && exists|i: int|
            0 <= i < clients.len() && (#[trigger] clients[i]).tg_id == id,
{
    if has_chat(clients, id) {
        let i = choose|i: int| 0 <= i < clients.len() && (#[trigger] clients[i]).chat() == Some(id);
        assert(clients[i].tg_id == id);
    }
    if id > 0 && exists|i: int| 0 <= i < clients.len() && (#[trigger] clients[i]).tg_id == id {
        let i = choose|i: int| 0 <= i < clients.len() && (#[trigger] clients[i]).tg_id == id;
        assert(clients[i].chat() == Some(id));
    }
}

/// The numbers of deliveries that succeeded and failed.
pub fn tally(results: &Vec<bool>) -> (r: (usize, usize))
    ensures
        r.0 == delivered(results@),
        r.0 + r.1 == results@.len(),
{
    let mut sent: usize = 0;
    let mut i: usize = 0;
    while i < results.len()
        invariant
            i <= results@.len(),
            sent <= i,
            sent == delivered(results@.take(i as int)),
        decreases results@.len() - i,
    {
        assert(results@.take(i + 1).drop_last() =~= results@.take(i as int));
        if results[i] {
            sent = sent + 1;
        }
        i = i + 1;
    }
    assert(results@.take(i as int) =~= results@);
    (sent, results.len() - sent)
}

} // verus!
