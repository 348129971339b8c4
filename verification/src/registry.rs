//! The connection registry: the shared table from connection id to that
//! session's outbound channel.  Registering is last-writer-wins, removal is
//! idempotent, and a broadcast attempts to enqueue on every entry — one
//! dead channel never stops delivery to the others, and never removes the
//! entry itself: the owning writer task does that when it next fails.
//!
//! The channel handles are tokio unbounded senders; enqueueing is the one
//! outside call, and it is non-blocking, so a broadcast holds no lock over
//! any network wait.

use vstd::prelude::*;
use tokio::sync::mpsc::UnboundedSender;
use crate::bytestr::bytes_eq;

verus! {

/// The outbound channel handle of one session (tokio's unbounded sender,
/// declared so that it can stand in fields and signatures).
#[verifier::external_type_specification]
#[verifier::external_body]
#[verifier::reject_recursive_types(T)]
pub struct ExUnboundedSender<T>(UnboundedSender<T>);

/// Relies on tokio's `UnboundedSender::send`: it enqueues the message and
/// returns `Ok` unless the receiver half is closed or dropped; sending
/// never blocks.  Which of the two happens depends on the channel's state
/// at the call, so nothing more is promised.
#[verifier::external_body]
fn chan_send(tx: &UnboundedSender<Vec<u8>>, msg: Vec<u8>) -> (ok: bool) {
    tx.send(msg).is_ok()
}

/// Relies on tokio's `UnboundedSender::clone`: a clone is another handle to
/// the same channel; the registry treats handles to the same channel as the
/// same value.
#[verifier::external_body]
fn clone_sender(tx: &UnboundedSender<Vec<u8>>) -> (r: UnboundedSender<Vec<u8>>)
    ensures
        r == *tx,
{
    tx.clone()
}

/// The view of one entry: the id's bytes and the channel handle.
pub open spec fn rentry_view(e: (Vec<u8>, UnboundedSender<Vec<u8>>)) -> (
    Seq<u8>,
    UnboundedSender<Vec<u8>>,
) {
    (e.0@, e.1)
}

/// The view of the entry list.
pub open spec fn rentries_view(es: Seq<(Vec<u8>, UnboundedSender<Vec<u8>>)>) -> Seq<
    (Seq<u8>, UnboundedSender<Vec<u8>>),
> {
    es.map_values(|e: (Vec<u8>, UnboundedSender<Vec<u8>>)| rentry_view(e))
}

/// The mapping a list of entries denotes: later entries win.
pub open spec fn reg_map_of(es: Seq<(Seq<u8>, UnboundedSender<Vec<u8>>)>) -> Map<
    Seq<u8>,
    UnboundedSender<Vec<u8>>,
>
    decreases es.len(),
{
    if es.len() == 0 {
        Map::empty()
    } else {
        reg_map_of(es.drop_last()).insert(es.last().0, es.last().1)
    }
}

/// Entries with a given id dropped.
pub open spec fn drop_id(es: Seq<(Seq<u8>, UnboundedSender<Vec<u8>>)>, id: Seq<u8>) -> Seq<
    (Seq<u8>, UnboundedSender<Vec<u8>>),
>
    decreases es.len(),
{
    if es.len() == 0 {
        Seq::empty()
    } else {
        drop_id(es.drop_last(), id) + (if es.last().0 == id {
            Seq::<(Seq<u8>, UnboundedSender<Vec<u8>>)>::empty()
        } else {
            seq![es.last()]
        })
    }
}

proof fn lemma_drop_id_map(es: Seq<(Seq<u8>, UnboundedSender<Vec<u8>>)>, id: Seq<u8>)
    ensures
        reg_map_of(drop_id(es, id)) =~= reg_map_of(es).remove(id),
        forall|i: int| 0 <= i < drop_id(es, id).len() ==> (#[trigger] drop_id(es, id)[i]).0 != id,
        drop_id(es, id).len() <= es.len(),
    decreases es.len(),
{
    if es.len() == 0 {
        assert(drop_id(es, id) =~= Seq::<(Seq<u8>, UnboundedSender<Vec<u8>>)>::empty());
        assert(reg_map_of(es).remove(id) =~= Map::<Seq<u8>, UnboundedSender<Vec<u8>>>::empty());
    } else {
        lemma_drop_id_map(es.drop_last(), id);
        let p = es.last();
        if p.0 == id {
            assert(drop_id(es, id) =~= drop_id(es.drop_last(), id));
            assert(reg_map_of(es).remove(id) =~= reg_map_of(es.drop_last()).remove(id));
        } else {
            let d = drop_id(es, id);
            assert(d =~= drop_id(es.drop_last(), id).push(p));
            assert(d.last() == p);
            assert(d.drop_last() =~= drop_id(es.drop_last(), id));
            assert(reg_map_of(d) =~= reg_map_of(drop_id(es.drop_last(), id)).insert(p.0, p.1));
            assert(reg_map_of(d) =~= reg_map_of(es).remove(id));
        }
    }
}

/// Pairwise distinct ids.
pub open spec fn distinct_ids(es: Seq<(Seq<u8>, UnboundedSender<Vec<u8>>)>) -> bool {
    forall|i: int, j: int| 0 <= i < j < es.len() ==> (#[trigger] es[i]).0 != (#[trigger] es[j]).0
}

proof fn lemma_reg_dom(es: Seq<(Seq<u8>, UnboundedSender<Vec<u8>>)>)
    requires
        distinct_ids(es),
    ensures
        reg_map_of(es).dom().finite(),
        reg_map_of(es).dom().len() == es.len(),
        forall|k: Seq<u8>|
            reg_map_of(es).dom().contains(k) <==> exists|i: int|
                0 <= i < es.len() && (#[trigger] es[i]).0 == k,
    decreases es.len(),
{
    if es.len() == 0 {
        assert(reg_map_of(es).dom() =~= Set::<Seq<u8>>::empty());
    } else {
        assert(distinct_ids(es.drop_last())) by {
            assert(forall|i: int| 0 <= i < es.len() - 1 ==> #[trigger] es.drop_last()[i] == es[i]);
        }
        lemma_reg_dom(es.drop_last());
        let p = es.last();
        assert(reg_map_of(es).dom() =~= reg_map_of(es.drop_last()).dom().insert(p.0));
        assert(!reg_map_of(es.drop_last()).dom().contains(p.0)) by {
            assert(forall|i: int|
                0 <= i < es.len() - 1 ==> (#[trigger] es.drop_last()[i]).0 == es[i].0);
        }
        assert forall|k: Seq<u8>| reg_map_of(es).dom().contains(k) implies exists|i: int|
            0 <= i < es.len() && (#[trigger] es[i]).0 == k by {
            if k == p.0 {
                assert(es[es.len() - 1].0 == k);
            } else {
                let i = choose|i: int|
                    0 <= i < es.drop_last().len() && (#[trigger] es.drop_last()[i]).0 == k;
                assert(es[i].0 == k);
            }
        }
        assert forall|k: Seq<u8>|
            (exists|i: int| 0 <= i < es.len() && (#[trigger] es[i]).0 == k) implies reg_map_of(
            es,
        ).dom().contains(k) by {
            let i = choose|i: int| 0 <= i < es.len() && (#[trigger] es[i]).0 == k;
            if i < es.len() - 1 {
                assert(es.drop_last()[i].0 == k);
            }
        }
    }
}

proof fn lemma_drop_id_distinct(es: Seq<(Seq<u8>, UnboundedSender<Vec<u8>>)>, id: Seq<u8>)
    requires
        distinct_ids(es),
    ensures
        distinct_ids(drop_id(es, id)),
    decreases es.len(),
{
    if es.len() > 0 {
        assert(distinct_ids(es.drop_last())) by {
            assert(forall|i: int| 0 <= i < es.len() - 1 ==> #[trigger] es.drop_last()[i] == es[i]);
        }
        lemma_drop_id_distinct(es.drop_last(), id);
        let p = es.last();
        if p.0 == id {
            assert(drop_id(es, id) =~= drop_id(es.drop_last(), id));
        } else {
            let d = drop_id(es, id);
            assert(d =~= drop_id(es.drop_last(), id).push(p));
            assert forall|i: int, j: int| 0 <= i < j < d.len() implies (#[trigger] d[i]).0 != (
            #[trigger] d[j]).0 by {
                if j < d.len() - 1 {
                    assert(d[i] == drop_id(es.drop_last(), id)[i]);
                    assert(d[j] == drop_id(es.drop_last(), id)[j]);
                } else {
                    assert(d[j] == p);
                    lemma_drop_id_in(es.drop_last(), id, i);
                }
            }
        }
    }
}

/// Every dropped-list entry appears in the source list.
proof fn lemma_drop_id_in(es: Seq<(Seq<u8>, UnboundedSender<Vec<u8>>)>, id: Seq<u8>, i: int)
    requires
        0 <= i < drop_id(es, id).len(),
    ensures
        exists|j: int| 0 <= j < es.len() && #[trigger] es[j] == drop_id(es, id)[i],
    decreases es.len(),
{
    if es.len() > 0 {
        let p = es.last();
        if p.0 == id {
            assert(drop_id(es, id) =~= drop_id(es.drop_last(), id));
            lemma_drop_id_in(es.drop_last(), id, i);
            let j = choose|j: int|
                0 <= j < es.drop_last().len() && #[trigger] es.drop_last()[j] == drop_id(
                    es.drop_last(),
                    id,
                )[i];
            assert(es[j] == drop_id(es, id)[i]);
        } else {
            let d = drop_id(es, id);
            assert(d =~= drop_id(es.drop_last(), id).push(p));
            if i == d.len() - 1 {
                assert(es[es.len() - 1] == d[i]);
            } else {
                lemma_drop_id_in(es.drop_last(), id, i);
                let j = choose|j: int|
                    0 <= j < es.drop_last().len() && #[trigger] es.drop_last()[j] == drop_id(
                        es.drop_last(),
                        id,
                    )[i];
                assert(es[j] == d[i]);
            }
        }
    }
}

/// The connection registry.
pub struct Registry {
    entries: Vec<(Vec<u8>, UnboundedSender<Vec<u8>>)>,
}

impl View for Registry {
    type V = Map<Seq<u8>, UnboundedSender<Vec<u8>>>;

    closed spec fn view(&self) -> Map<Seq<u8>, UnboundedSender<Vec<u8>>> {
        reg_map_of(rentries_view(self.entries@))
    }
}

impl Registry {
    /// Each id is recorded once.
    pub closed spec fn wf(&self) -> bool {
        distinct_ids(rentries_view(self.entries@))
    }

    /// An empty registry.
    pub fn new() -> (r: Registry)
        ensures
            r.wf(),
            r@ =~= Map::<Seq<u8>, UnboundedSender<Vec<u8>>>::empty(),
    {
        let r = Registry { entries: Vec::new() };
        proof {
            assert(rentries_view(r.entries@) =~= Seq::<
                (Seq<u8>, UnboundedSender<Vec<u8>>),
            >::empty());
            assert(r@ =~= Map::<Seq<u8>, UnboundedSender<Vec<u8>>>::empty());
        }
        r
    }

    /// Drop the entry with this id, keeping all others, in order.
    fn retain_others(&mut self, id: &[u8])
        ensures
            rentries_view(final(self).entries@) == drop_id(
                rentries_view(old(self).entries@),
                id@,
            ),
    {
        let ghost oldv = rentries_view(self.entries@);
        let mut out: Vec<(Vec<u8>, UnboundedSender<Vec<u8>>)> = Vec::new();
        let mut t: usize = 0;
        let n = self.entries.len();
        proof {
            assert(oldv.subrange(0, 0) =~= Seq::<(Seq<u8>, UnboundedSender<Vec<u8>>)>::empty());
            assert(drop_id(oldv.subrange(0, 0), id@) =~= rentries_view(out@));
        }
        while t < n
            invariant
                t <= n,
                n == self.entries@.len(),
                oldv == rentries_view(self.entries@),
                rentries_view(out@) == drop_id(oldv.subrange(0, t as int), id@),
            decreases n - t,
        {
            let ghost pre = oldv.subrange(0, t as int + 1);
            let ghost outv = rentries_view(out@);
            proof {
                assert(pre.last() == oldv[t as int]);
                assert(pre.drop_last() =~= oldv.subrange(0, t as int));
            }
            if !bytes_eq(self.entries[t].0.as_slice(), id) {
                let key_copy = vstd::slice::slice_to_vec(self.entries[t].0.as_slice());
                let tx = clone_sender(&self.entries[t].1);
                out.push((key_copy, tx));
                proof {
                    assert(rentries_view(out@) =~= outv + seq![oldv[t as int]]);
                }
            }
            proof {
                assert(rentries_view(out@) =~= drop_id(oldv.subrange(0, t as int + 1), id@));
            }
            t += 1;
        }
        proof {
            assert(oldv.subrange(0, n as int) =~= oldv);
        }
        self.entries = out;
    }

    /// Insert unconditionally; the last writer for an id wins.
    pub fn register(&mut self, id: Vec<u8>, tx: UnboundedSender<Vec<u8>>)
        requires
            old(self).wf(),
        ensures
            final(self).wf(),
            final(self)@ =~= old(self)@.insert(id@, tx),
    {
        let ghost oldv = rentries_view(self.entries@);
        let ghost idv = id@;
        self.retain_others(id.as_slice());
        let ghost kept = rentries_view(self.entries@);
        let ghost txv = tx;
        self.entries.push((id, tx));
        proof {
            assert(rentries_view(self.entries@) =~= kept.push((idv, txv)));
            let full = kept.push((idv, txv));
            assert(full.drop_last() =~= kept);
            assert(full.last() == (idv, txv));
            assert(reg_map_of(full) =~= reg_map_of(kept).insert(idv, txv));
            lemma_drop_id_map(oldv, idv);
            assert(self@ =~= old(self)@.insert(idv, txv));
            lemma_drop_id_distinct(oldv, idv);
            assert forall|i: int, j: int| 0 <= i < j < full.len() implies (
            #[trigger] full[i]).0 != (#[trigger] full[j]).0 by {
                if j < full.len() - 1 {
                    assert(full[i] == kept[i] && full[j] == kept[j]);
                } else {
                    if i < full.len() - 1 {
                        assert(full[i] == kept[i]);
                        assert(kept[i].0 != idv);
                    }
                }
            }
        }
    }

    /// Remove if present; a no-op otherwise.
    pub fn unregister(&mut self, id: &[u8])
        requires
            old(self).wf(),
        ensures
            final(self).wf(),
            final(self)@ =~= old(self)@.remove(id@),
    {
        proof {
            lemma_drop_id_map(rentries_view(self.entries@), id@);
            lemma_drop_id_distinct(rentries_view(self.entries@), id@);
        }
        self.retain_others(id);
    }

    /// The number of registered connections.
    pub fn get_client_count(&self) -> (n: usize)
        requires
            self.wf(),
        ensures
            n as int == self@.dom().len(),
    {
        proof {
            lemma_reg_dom(rentries_view(self.entries@));
        }
        self.entries.len()
    }

    /// Attempt to enqueue the message on every entry's channel; a failed
    /// enqueue neither stops the others nor removes the entry.  Returns how
    /// many enqueues were accepted.
    pub fn broadcast_message(&self, msg: &[u8]) -> (n: usize)
        requires
            self.wf(),
        ensures
            n as int <= self@.dom().len(),
    {
        let mut n: usize = 0;
        let mut t: usize = 0;
        while t < self.entries.len()
            invariant
                t <= self.entries@.len(),
                n <= t,
            decreases self.entries@.len() - t,
        {
            let copy = vstd::slice::slice_to_vec(msg);
            if chan_send(&self.entries[t].1, copy) {
                n += 1;
            }
            t += 1;
        }
        proof {
            lemma_reg_dom(rentries_view(self.entries@));
        }
        n
    }

    /// Enqueue a message on one connection's channel.  False when the id is
    /// not registered or the channel is closed.
    pub fn send_to(&self, id: &[u8], msg: &[u8]) -> (ok: bool)
        requires
            self.wf(),
        ensures
            !self@.dom().contains(id@) ==> !ok,
    {
        let mut t: usize = 0;
        while t < self.entries.len()
            invariant
                self.wf(),
                t <= self.entries@.len(),
            decreases self.entries@.len() - t,
        {
            if bytes_eq(self.entries[t].0.as_slice(), id) {
                proof {
                    lemma_reg_dom(rentries_view(self.entries@));
                    assert(rentries_view(self.entries@)[t as int].0 == id@);
                }
                let copy = vstd::slice::slice_to_vec(msg);
                return chan_send(&self.entries[t].1, copy);
            }
            t += 1;
        }
        false
    }
}

} // verus!
