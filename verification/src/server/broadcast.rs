//! The live-reload broadcaster.
//!
//! One channel per connected browser tab. A reload signals every open
//! channel exactly once; channels whose peer has gone are marked closed by
//! the shell and pruned lazily. Channel ids are handed out in increasing
//! order and never reused.

use vstd::prelude::*;
use vstd::pervasive::VecAdditionalExecFns;

verus! {

/// One connected browser tab's notification channel.
pub struct ReloadChannel {
    /// The channel's identity, unique for the broadcaster's lifetime.
    pub id: u64,
    /// Whether the peer is still connected.
    pub open: bool,
}

/// The ids of the open channels, in order.
pub open spec fn open_ids(channels: Seq<ReloadChannel>) -> Seq<u64> {
    channels.filter(|c: ReloadChannel| c.open).map_values(|c: ReloadChannel| c.id)
}

/// Holds the open notification channels and signals them on reload.
pub struct Broadcaster {
    /// The id the next subscriber will get.
    pub next_id: u64,
    /// All channels, open and not yet pruned closed ones, in subscription
    /// order.
    pub channels: Vec<ReloadChannel>,
}

impl Broadcaster {
    /// Channel ids strictly increase with subscription order and stay below
    /// the next id to be handed out.
    pub open spec fn wf(&self) -> bool {
        &&& forall|i: int, j: int|
            0 <= i < j < self.channels@.len() ==> (#[trigger] self.channels@[i].id)
                < (#[trigger] self.channels@[j].id)
        &&& forall|i: int|
            0 <= i < self.channels@.len() ==> (#[trigger] self.channels@[i].id) < self.next_id
    }

    /// A broadcaster with no connected clients.
    pub fn new() -> (r: Broadcaster)
        ensures
            r.wf(),
            r.channels@.len() == 0,
            r.next_id == 0,
    {
        Broadcaster { next_id: 0, channels: Vec::new() }
    }

    /// Registers a newly connected client and returns its channel id.
    pub fn subscribe(&mut self) -> (id: u64)
        requires
            old(self).wf(),
            old(self).next_id < u64::MAX,
        ensures
            final(self).wf(),
            id == old(self).next_id,
            final(self).next_id == old(self).next_id + 1,
            final(self).channels@ == old(self).channels@.push(ReloadChannel { id, open: true }),
    {
        let id = self.next_id;
        self.channels.push(ReloadChannel { id, open: true });
        self.next_id = id + 1;
        proof {
            let cs = self.channels@;
            assert forall|i: int, j: int| 0 <= i < j < cs.len() implies (#[trigger] cs[i].id)
                < (#[trigger] cs[j].id) by {
                if j < cs.len() - 1 {
                    assert(cs[i] == old(self).channels@[i]);
                    assert(cs[j] == old(self).channels@[j]);
                } else {
                    assert(cs[j].id == id);
                    if i < cs.len() - 1 {
                        assert(cs[i] == old(self).channels@[i]);
                    }
                }
            }
        }
        id
    }

    /// Marks a disconnected client's channel closed; ids and order stay.
    pub fn disconnect(&mut self, id: u64)
        requires
            old(self).wf(),
        ensures
            final(self).wf(),
            final(self).next_id == old(self).next_id,
            final(self).channels@.len() == old(self).channels@.len(),
            forall|i: int|
                0 <= i < old(self).channels@.len() ==> (#[trigger] final(self).channels@[i]).id
                    == old(self).channels@[i].id && final(self).channels@[i].open == (old(
                    self,
                ).channels@[i].open && old(self).channels@[i].id != id),
    {
        let n = self.channels.len();
        let mut k: usize = 0;
        while k < n
            invariant
                k <= n,
                n == self.channels@.len(),
                self.next_id == old(self).next_id,
                self.channels@.len() == old(self).channels@.len(),
                old(self).wf(),
                forall|i: int|
                    k <= i < old(self).channels@.len() ==> #[trigger] self.channels@[i] == old(
                        self,
                    ).channels@[i],
                forall|i: int|
                    0 <= i < k ==> (#[trigger] self.channels@[i]).id == old(self).channels@[i].id
                        && self.channels@[i].open == (old(self).channels@[i].open && old(
                        self,
                    ).channels@[i].id != id),
            decreases n - k,
        {
            if self.channels[k].id == id {
                let cid = self.channels[k].id;
                self.channels.set(k, ReloadChannel { id: cid, open: false });
            }
            k = k + 1;
        }
        proof {
            assert(self.wf()) by {
                assert(forall|i: int|
                    0 <= i < self.channels@.len() ==> (#[trigger] self.channels@[i]).id == old(
                        self,
                    ).channels@[i].id);
            }
        }
    }

    /// The channels a reload must signal: every open channel, each exactly
    /// once, in subscription order. Sending is the shell's work; a closed
    /// peer simply misses the signal.
    pub fn reload(&self) -> (signalled: Vec<u64>)
        requires
            self.wf(),
        ensures
            signalled@ == open_ids(self.channels@),
            signalled@.no_duplicates(),
    {
        let ghost pred = |c: ReloadChannel| c.open;
        let ghost to_id = |c: ReloadChannel| c.id;
        let mut out: Vec<u64> = Vec::new();
        let mut k: usize = 0;
        let n = self.channels.len();
        proof {
            reveal_with_fuel(Seq::<ReloadChannel>::filter, 2);
            assert(self.channels@.take(0) =~= Seq::<ReloadChannel>::empty());
            assert(open_ids(self.channels@.take(0)) =~= Seq::<u64>::empty());
        }
        while k < n
            invariant
                k <= n,
                n == self.channels@.len(),
                self.wf(),
                pred == (|c: ReloadChannel| c.open),
                to_id == (|c: ReloadChannel| c.id),
                out@ == open_ids(self.channels@.take(k as int)),
                forall|a: int, b: int|
                    0 <= a < b < out@.len() ==> (#[trigger] out@[a]) < (#[trigger] out@[b]),
                forall|a: int|
                    0 <= a < out@.len() ==> exists|m: int|
                        0 <= m < k && (#[trigger] out@[a]) == self.channels@[m].id,
            decreases n - k,
        {
            let ghost cs = self.channels@;
            let ghost t = cs.take(k + 1);
            if self.channels[k].open {
                let ghost out_before = out@;
                out.push(self.channels[k].id);
                proof {
                    reveal_with_fuel(Seq::<ReloadChannel>::filter, 2);
                    assert(t.drop_last() =~= cs.take(k as int));
                    assert(t.last() == cs[k as int]);
                    assert(t.filter(pred) == cs.take(k as int).filter(pred).push(cs[k as int]));
                    assert(out@ =~= open_ids(t)) by {
                        let f1 = cs.take(k as int).filter(pred);
                        assert(open_ids(t) == t.filter(pred).map_values(to_id));
                        assert(open_ids(cs.take(k as int)) == f1.map_values(to_id));
                        assert(f1.push(cs[k as int]).map_values(to_id) =~= f1.map_values(
                            to_id,
                        ).push(cs[k as int].id));
                    }
                    assert forall|a: int| 0 <= a < out@.len() implies exists|m: int|
                        0 <= m < k + 1 && (#[trigger] out@[a]) == cs[m].id by {
                        if a < out_before.len() {
                            assert(out@[a] == out_before[a]);
                            let m = choose|m: int|
                                0 <= m < k && (#[trigger] out_before[a]) == cs[m].id;
                            assert(0 <= m < k + 1 && out@[a] == cs[m].id);
                        } else {
                            assert(out@[a] == cs[k as int].id);
                        }
                    }
                    assert forall|a: int, b: int| 0 <= a < b < out@.len() implies (
                    #[trigger] out@[a]) < (#[trigger] out@[b]) by {
                        if b < out_before.len() {
                            assert(out@[a] == out_before[a] && out@[b] == out_before[b]);
                        } else {
                            assert(out@[b] == cs[k as int].id);
                            assert(out@[a] == out_before[a]);
                            let m = choose|m: int|
                                0 <= m < k && (#[trigger] out_before[a]) == cs[m].id;
                            assert(cs[m].id < cs[k as int].id);
                        }
                    }
                }
            } else {
                proof {
                    reveal_with_fuel(Seq::<ReloadChannel>::filter, 2);
                    assert(t.drop_last() =~= cs.take(k as int));
                    assert(t.last() == cs[k as int]);
                    assert(t.filter(pred) == cs.take(k as int).filter(pred));
                    assert(open_ids(t) == t.filter(pred).map_values(to_id));
                    assert(open_ids(cs.take(k as int)) == cs.take(k as int).filter(
                        pred,
                    ).map_values(to_id));
                    assert forall|a: int| 0 <= a < out@.len() implies exists|m: int|
                        0 <= m < k + 1 && (#[trigger] out@[a]) == cs[m].id by {
                        let m = choose|m: int| 0 <= m < k && (#[trigger] out@[a]) == cs[m].id;
                        assert(0 <= m < k + 1 && out@[a] == cs[m].id);
                    }
                }
            }
            k = k + 1;
        }
        proof {
            assert(self.channels@.take(n as int) =~= self.channels@);
            assert(out@.no_duplicates()) by {
                assert(forall|a: int, b: int|
                    0 <= a < out@.len() && 0 <= b < out@.len() && a != b ==> (#[trigger] out@[a])
                        != (#[trigger] out@[b]));
            }
        }
        out
    }

    /// Removes closed channels; open ones keep their ids and order.
    pub fn prune(&mut self)
        requires
            old(self).wf(),
        ensures
            final(self).wf(),
            final(self).next_id == old(self).next_id,
            final(self).channels@ == old(self).channels@.filter(|c: ReloadChannel| c.open),
    {
        let ghost pred = |c: ReloadChannel| c.open;
        let ghost orig = self.channels@;
        let mut kept: Vec<ReloadChannel> = Vec::new();
        let n = self.channels.len();
        let mut k: usize = 0;
        proof {
            reveal_with_fuel(Seq::<ReloadChannel>::filter, 2);
            assert(orig.take(0) =~= Seq::<ReloadChannel>::empty());
            assert(orig.take(0).filter(pred) =~= Seq::<ReloadChannel>::empty());
        }
        while k < n
            invariant
                k <= n,
                n == orig.len(),
                self.channels@ == orig,
                self.next_id == old(self).next_id,
                old(self).channels@ == orig,
                old(self).wf(),
                pred == (|c: ReloadChannel| c.open),
                kept@ == orig.take(k as int).filter(pred),
                forall|a: int|
                    0 <= a < kept@.len() ==> exists|m: int|
                        0 <= m < k && #[trigger] kept@[a] == orig[m],
                forall|a: int, b: int|
                    0 <= a < b < kept@.len() ==> (#[trigger] kept@[a].id) < (#[trigger] kept@[
                        b
                    ].id),
                forall|a: int|
                    0 <= a < kept@.len() ==> (#[trigger] kept@[a].id) < old(self).next_id,
            decreases n - k,
        {
            let ghost t = orig.take(k + 1);
            let ghost kept_before = kept@;
            if self.channels[k].open {
                let cid = self.channels[k].id;
                let copen = self.channels[k].open;
                kept.push(ReloadChannel { id: cid, open: copen });
                proof {
                    assert(ReloadChannel { id: cid, open: copen } == orig[k as int]);
                }
            }
            proof {
                reveal_with_fuel(Seq::<ReloadChannel>::filter, 2);
                assert(t.drop_last() =~= orig.take(k as int));
                assert(t.last() == orig[k as int]);
                if pred(orig[k as int]) {
                    assert(t.filter(pred) == orig.take(k as int).filter(pred).push(
                        orig[k as int],
                    ));
                } else {
                    assert(t.filter(pred) == orig.take(k as int).filter(pred));
                }
                assert forall|a: int| 0 <= a < kept@.len() implies exists|m: int|
                    0 <= m < k + 1 && #[trigger] kept@[a] == orig[m] by {
                    if a < kept_before.len() {
                        assert(kept@[a] == kept_before[a]);
                        let m = choose|m: int| 0 <= m < k && #[trigger] kept_before[a] == orig[m];
                        assert(0 <= m < k + 1 && kept@[a] == orig[m]);
                    } else {
                        assert(kept@[a] == orig[k as int]);
                    }
                }
                assert forall|a: int, b: int| 0 <= a < b < kept@.len() implies (
                #[trigger] kept@[a].id) < (#[trigger] kept@[b].id) by {
                    if b < kept_before.len() {
                        assert(kept@[a] == kept_before[a] && kept@[b] == kept_before[b]);
                    } else {
                        assert(kept@[b] == orig[k as int]);
                        assert(kept@[a] == kept_before[a]);
                        let m = choose|m: int| 0 <= m < k && #[trigger] kept_before[a] == orig[m];
                        assert(orig[m].id < orig[k as int].id);
                    }
                }
                assert forall|a: int| 0 <= a < kept@.len() implies (#[trigger] kept@[a].id) < old(
                    self,
                ).next_id by {
                    if a < kept_before.len() {
                        assert(kept@[a] == kept_before[a]);
                    } else {
                        assert(kept@[a] == orig[k as int]);
                    }
                }
            }
            k = k + 1;
        }
        proof {
            assert(orig.take(n as int) =~= orig);
        }
        self.channels = kept;
    }
}

} // verus!
