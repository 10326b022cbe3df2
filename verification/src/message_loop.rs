//! The message loop's own bookkeeping: the queue of messages still to
//! handle, and the debounced messages waiting for their time. A window that
//! changes quickly sends its update debounced, so only the last one of a
//! burst is handled.
use vstd::prelude::*;
use crate::handler::Msg;

verus! {

/// A debounced message waiting for its time.
#[derive(Debug)]
pub struct Pending {
    /// The window it is for.
    pub id: u64,
    /// When it is due, in milliseconds.
    pub due: u64,
    pub msg: Msg,
}

/// What the loop reacts to.
#[derive(Debug)]
pub enum LoopInput {
    /// The periodic timer fired: time to drop stale dependencies.
    Tick,
    /// The loop woke up to deliver the earliest waiting message, which it
    /// does only if that message is due by then.
    Due,
    /// A message arrived; `None` when every sender is gone.
    Received(Option<Msg>),
}

/// The queue of messages to handle and the debounced messages waiting.
pub struct MessageLoop {
    pub queue: Vec<Msg>,
    pub pending: Vec<Pending>,
}

/// No two waiting messages are for the same window.
pub open spec fn pending_unique(p: Seq<Pending>) -> bool {
    forall|i: int, j: int| 0 <= i < j < p.len() ==> (#[trigger] p[i]).id != (#[trigger] p[j]).id
}

/// The waiting messages other than the one for window `id`.
pub open spec fn without_pending(p: Seq<Pending>, id: u64) -> Seq<Pending>
    decreases p.len(),
{
    if p.len() == 0 {
        p
    } else {
        let prev = without_pending(p.drop_last(), id);
        if p.last().id == id {
            prev
        } else {
            prev.push(p.last())
        }
    }
}

/// The position of the earliest waiting message (the first of the earliest
/// when several are due at once).
pub open spec fn earliest(p: Seq<Pending>) -> int
    decreases p.len(),
{
    if p.len() <= 1 {
        0
    } else {
        let k = earliest(p.drop_last());
        if p.last().due < p[k].due {
            p.len() - 1
        } else {
            k
        }
    }
}

/// `earliest` is a position of a message due no later than any other, and
/// before any other due at the same time.
proof fn lemma_earliest(p: Seq<Pending>)
    requires
        p.len() > 0,
    ensures
        0 <= earliest(p) < p.len(),
        forall|j: int| 0 <= j < p.len() ==> p[earliest(p)].due <= (#[trigger] p[j]).due,
        forall|j: int| 0 <= j < earliest(p) ==> p[earliest(p)].due < (#[trigger] p[j]).due,
    decreases p.len(),
{
    if p.len() > 1 {
        let q = p.drop_last();
        lemma_earliest(q);
        let k = earliest(q);
        assert(q[k] == p[k]);
        assert forall|j: int| 0 <= j < p.len() implies p[earliest(p)].due <= (#[trigger] p[j]).due by {
            if j < q.len() {
                assert(q[j] == p[j]);
            }
        }
        assert forall|j: int| 0 <= j < earliest(p) implies p[earliest(p)].due < (#[trigger] p[j]).due by {
            if j < q.len() {
                assert(q[j] == p[j]);
            }
        }
    }
}

/// Dropping the entry of one window keeps the others distinct.
proof fn lemma_without_pending(p: Seq<Pending>, id: u64)
    requires
        pending_unique(p),
    ensures
        pending_unique(without_pending(p, id)),
        forall|i: int| 0 <= i < without_pending(p, id).len() ==> (#[trigger] without_pending(p, id)[i]).id != id,
        forall|i: int| 0 <= i < without_pending(p, id).len() ==> exists|j: int| 0 <= j < p.len() && p[j] == #[trigger] without_pending(p, id)[i],
    decreases p.len(),
{
    if p.len() > 0 {
        let q = p.drop_last();
        assert forall|i: int, j: int| 0 <= i < j < q.len() implies (#[trigger] q[i]).id != (#[trigger] q[j]).id by {
            assert(q[i] == p[i] && q[j] == p[j]);
        }
        lemma_without_pending(q, id);
        let w = without_pending(q, id);
        let r = without_pending(p, id);
        if p.last().id != id {
            assert(r == w.push(p.last()));
            assert forall|i: int, j: int| 0 <= i < j < r.len() implies (#[trigger] r[i]).id != (#[trigger] r[j]).id by {
                if j == r.len() - 1 {
                    assert(r[i] == w[i]);
                    let m = choose|m: int| 0 <= m < q.len() && q[m] == #[trigger] w[i];
                    assert(q[m] == p[m]);
                    assert(p[m].id != p[p.len() - 1].id);
                } else {
                    assert(r[i] == w[i] && r[j] == w[j]);
                }
            }
            assert forall|i: int| 0 <= i < r.len() implies exists|j: int| 0 <= j < p.len() && p[j] == #[trigger] r[i] by {
                if i < w.len() {
                    assert(r[i] == w[i]);
                    let m = choose|m: int| 0 <= m < q.len() && q[m] == #[trigger] w[i];
                    assert(p[m] == r[i]);
                } else {
                    assert(p[p.len() - 1] == r[i]);
                }
            }
        } else {
            assert forall|i: int| 0 <= i < r.len() implies exists|j: int| 0 <= j < p.len() && p[j] == #[trigger] r[i] by {
                let m = choose|m: int| 0 <= m < q.len() && q[m] == #[trigger] w[i];
                assert(p[m] == r[i]);
            }
        }
    }
}

/// Debouncing keeps only the latest message of a window waiting: after a
/// debounced message for window `id`, exactly one waiting message is for
/// `id`, and it is the new one.
pub proof fn law_debounce_keeps_latest(p: Seq<Pending>, id: u64, due: u64, msg: Msg)
    requires
        pending_unique(p),
    ensures
        ({
            let q = without_pending(p, id).push(Pending { id, due, msg });
            &&& pending_unique(q)
            &&& q.last() == Pending { id, due, msg }
            &&& forall|i: int| 0 <= i < q.len() - 1 ==> (#[trigger] q[i]).id != id
        }),
{
    lemma_without_pending(p, id);
    let w = without_pending(p, id);
    let q = w.push(Pending { id, due, msg });
    assert forall|i: int| 0 <= i < q.len() - 1 implies (#[trigger] q[i]).id != id by {
        assert(q[i] == w[i]);
    }
    assert forall|i: int, j: int| 0 <= i < j < q.len() implies (#[trigger] q[i]).id != (#[trigger] q[j]).id by {
        assert(q[i] == w[i]);
        if j < w.len() {
            assert(q[j] == w[j]);
        }
    }
}

/// Delivering a waiting message takes it out of the waiting ones: after the
/// earliest waiting message moves to the queue, no message for its window
/// waits any more, so it cannot be delivered a second time.
pub proof fn law_delivered_once(p: Seq<Pending>)
    requires
        pending_unique(p),
        p.len() > 0,
    ensures
        ({
            let k = earliest(p);
            let rest = p.remove(k);
            &&& pending_unique(rest)
            &&& forall|i: int| 0 <= i < rest.len() ==> (#[trigger] rest[i]).id != p[k].id
        }),
{
    lemma_earliest(p);
    let k = earliest(p);
    let rest = p.remove(k);
    assert forall|i: int| 0 <= i < rest.len() implies (#[trigger] rest[i]).id != p[k].id by {
        if i < k {
            assert(rest[i] == p[i]);
        } else {
            assert(rest[i] == p[i + 1]);
        }
    }
    assert forall|i: int, j: int| 0 <= i < j < rest.len() implies (#[trigger] rest[i]).id != (#[trigger] rest[j]).id by {
        let oi = if i < k { i } else { i + 1 };
        let oj = if j < k { j } else { j + 1 };
        assert(rest[i] == p[oi]);
        assert(rest[j] == p[oj]);
    }
}

impl MessageLoop {
    /// A loop with nothing queued and nothing waiting.
    pub fn new() -> (l: MessageLoop)
        ensures
            l.queue@ == Seq::<Msg>::empty(),
            l.pending@ == Seq::<Pending>::empty(),
    {
        MessageLoop { queue: Vec::new(), pending: Vec::new() }
    }

    /// Reacts to `input` at time `now` (in milliseconds); says whether the
    /// loop goes on. The timer queues a dependency check; on waking for a
    /// due message, the earliest waiting message moves to the queue if its
    /// time has come by `now`, and otherwise keeps waiting; a debounced
    /// message replaces
    /// the one waiting for the same window and waits until `now` plus its
    /// delay; any other message is queued; a closed channel ends the loop.
    pub fn input(&mut self, input: LoopInput, now: u64) -> (go_on: bool)
        requires
            pending_unique(old(self).pending@),
            input matches LoopInput::Received(Some(Msg::Debounce(ms, _, _))) ==> now + ms <= u64::MAX,
        ensures
            pending_unique(final(self).pending@),
            go_on == !(input matches LoopInput::Received(None)),
            match input {
                LoopInput::Tick => final(self).queue@ == old(self).queue@.push(Msg::CheckDependencies)
                    && final(self).pending@ == old(self).pending@,
                LoopInput::Due => if old(self).pending@.len() == 0
                    || old(self).pending@[earliest(old(self).pending@)].due > now {
                    final(self).queue@ == old(self).queue@ && final(self).pending@ == old(self).pending@
                } else {
                    let k = earliest(old(self).pending@);
                    &&& final(self).queue@ == old(self).queue@.push(old(self).pending@[k].msg)
                    &&& final(self).pending@ == old(self).pending@.remove(k)
                },
                LoopInput::Received(None) => final(self).queue@ == old(self).queue@
                    && final(self).pending@ == old(self).pending@,
                LoopInput::Received(Some(m)) => match m {
                    Msg::Debounce(ms, id, inner) => {
                        &&& final(self).queue@ == old(self).queue@
                        &&& final(self).pending@ == without_pending(old(self).pending@, id).push(
                            Pending { id, due: (now + ms) as u64, msg: *inner },
                        )
                    },
                    _ => final(self).queue@ == old(self).queue@.push(m) && final(self).pending@
                        == old(self).pending@,
                },
            },
    {
        match input {
            LoopInput::Tick => {
                self.queue.push(Msg::CheckDependencies);
                true
            },
            LoopInput::Due => {
                if self.pending.len() > 0 && self.pending[self.earliest_index()].due <= now {
                    let k = self.earliest_index();
                    let p = self.pending.remove(k);
                    self.queue.push(p.msg);
                    proof {
                        assert forall|i: int, j: int| 0 <= i < j < self.pending@.len() implies (#[trigger] self.pending@[i]).id != (#[trigger] self.pending@[j]).id by {
                            let oi = if i < k { i } else { i + 1 };
                            let oj = if j < k { j } else { j + 1 };
                            assert(self.pending@[i] == old(self).pending@[oi]);
                            assert(self.pending@[j] == old(self).pending@[oj]);
                        }
                    }
                }
                true
            },
            LoopInput::Received(None) => false,
            LoopInput::Received(Some(m)) => {
                match m {
                    Msg::Debounce(ms, id, inner) => {
                        self.drop_pending(id);
                        let ghost before = self.pending@;
                        self.pending.push(Pending { id, due: now + ms, msg: *inner });
                        proof {
                            lemma_without_pending(old(self).pending@, id);
                            assert forall|i: int, j: int| 0 <= i < j < self.pending@.len() implies (#[trigger] self.pending@[i]).id != (#[trigger] self.pending@[j]).id by {
                                if j == self.pending@.len() - 1 {
                                    assert(self.pending@[i] == before[i]);
                                } else {
                                    assert(self.pending@[i] == before[i] && self.pending@[j] == before[j]);
                                }
                            }
                        }
                    },
                    other => {
                        self.queue.push(other);
                    },
                }
                true
            },
        }
    }

    /// When the earliest waiting message is due, if any message waits: the
    /// time the loop should wake up to deliver it.
    pub fn next_due(&self) -> (r: Option<u64>)
        ensures
            self.pending@.len() == 0 ==> r is None,
            self.pending@.len() > 0 ==> r == Some(self.pending@[earliest(self.pending@)].due),
            forall|j: int| 0 <= j < self.pending@.len() ==> r is Some && r->0 <= (#[trigger] self.pending@[j]).due,
    {
        if self.pending.len() == 0 {
            None
        } else {
            proof {
                lemma_earliest(self.pending@);
            }
            Some(self.pending[self.earliest_index()].due)
        }
    }

    /// The position of the earliest waiting message.
    fn earliest_index(&self) -> (k: usize)
        requires
            self.pending@.len() > 0,
        ensures
            k == earliest(self.pending@),
            k < self.pending@.len(),
    {
        let mut k: usize = 0;
        let mut i: usize = 1;
        assert(self.pending@.take(1).len() == 1);
        while i < self.pending.len()
            invariant
                1 <= i <= self.pending.len(),
                k < i,
                k == earliest(self.pending@.take(i as int)),
            decreases self.pending.len() - i,
        {
            proof {
                lemma_earliest(self.pending@.take(i as int));
            }
            let ghost t = self.pending@.take(i + 1 as int);
            assert(t.drop_last() =~= self.pending@.take(i as int));
            assert(t.last() == self.pending@[i as int]);
            assert(t[k as int] == self.pending@[k as int]);
            if self.pending[i].due < self.pending[k].due {
                k = i;
            }
            i = i + 1;
        }
        assert(self.pending@.take(self.pending.len() as int) =~= self.pending@);
        k
    }

    /// Drops the message waiting for window `id`, if any.
    fn drop_pending(&mut self, id: u64)
        ensures
            final(self).pending@ == without_pending(old(self).pending@, id),
            final(self).queue@ == old(self).queue@,
    {
        let ghost p = self.pending@;
        let n = self.pending.len();
        let mut i: usize = 0;
        let mut j: usize = 0;
        assert(p.take(0) =~= Seq::<Pending>::empty());
        assert(p.skip(0) =~= p);
        while i < self.pending.len()
            invariant
                0 <= j <= p.len(),
                p.len() == n,
                self.pending@ == without_pending(p.take(j as int), id) + p.skip(j as int),
                i == without_pending(p.take(j as int), id).len(),
                self.queue@ == old(self).queue@,
            decreases p.len() - j,
        {
            let ghost w = without_pending(p.take(j as int), id);
            assert(self.pending@[i as int] == p[j as int]);
            assert(p.take(j + 1).drop_last() =~= p.take(j as int));
            assert(p.take(j + 1).last() == p[j as int]);
            assert(p.skip(j as int) =~= seq![p[j as int]] + p.skip(j + 1));
            if self.pending[i].id == id {
                let _ = self.pending.remove(i);
                assert(self.pending@ =~= w + p.skip(j + 1));
            } else {
                assert(self.pending@ =~= w.push(p[j as int]) + p.skip(j + 1));
                i = i + 1;
            }
            j = j + 1;
        }
        assert(p.skip(j as int).len() == 0);
        assert(p.take(j as int) =~= p);
        assert(self.pending@ =~= without_pending(p, id));
    }

    /// Queues `msgs` after the messages already queued.
    pub fn enqueue(&mut self, msgs: Vec<Msg>)
        ensures
            final(self).queue@ == old(self).queue@ + msgs@,
            final(self).pending@ == old(self).pending@,
    {
        let mut m = msgs;
        self.queue.append(&mut m);
    }

    /// The next message to handle, taken from the front of the queue.
    pub fn next(&mut self) -> (r: Option<Msg>)
        ensures
            old(self).queue@.len() == 0 ==> r is None && final(self).queue@ == old(self).queue@,
            old(self).queue@.len() > 0 ==> r == Some(old(self).queue@[0]) && final(self).queue@
                == old(self).queue@.drop_first(),
            final(self).pending@ == old(self).pending@,
    {
        if self.queue.len() == 0 {
            None
        } else {
            Some(self.queue.remove(0))
        }
    }
}

} // verus!
