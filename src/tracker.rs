//! Flow lifecycle tracking over two independent namespaces: pending flows
//! (admitted by a bare SYN, awaiting their one inspection) by full 5-tuple, and
//! tagged flows by reduced identity. Each entry carries the time it was last
//! seen; entries idle for longer than their namespace's window are swept.

use crate::flow::{Flow, FlowNoSrcPort};
use vstd::prelude::*;

verus! {

/// Some entry of `s` has key `k`.
pub open spec fn has_key<K>(s: Seq<(K, u64)>, k: K) -> bool {
    exists|i: int| 0 <= i < s.len() && s[i].0 == k
}

/// No two entries of `s` share a key.
pub open spec fn keys_unique<K>(s: Seq<(K, u64)>) -> bool {
    forall|i: int, j: int| 0 <= i < j < s.len() ==> s[i].0 != s[j].0
}

/// An entry last seen at `seen` is still live at `now` under an idle window.
pub open spec fn is_fresh(seen: u64, now: u64, idle: u64) -> bool {
    seen as int + idle as int > now as int
}

/// `new` is `old` with the entry of `k` stamped `now`, added if it was absent.
pub open spec fn touched<K>(old: Seq<(K, u64)>, new: Seq<(K, u64)>, k: K, now: u64) -> bool {
    &&& keys_unique(new)
    &&& new.contains((k, now))
    &&& forall|e: (K, u64)| e.0 != k ==> (new.contains(e) <==> old.contains(e))
    &&& new.len() == old.len() + if has_key(old, k) { 0int } else { 1int }
}

/// `new` is `old` without the entry of `k`.
pub open spec fn removed<K>(old: Seq<(K, u64)>, new: Seq<(K, u64)>, k: K) -> bool {
    &&& keys_unique(new)
    &&& !has_key(new, k)
    &&& forall|e: (K, u64)| e.0 != k ==> (new.contains(e) <==> old.contains(e))
}

/// `new` holds exactly the entries of `old` still live at `now`.
pub open spec fn swept<K>(old: Seq<(K, u64)>, new: Seq<(K, u64)>, now: u64, idle: u64) -> bool {
    &&& keys_unique(new)
    &&& forall|e: (K, u64)| new.contains(e) <==> (old.contains(e) && is_fresh(e.1, now, idle))
}

/// The two namespaces of one shard.
pub struct FlowTracker {
    /// Pending flows with the time each was last seen.
    pub pending: Vec<(Flow, u64)>,
    /// Tagged reduced identities with the time each was last seen.
    pub tagged: Vec<(FlowNoSrcPort, u64)>,
    /// How long a pending flow may stay idle.
    pub pending_idle: u64,
    /// How long a tagged identity may stay idle.
    pub tagged_idle: u64,
}

fn find_flow(v: &Vec<(Flow, u64)>, f: &Flow) -> (r: Option<usize>)
    ensures
        r matches Some(i) ==> i < v@.len() && v@[i as int].0 == *f,
        r is None ==> !has_key(v@, *f),
{
    let mut i: usize = 0;
    while i < v.len()
        invariant
            i <= v@.len(),
            forall|j: int| 0 <= j < i ==> v@[j].0 != *f,
        decreases v@.len() - i,
    {
        if v[i].0 == *f {
            return Some(i);
        }
        i = i + 1;
    }
    None
}

fn find_decoy(v: &Vec<(FlowNoSrcPort, u64)>, f: &FlowNoSrcPort) -> (r: Option<usize>)
    ensures
        r matches Some(i) ==> i < v@.len() && v@[i as int].0 == *f,
        r is None ==> !has_key(v@, *f),
{
    let mut i: usize = 0;
    while i < v.len()
        invariant
            i <= v@.len(),
            forall|j: int| 0 <= j < i ==> v@[j].0 != *f,
        decreases v@.len() - i,
    {
        if v[i].0 == *f {
            return Some(i);
        }
        i = i + 1;
    }
    None
}

proof fn lemma_set_keeps_unique<K>(old: Seq<(K, u64)>, i: int, e: (K, u64))
    requires
        keys_unique(old),
        0 <= i < old.len(),
        old[i].0 == e.0,
    ensures
        keys_unique(old.update(i, e)),
        old.update(i, e).contains(e),
        forall|x: (K, u64)| x.0 != e.0 ==> (old.update(i, e).contains(x) <==> old.contains(x)),
{
    let new = old.update(i, e);
    assert(new[i] == e);
    assert forall|x: (K, u64)| x.0 != e.0 implies (new.contains(x) <==> old.contains(x)) by {
        if new.contains(x) {
            let j = choose|j: int| 0 <= j < new.len() && new[j] == x;
            assert(j != i);
            assert(old[j] == x);
        }
        if old.contains(x) {
            let j = choose|j: int| 0 <= j < old.len() && old[j] == x;
            assert(j != i);
            assert(new[j] == x);
        }
    }
}

proof fn lemma_push_keeps_unique<K>(old: Seq<(K, u64)>, e: (K, u64))
    requires
        keys_unique(old),
        !has_key(old, e.0),
    ensures
        keys_unique(old.push(e)),
        old.push(e).contains(e),
        forall|x: (K, u64)| x.0 != e.0 ==> (old.push(e).contains(x) <==> old.contains(x)),
{
    let new = old.push(e);
    assert(new[old.len() as int] == e);
    assert forall|i: int, j: int| 0 <= i < j < new.len() implies new[i].0 != new[j].0 by {
        if j == old.len() {
            assert(new[i] == old[i]);
        }
    }
    assert forall|x: (K, u64)| x.0 != e.0 implies (new.contains(x) <==> old.contains(x)) by {
        if new.contains(x) {
            let j = choose|j: int| 0 <= j < new.len() && new[j] == x;
            assert(j != old.len());
            assert(old[j] == x);
        }
        if old.contains(x) {
            let j = choose|j: int| 0 <= j < old.len() && old[j] == x;
            assert(new[j] == x);
        }
    }
}

proof fn lemma_remove_keeps_unique<K>(old: Seq<(K, u64)>, i: int)
    requires
        keys_unique(old),
        0 <= i < old.len(),
    ensures
        keys_unique(old.remove(i)),
        !has_key(old.remove(i), old[i].0),
        forall|x: (K, u64)| x.0 != old[i].0 ==> (old.remove(i).contains(x) <==> old.contains(x)),
{
    let new = old.remove(i);
    let k = old[i].0;
    assert forall|a: int, b: int| 0 <= a < b < new.len() implies new[a].0 != new[b].0 by {
        let oa = if a < i { a } else { a + 1 };
        let ob = if b < i { b } else { b + 1 };
        assert(new[a] == old[oa]);
        assert(new[b] == old[ob]);
    }
    assert forall|j: int| 0 <= j < new.len() implies new[j].0 != k by {
        let oj = if j < i { j } else { j + 1 };
        assert(new[j] == old[oj]);
    }
    assert forall|x: (K, u64)| x.0 != k implies (new.contains(x) <==> old.contains(x)) by {
        if new.contains(x) {
            let j = choose|j: int| 0 <= j < new.len() && new[j] == x;
            let oj = if j < i { j } else { j + 1 };
            assert(old[oj] == x);
        }
        if old.contains(x) {
            let j = choose|j: int| 0 <= j < old.len() && old[j] == x;
            assert(j != i);
            let nj = if j < i { j } else { j - 1 };
            assert(new[nj] == x);
        }
    }
}

/// The entries of `v` still live at `now`, in their order.
fn sweep<K: Copy>(v: &Vec<(K, u64)>, now: u64, idle: u64) -> (r: Vec<(K, u64)>)
    requires
        keys_unique(v@),
    ensures
        swept(v@, r@, now, idle),
{
    let mut out: Vec<(K, u64)> = Vec::new();
    let mut i: usize = 0;
    while i < v.len()
        invariant
            i <= v@.len(),
            keys_unique(v@),
            keys_unique(out@),
            forall|e: (K, u64)| out@.contains(e) <==> (v@.subrange(0, i as int).contains(e) && is_fresh(e.1, now, idle)),
            forall|a: int| 0 <= a < out@.len() ==> exists|j: int| 0 <= j < i && v@[j].0 == (#[trigger] out@[a]).0,
        decreases v@.len() - i,
    {
        let e = v[i];
        let ghost prev = out@;
        let ghost cur = v@.subrange(0, i as int);
        let ghost nxt = v@.subrange(0, i + 1);
        proof {
            assert(nxt =~= cur.push(e));
        }
        if (e.1 as u128) + (idle as u128) > now as u128 {
            proof {
                assert forall|a: int| 0 <= a < prev.len() implies prev[a].0 != e.0 by {
                    let j = choose|j: int| 0 <= j < i && v@[j].0 == prev[a].0;
                    assert(v@[j].0 != v@[i as int].0);
                }
                lemma_push_keeps_unique(prev, e);
            }
            out.push(e);
            proof {
                assert forall|x: (K, u64)| out@.contains(x) <==> (nxt.contains(x) && is_fresh(x.1, now, idle)) by {
                    assert(out@ == prev.push(e));
                    if x == e {
                        assert(nxt[i as int] == e);
                        assert(out@[prev.len() as int] == e);
                    } else if x.0 == e.0 {
                        if out@.contains(x) {
                            let a = choose|a: int| 0 <= a < out@.len() && out@[a] == x;
                            assert(a != prev.len());
                            assert(prev[a] == x);
                            let j = choose|j: int| 0 <= j < i && v@[j].0 == prev[a].0;
                            assert(v@[j].0 != v@[i as int].0);
                        }
                        if nxt.contains(x) {
                            let j = choose|j: int| 0 <= j < i + 1 && nxt[j] == x;
                            assert(v@[j] == x);
                            assert(j == i);
                        }
                    } else {
                        if nxt.contains(x) {
                            let j = choose|j: int| 0 <= j < i + 1 && nxt[j] == x;
                            assert(j != i);
                            assert(cur[j] == x);
                        }
                        if cur.contains(x) {
                            let j = choose|j: int| 0 <= j < i && cur[j] == x;
                            assert(nxt[j] == x);
                        }
                        assert(out@.contains(x) == prev.contains(x));
                        assert(prev.contains(x) == (cur.contains(x) && is_fresh(x.1, now, idle)));
                    }
                }
                assert forall|a: int| 0 <= a < out@.len() implies exists|j: int| 0 <= j < i + 1 && v@[j].0 == (#[trigger] out@[a]).0 by {
                    if a == prev.len() {
                        assert(v@[i as int].0 == out@[a].0);
                    } else {
                        assert(out@[a] == prev[a]);
                    }
                }
            }
        } else {
            proof {
                assert forall|x: (K, u64)| out@.contains(x) <==> (nxt.contains(x) && is_fresh(x.1, now, idle)) by {
                    if nxt.contains(x) && x != e {
                        let j = choose|j: int| 0 <= j < i + 1 && nxt[j] == x;
                        assert(j != i);
                        assert(cur[j] == x);
                    }
                    if cur.contains(x) {
                        let j = choose|j: int| 0 <= j < i && cur[j] == x;
                        assert(nxt[j] == x);
                    }
                }
            }
        }
        i = i + 1;
    }
    proof {
        assert(v@.subrange(0, v@.len() as int) =~= v@);
    }
    out
}

/// An entry with key `k` is there after `k` was touched.
pub proof fn lemma_touched_has_key<K>(old: Seq<(K, u64)>, new: Seq<(K, u64)>, k: K, now: u64)
    requires
        touched(old, new, k, now),
    ensures
        has_key(new, k),
{
    let i = choose|i: int| 0 <= i < new.len() && new[i] == (k, now);
    assert(new[i].0 == k);
}

/// Admitting the same key twice leaves it there once: the second admission
/// adds no entry, and keys stay unique.
pub proof fn lemma_admit_twice_no_duplicate<K>(
    a: Seq<(K, u64)>,
    b: Seq<(K, u64)>,
    c: Seq<(K, u64)>,
    k: K,
    now1: u64,
    now2: u64,
)
    requires
        touched(a, b, k, now1),
        touched(b, c, k, now2),
    ensures
        keys_unique(c),
        has_key(c, k),
        c.len() == b.len(),
        c.len() == a.len() + if has_key(a, k) { 0int } else { 1int },
{
    lemma_touched_has_key(a, b, k, now1);
    lemma_touched_has_key(b, c, k, now2);
}

/// A sweep removes every key whose entry was idle past the window.
pub proof fn lemma_idle_entry_expires<K>(old: Seq<(K, u64)>, new: Seq<(K, u64)>, k: K, seen: u64, now: u64, idle: u64)
    requires
        keys_unique(old),
        old.contains((k, seen)),
        !is_fresh(seen, now, idle),
        swept(old, new, now, idle),
    ensures
        !has_key(new, k),
{
    if has_key(new, k) {
        let i = choose|i: int| 0 <= i < new.len() && new[i].0 == k;
        assert(new.contains(new[i]));
        let e = new[i];
        assert(old.contains(e) && is_fresh(e.1, now, idle));
        let a = choose|a: int| 0 <= a < old.len() && old[a] == e;
        let b = choose|b: int| 0 <= b < old.len() && old[b] == (k, seen);
        if a != b {
            if a < b {
                assert(old[a].0 != old[b].0);
            } else {
                assert(old[b].0 != old[a].0);
            }
        }
    }
}

impl FlowTracker {
    /// Both namespaces hold each key at most once.
    pub open spec fn wf(&self) -> bool {
        keys_unique(self.pending@) && keys_unique(self.tagged@)
    }

    /// An empty tracker with the given idle windows.
    pub fn new(pending_idle: u64, tagged_idle: u64) -> (r: FlowTracker)
        ensures
            r.wf(),
            r.pending@.len() == 0,
            r.tagged@.len() == 0,
            r.pending_idle == pending_idle,
            r.tagged_idle == tagged_idle,
    {
        FlowTracker { pending: Vec::new(), tagged: Vec::new(), pending_idle, tagged_idle }
    }

    /// Pending-namespace membership.
    pub fn is_tracked_flow(&self, flow: &Flow) -> (r: bool)
        ensures
            r == has_key(self.pending@, *flow),
    {
        find_flow(&self.pending, flow).is_some()
    }

    /// Tagged-namespace membership.
    pub fn is_registered_dark_decoy(&self, dd: &FlowNoSrcPort) -> (r: bool)
        ensures
            r == has_key(self.tagged@, *dd),
    {
        find_decoy(&self.tagged, dd).is_some()
    }

    /// Admits `flow` into the pending namespace, or refreshes it if it is
    /// already there.
    pub fn begin_tracking_flow(&mut self, flow: &Flow, now: u64)
        requires
            old(self).wf(),
        ensures
            final(self).wf(),
            touched(old(self).pending@, final(self).pending@, *flow, now),
            final(self).tagged == old(self).tagged,
            final(self).pending_idle == old(self).pending_idle,
            final(self).tagged_idle == old(self).tagged_idle,
    {
        match find_flow(&self.pending, flow) {
            Some(i) => {
                proof {
                    lemma_set_keeps_unique(self.pending@, i as int, (*flow, now));
                }
                self.pending.set(i, (*flow, now));
            },
            None => {
                proof {
                    lemma_push_keeps_unique(self.pending@, (*flow, now));
                }
                self.pending.push((*flow, now));
            },
        }
    }

    /// Removes `flow` from the pending namespace; absent, nothing changes.
    pub fn stop_tracking_flow(&mut self, flow: &Flow)
        requires
            old(self).wf(),
        ensures
            final(self).wf(),
            removed(old(self).pending@, final(self).pending@, *flow),
            !has_key(old(self).pending@, *flow) ==> final(self).pending@ == old(self).pending@,
            final(self).tagged == old(self).tagged,
            final(self).pending_idle == old(self).pending_idle,
            final(self).tagged_idle == old(self).tagged_idle,
    {
        match find_flow(&self.pending, flow) {
            Some(i) => {
                proof {
                    lemma_remove_keeps_unique(self.pending@, i as int);
                }
                self.pending.remove(i);
            },
            None => {
                assert forall|e: (Flow, u64)| e.0 != *flow implies (self.pending@.contains(e)
                    <==> self.pending@.contains(e)) by {}
            },
        }
    }

    /// Inserts a reduced identity into the tagged namespace, or refreshes it
    /// if it is already there.
    pub fn mark_dark_decoy(&mut self, dd: &FlowNoSrcPort, now: u64)
        requires
            old(self).wf(),
        ensures
            final(self).wf(),
            touched(old(self).tagged@, final(self).tagged@, *dd, now),
            final(self).pending == old(self).pending,
            final(self).pending_idle == old(self).pending_idle,
            final(self).tagged_idle == old(self).tagged_idle,
    {
        match find_decoy(&self.tagged, dd) {
            Some(i) => {
                proof {
                    lemma_set_keeps_unique(self.tagged@, i as int, (*dd, now));
                }
                self.tagged.set(i, (*dd, now));
            },
            None => {
                proof {
                    lemma_push_keeps_unique(self.tagged@, (*dd, now));
                }
                self.tagged.push((*dd, now));
            },
        }
    }

    /// Drops every entry that has been idle for its namespace's window.
    pub fn drop_stale(&mut self, now: u64)
        requires
            old(self).wf(),
        ensures
            final(self).wf(),
            swept(old(self).pending@, final(self).pending@, now, old(self).pending_idle),
            swept(old(self).tagged@, final(self).tagged@, now, old(self).tagged_idle),
            final(self).pending_idle == old(self).pending_idle,
            final(self).tagged_idle == old(self).tagged_idle,
    {
        self.pending = sweep(&self.pending, now, self.pending_idle);
        self.tagged = sweep(&self.tagged, now, self.tagged_idle);
    }
}

} // verus!
