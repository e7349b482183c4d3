//! The connection registry: the shared state of the stream server, holding
//! the active filter, the identifier counter, and the registered output
//! sinks keyed by identifier. Identifiers are assigned in strictly
//! increasing order and never reused. Broadcasting is two-phase: the caller
//! writes to every sink first, then hands the outcomes back, and the failed
//! identifiers are removed only after the full pass — the registry is never
//! mutated while it is being iterated.

use vstd::prelude::*;
use crate::filter::FilterType;

verus! {

/// Shared server state. The sink type is left generic: the registry never
/// touches a sink itself, it only owns them and keys them by identifier.
pub struct State<S> {
    pub filter: FilterType,
    pub con_count: usize,
    pub streams: Vec<(usize, S)>,
}

/// The identifiers of a sequence of registry entries, in entry order.
pub open spec fn ids_of<S>(entries: Seq<(usize, S)>) -> Seq<usize> {
    entries.map_values(|e: (usize, S)| e.0)
}

/// Entry identifiers strictly increase left to right (so they are unique).
pub open spec fn ids_sorted<S>(entries: Seq<(usize, S)>) -> bool {
    forall|i: int, j: int|
        #![trigger entries[i], entries[j]]
        0 <= i < j < entries.len() ==> entries[i].0 < entries[j].0
}

/// The entries that survive a prune pass: those whose identifier is not in
/// the collected removal set, kept in their original order.
pub open spec fn pruned<S>(entries: Seq<(usize, S)>, failed: Seq<usize>) -> Seq<(usize, S)>
    decreases entries.len(),
{
    if entries.len() == 0 {
        Seq::empty()
    } else {
        let rest = pruned(entries.drop_last(), failed);
        if failed.contains(entries.last().0) {
            rest
        } else {
            rest.push(entries.last())
        }
    }
}

/// The identifiers collected during a broadcast pass: those whose write or
/// flush outcome was a failure, in pass order.
pub open spec fn failed_of(ids: Seq<usize>, ok: Seq<bool>) -> Seq<usize>
    decreases ids.len(),
{
    if ids.len() == 0 || ids.len() != ok.len() {
        Seq::empty()
    } else {
        let rest = failed_of(ids.drop_last(), ok.drop_last());
        if ok.last() {
            rest
        } else {
            rest.push(ids.last())
        }
    }
}

impl<S> State<S> {
    /// The identifiers currently registered, in entry order.
    pub open spec fn ids(&self) -> Seq<usize> {
        ids_of(self.streams@)
    }

    /// The registry invariant: identifiers strictly increase in entry order
    /// and never exceed the counter, so every identifier is unique for the
    /// process lifetime and a pruned identifier can never collide with a
    /// later one.
    pub open spec fn wf(&self) -> bool {
        &&& ids_sorted(self.streams@)
        &&& forall|i: int|
            #![trigger self.streams@[i]]
            0 <= i < self.streams@.len() ==> self.streams@[i].0 <= self.con_count
    }

    /// Registers a sink under the next identifier and returns it.
    pub fn insert_stream(&mut self, stream: S) -> (id: usize)
        requires
            old(self).wf(),
            old(self).con_count < usize::MAX,
        ensures
            id == old(self).con_count + 1,
            final(self).con_count == id,
            final(self).filter == old(self).filter,
            final(self).streams@ == old(self).streams@.push((id, stream)),
            final(self).wf(),
    {
        self.con_count = self.con_count + 1;
        let id = self.con_count;
        self.streams.push((id, stream));
        id
    }

    /// How many sinks are registered.
    pub fn stream_count(&self) -> (n: usize)
        ensures
            n == self.streams@.len(),
    {
        self.streams.len()
    }

    /// The identifier of the entry at `index`.
    pub fn id_at(&self, index: usize) -> (id: usize)
        requires
            index < self.streams@.len(),
        ensures
            id == self.streams@[index as int].0,
    {
        self.streams[index].0
    }

    /// A borrow of the sink at `index`, for one write of the broadcast pass.
    pub fn sink_at(&self, index: usize) -> (sink: &S)
        requires
            index < self.streams@.len(),
        ensures
            *sink == self.streams@[index as int].1,
    {
        &self.streams[index].1
    }

    /// All registered identifiers, in entry order.
    pub fn id_list(&self) -> (ids: Vec<usize>)
        ensures
            ids@ == self.ids(),
    {
        let n = self.streams.len();
        let mut ids: Vec<usize> = Vec::new();
        let mut i: usize = 0;
        while i < n
            invariant
                n == self.streams@.len(),
                i <= n,
                ids@.len() == i,
                forall|j: int| 0 <= j < i ==> ids@[j] == self.streams@[j].0,
            decreases n - i,
        {
            ids.push(self.streams[i].0);
            i += 1;
        }
        proof {
            assert(ids@ =~= self.ids());
        }
        ids
    }

    /// The second phase of a broadcast: removes exactly the entries whose
    /// identifier was collected during the pass, after the pass is over.
    /// Entry order and the identifier counter are untouched.
    pub fn prune(&mut self, failed: &Vec<usize>)
        requires
            old(self).wf(),
        ensures
            final(self).streams@ == pruned(old(self).streams@, failed@),
            final(self).con_count == old(self).con_count,
            final(self).filter == old(self).filter,
            final(self).wf(),
    {
        let ghost original: Seq<(usize, S)> = self.streams@;
        let ghost orig_count: usize = self.con_count;
        let ghost orig_filter: FilterType = self.filter;
        let mut taken: Vec<(usize, S)> = Vec::new();
        core::mem::swap(&mut self.streams, &mut taken);
        proof {
            assert(pruned(original, failed@) =~= pruned(taken@, failed@) + self.streams@);
        }
        while taken.len() > 0
            invariant
                pruned(original, failed@) =~= pruned(taken@, failed@) + self.streams@,
                self.con_count == orig_count,
                self.filter == orig_filter,
            decreases taken@.len(),
        {
            let ghost taken_before = taken@;
            let ghost streams_before = self.streams@;
            let entry = taken.pop().unwrap();
            proof {
                assert(taken@ =~= taken_before.drop_last());
                assert(entry == taken_before.last());
            }
            if contains_id(failed, entry.0) {
                proof {
                    assert(pruned(taken_before, failed@) =~= pruned(taken@, failed@));
                }
            } else {
                self.streams.insert(0, entry);
                proof {
                    assert(self.streams@ =~= seq![entry] + streams_before);
                    assert(pruned(taken_before, failed@) =~= pruned(taken@, failed@).push(entry));
                    assert(pruned(taken@, failed@) + self.streams@ =~= pruned(
                        taken_before,
                        failed@,
                    ) + streams_before);
                }
            }
        }
        proof {
            assert(taken@.len() == 0);
            assert(pruned(taken@, failed@) =~= Seq::<(usize, S)>::empty());
            assert(self.streams@ =~= pruned(original, failed@));
            lemma_pruned_membership(original, failed@);
            lemma_pruned_sorted(original, failed@);
            assert forall|i: int|
                0 <= i < self.streams@.len() implies self.streams@[i].0 <= self.con_count by {
                assert(pruned(original, failed@)[i] == self.streams@[i]);
                assert(original.contains(self.streams@[i]));
                let j = choose|j: int| 0 <= j < original.len() && original[j] == self.streams@[i];
                assert(original[j].0 <= orig_count);
            }
        }
    }
}

impl<S> Default for State<S> {
    /// The initial server state: red-key filter, no connections yet.
    fn default() -> (s: Self)
        ensures
            s.filter == FilterType::Red,
            s.con_count == 0,
            s.streams@ == Seq::<(usize, S)>::empty(),
            s.wf(),
    {
        State { filter: FilterType::Red, con_count: 0, streams: Vec::new() }
    }
}

/// Whether `id` is in the collected removal set.
fn contains_id(failed: &Vec<usize>, id: usize) -> (present: bool)
    ensures
        present == failed@.contains(id),
{
    let n = failed.len();
    let mut i: usize = 0;
    while i < n
        invariant
            n == failed@.len(),
            i <= n,
            forall|j: int| 0 <= j < i ==> failed@[j] != id,
        decreases n - i,
    {
        if failed[i] == id {
            return true;
        }
        i += 1;
    }
    false
}

/// The first phase's result: given the identifiers a broadcast pass visited
/// and each write-and-flush outcome, collects the identifiers to remove.
/// Nothing is removed here — the caller finishes the pass first and only
/// then hands the collection to `prune`.
pub fn collect_failed(ids: &Vec<usize>, ok: &Vec<bool>) -> (failed: Vec<usize>)
    requires
        ids@.len() == ok@.len(),
    ensures
        failed@ == failed_of(ids@, ok@),
{
    let n = ids.len();
    let mut failed: Vec<usize> = Vec::new();
    let mut i: usize = 0;
    while i < n
        invariant
            n == ids@.len(),
            ok@.len() == n,
            i <= n,
            failed@ == failed_of(ids@.take(i as int), ok@.take(i as int)),
        decreases n - i,
    {
        if !ok[i] {
            failed.push(ids[i]);
        }
        i += 1;
        proof {
            let t = ids@.take(i as int);
            let u = ok@.take(i as int);
            assert(t.drop_last() =~= ids@.take(i - 1));
            assert(u.drop_last() =~= ok@.take(i - 1));
            assert(t.last() == ids@[i - 1]);
            assert(u.last() == ok@[i - 1]);
            assert(failed@ =~= failed_of(t, u));
        }
    }
    proof {
        assert(ids@.take(n as int) =~= ids@);
        assert(ok@.take(n as int) =~= ok@);
    }
    failed
}

/// Every surviving entry of a prune pass was present before the pass.
pub proof fn lemma_pruned_membership<S>(entries: Seq<(usize, S)>, failed: Seq<usize>)
    ensures
        forall|k: int|
            #![trigger pruned(entries, failed)[k]]
            0 <= k < pruned(entries, failed).len() ==> entries.contains(pruned(entries, failed)[k]),
    decreases entries.len(),
{
    if entries.len() > 0 {
        lemma_pruned_membership(entries.drop_last(), failed);
        assert forall|k: int|
            0 <= k < pruned(entries, failed).len() implies entries.contains(
            pruned(entries, failed)[k],
        ) by {
            let p = pruned(entries, failed);
            let rest = pruned(entries.drop_last(), failed);
            if k < rest.len() {
                let e = rest[k];
                assert(entries.drop_last().contains(e));
                let j = choose|j: int| 0 <= j < entries.drop_last().len() && entries.drop_last()[j] == e;
                assert(entries[j] == e);
            } else {
                assert(p[k] == entries.last());
                assert(entries[entries.len() - 1] == entries.last());
            }
        }
    }
}

/// Registry monotonicity: in a well-formed registry the identifier that
/// `insert_stream` issues next, `con_count + 1`, is strictly greater than
/// every registered identifier, and in particular not among them.
/// `insert_stream` is the only operation that issues identifiers and the
/// only one that changes `con_count` (it increments it), and `prune` leaves
/// `con_count` untouched while only removing entries — so across any
/// sequence of register and broadcast-prune operations the issued
/// identifiers strictly increase and are never reused, even after removals.
pub proof fn lemma_next_id_fresh<S>(s: State<S>)
    requires
        s.wf(),
        s.con_count < usize::MAX,
    ensures
        forall|i: int|
            #![trigger s.ids()[i]]
            0 <= i < s.ids().len() ==> s.ids()[i] < s.con_count + 1,
        !s.ids().contains((s.con_count + 1) as usize),
{
    assert forall|i: int| 0 <= i < s.ids().len() implies s.ids()[i] < s.con_count + 1 by {
        assert(s.streams@[i].0 <= s.con_count);
    }
    if s.ids().contains((s.con_count + 1) as usize) {
        let i = choose|i: int|
            0 <= i < s.ids().len() && s.ids()[i] == (s.con_count + 1) as usize;
        assert(s.ids()[i] < s.con_count + 1);
    }
}

/// With every outcome a success, a broadcast pass collects nothing.
pub proof fn lemma_failed_of_all_ok(ids: Seq<usize>, ok: Seq<bool>)
    requires
        ids.len() == ok.len(),
        forall|i: int| 0 <= i < ok.len() ==> ok[i],
    ensures
        failed_of(ids, ok) =~= Seq::<usize>::empty(),
    decreases ids.len(),
{
    if ids.len() > 0 {
        assert(ok[ok.len() - 1]);
        lemma_failed_of_all_ok(ids.drop_last(), ok.drop_last());
    }
}

/// With exactly one failed outcome, exactly its identifier is collected.
pub proof fn lemma_failed_of_single(ids: Seq<usize>, ok: Seq<bool>, k: int)
    requires
        ids.len() == ok.len(),
        0 <= k < ids.len(),
        !ok[k],
        forall|i: int| 0 <= i < ids.len() && i != k ==> ok[i],
    ensures
        failed_of(ids, ok) =~= seq![ids[k]],
    decreases ids.len(),
{
    let n = ids.len() as int;
    if k == n - 1 {
        lemma_failed_of_all_ok(ids.drop_last(), ok.drop_last());
    } else {
        assert(ok[n - 1]);
        lemma_failed_of_single(ids.drop_last(), ok.drop_last(), k);
        assert(ids.drop_last()[k] == ids[k]);
    }
}

/// Entries whose identifiers avoid the removal set survive a prune pass
/// untouched.
pub proof fn lemma_pruned_no_hit<S>(entries: Seq<(usize, S)>, failed: Seq<usize>)
    requires
        forall|i: int|
            #![trigger entries[i]]
            0 <= i < entries.len() ==> !failed.contains(entries[i].0),
    ensures
        pruned(entries, failed) =~= entries,
    decreases entries.len(),
{
    if entries.len() > 0 {
        lemma_pruned_no_hit(entries.drop_last(), failed);
        assert(entries[entries.len() - 1] == entries.last());
        assert(!failed.contains(entries.last().0));
    }
}

/// A prune pass against a one-identifier removal set removes exactly the
/// one entry carrying it, when no other entry carries it.
proof fn lemma_pruned_single_id<S>(entries: Seq<(usize, S)>, x: usize, k: int)
    requires
        0 <= k < entries.len(),
        entries[k].0 == x,
        forall|i: int|
            #![trigger entries[i]]
            0 <= i < entries.len() && i != k ==> entries[i].0 != x,
    ensures
        pruned(entries, seq![x]) =~= entries.remove(k),
    decreases entries.len(),
{
    let n = entries.len() as int;
    assert(seq![x][0] == x);
    if k == n - 1 {
        assert(seq![x].contains(entries.last().0));
        assert forall|i: int|
            0 <= i < entries.drop_last().len() implies !seq![x].contains(
            entries.drop_last()[i].0,
        ) by {
            assert(entries.drop_last()[i] == entries[i]);
            if seq![x].contains(entries[i].0) {
                let m = choose|m: int| 0 <= m < 1 && seq![x][m] == entries[i].0;
                assert(entries[i].0 == x);
            }
        }
        lemma_pruned_no_hit(entries.drop_last(), seq![x]);
        assert(entries.remove(k) =~= entries.drop_last());
    } else {
        assert(entries.last() == entries[n - 1]);
        if seq![x].contains(entries.last().0) {
            let m = choose|m: int| 0 <= m < 1 && seq![x][m] == entries.last().0;
            assert(entries[n - 1].0 == x);
        }
        assert(!seq![x].contains(entries.last().0));
        assert(entries.drop_last()[k] == entries[k]);
        lemma_pruned_single_id(entries.drop_last(), x, k);
        assert(pruned(entries, seq![x]) =~= entries.drop_last().remove(k).push(entries.last()));
        assert(entries.remove(k) =~= entries.drop_last().remove(k).push(entries.last()));
    }
}

/// Prune safety: when the entry at `k` alone fails its write during a
/// broadcast pass over a well-formed registry, the collect-then-prune pass
/// removes exactly that entry and keeps the other entries, in order.
pub proof fn lemma_broadcast_prunes_exactly_failed<S>(entries: Seq<(usize, S)>, ok: Seq<bool>, k: int)
    requires
        ids_sorted(entries),
        ok.len() == entries.len(),
        0 <= k < entries.len(),
        !ok[k],
        forall|i: int| 0 <= i < entries.len() && i != k ==> ok[i],
    ensures
        pruned(entries, failed_of(ids_of(entries), ok)) =~= entries.remove(k),
{
    let ids = ids_of(entries);
    assert(ids.len() == entries.len());
    assert(ids[k] == entries[k].0);
    lemma_failed_of_single(ids, ok, k);
    assert(failed_of(ids, ok) =~= seq![entries[k].0]);
    assert(failed_of(ids, ok) == seq![entries[k].0]);
    assert forall|i: int|
        0 <= i < entries.len() && i != k implies entries[i].0 != entries[k].0 by {
        if i < k {
            assert(entries[i].0 < entries[k].0);
        } else {
            assert(entries[k].0 < entries[i].0);
        }
    }
    lemma_pruned_single_id(entries, entries[k].0, k);
}

/// A prune pass keeps the strict identifier order of the surviving entries.
pub proof fn lemma_pruned_sorted<S>(entries: Seq<(usize, S)>, failed: Seq<usize>)
    requires
        ids_sorted(entries),
    ensures
        ids_sorted(pruned(entries, failed)),
    decreases entries.len(),
{
    if entries.len() > 0 {
        let rest = entries.drop_last();
        assert(ids_sorted(rest));
        lemma_pruned_sorted(rest, failed);
        lemma_pruned_membership(rest, failed);
        let p = pruned(entries, failed);
        if !failed.contains(entries.last().0) {
            let q = pruned(rest, failed);
            assert forall|i: int, j: int|
                0 <= i < j < p.len() implies p[i].0 < p[j].0 by {
                if j < q.len() {
                    assert(p[i] == q[i] && p[j] == q[j]);
                } else {
                    assert(p[j] == entries.last());
                    assert(rest.contains(q[i]));
                    let m = choose|m: int| 0 <= m < rest.len() && rest[m] == q[i];
                    assert(entries[m] == q[i]);
                    assert(entries[m].0 < entries[entries.len() - 1].0);
                }
            }
        }
    }
}

} // verus!
