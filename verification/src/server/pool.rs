//! The pool of ready containers. Sessions ask for a container; a ready
//! container goes to the most recent request; when a container is deleted,
//! a replacement is started if fewer than `pool_size` containers are ready
//! or being created.
//!
//! Ready containers are kept by their Docker id, so that no container is
//! ready twice. The pool is generic over the container handle `C` and over
//! the handle `W` through which a request receives its container.
use vstd::prelude::*;
use std::collections::VecDeque;

verus! {

broadcast use vstd::std_specs::vecdeque::group_vec_dequeue_axioms;

pub struct ContainerPool<C, W> {
    pool_size: u32,
    /// Containers that are ready and not handed out, with their Docker ids.
    available: Vec<(String, C)>,
    /// Requests waiting for a container, oldest first.
    waiting: VecDeque<W>,
    /// Replacement containers being created.
    creating: u32,
}

/// The pool as a value: its size, the ready containers (Docker id and
/// handle), the waiting requests (oldest first) and the number of
/// replacements in progress.
pub struct PoolView<C, W> {
    pub pool_size: nat,
    pub available: Seq<(Seq<char>, C)>,
    pub waiting: Seq<W>,
    pub creating: nat,
}

/// No Docker id occurs twice among the ready containers.
pub open spec fn distinct_ids<C>(s: Seq<(Seq<char>, C)>) -> bool {
    forall|i: int, j: int| 0 <= i < j < s.len() ==> (#[trigger] s[i]).0 != (#[trigger] s[j]).0
}

/// The ready containers after `c` with id `k` becomes ready, as inserting it
/// into a map by id does: a container already kept under that id is
/// replaced in its place, a new id is added at the end.
pub open spec fn put<C>(s: Seq<(Seq<char>, C)>, k: Seq<char>, c: C) -> Seq<(Seq<char>, C)> {
    if exists|i: int| 0 <= i < s.len() && (#[trigger] s[i]).0 == k {
        s.update(choose|i: int| 0 <= i < s.len() && (#[trigger] s[i]).0 == k, (k, c))
    } else {
        s.push((k, c))
    }
}

/// Whether a deletion starts a replacement: fewer than `pool_size`
/// containers are ready or being created.
pub open spec fn replacement_needed<C, W>(p: PoolView<C, W>) -> bool {
    p.available.len() + p.creating < p.pool_size
}

/// The pool after a container's deletion: one more replacement in progress
/// where one is needed, else unchanged.
pub open spec fn after_deletion<C, W>(p: PoolView<C, W>) -> PoolView<C, W> {
    if replacement_needed(p) { PoolView { creating: p.creating + 1, ..p } } else { p }
}

/// What a dispatch does: when a container is ready and a request waits, the
/// most recent request gets the last ready container.
pub open spec fn dispatched<C, W>(p: PoolView<C, W>) -> (Option<(W, C)>, PoolView<C, W>) {
    if p.available.len() > 0 && p.waiting.len() > 0 {
        (
            Some((p.waiting.last(), p.available.last().1)),
            PoolView { available: p.available.drop_last(), waiting: p.waiting.drop_last(), ..p },
        )
    } else {
        (None, p)
    }
}

/// No more containers are ready or on their way than the pool's size.
pub open spec fn within_size<C, W>(p: PoolView<C, W>) -> bool {
    p.available.len() + p.creating <= p.pool_size
}

/// Entries keyed by Docker id, as values.
pub open spec fn keyed_view<C>(v: Seq<(String, C)>) -> Seq<(Seq<char>, C)> {
    v.map_values(|e: (String, C)| (e.0@, e.1))
}

/// The entries without the one kept under id `k`, if any.
pub open spec fn drop_id<C>(s: Seq<(Seq<char>, C)>, k: Seq<char>) -> Seq<(Seq<char>, C)> {
    if exists|i: int| 0 <= i < s.len() && (#[trigger] s[i]).0 == k {
        s.remove(choose|i: int| 0 <= i < s.len() && (#[trigger] s[i]).0 == k)
    } else {
        s
    }
}

/// The index of the entry kept under `id`, if any.
fn find_id<C>(v: &Vec<(String, C)>, id: &String) -> (r: Option<usize>)
    requires
        distinct_ids(keyed_view(v@)),
    ensures
        match r {
            Some(j) => j < v@.len() && v@[j as int].0@ == id@
                && j as int == choose|i: int| 0 <= i < keyed_view(v@).len() && (#[trigger] keyed_view(v@)[i]).0 == id@,
            None => !exists|i: int| 0 <= i < keyed_view(v@).len() && (#[trigger] keyed_view(v@)[i]).0 == id@,
        },
{
    let ghost s = keyed_view(v@);
    let mut j: usize = 0;
    while j < v.len()
        invariant
            j <= v@.len(),
            s == keyed_view(v@),
            distinct_ids(s),
            forall|k: int| 0 <= k < j ==> (#[trigger] s[k]).0 != id@,
        decreases v@.len() - j,
    {
        if v[j].0 == *id {
            proof {
                assert(s[j as int].0 == id@);
                let i = choose|i: int| 0 <= i < s.len() && (#[trigger] s[i]).0 == id@;
                if i != j as int {
                    if i < j as int {
                        assert(s[i].0 != s[j as int].0);
                    } else {
                        assert(s[j as int].0 != s[i].0);
                    }
                }
            }
            return Some(j);
        }
        j = j + 1;
    }
    None
}

/// Keeps `c` under id `id`, as inserting it into a map by id does.
fn put_keyed<C>(v: &mut Vec<(String, C)>, id: String, c: C)
    requires
        distinct_ids(keyed_view(old(v)@)),
    ensures
        keyed_view(final(v)@) == put(keyed_view(old(v)@), id@, c),
        distinct_ids(keyed_view(final(v)@)),
{
    let ghost before = keyed_view(v@);
    match find_id(v, &id) {
        Some(j) => {
            proof {
                assert(before[j as int].0 == id@);
            }
            v.set(j, (id, c));
            proof {
                let after = keyed_view(v@);
                assert(after =~= before.update(j as int, (id@, c)));
                assert forall|a: int, b: int| 0 <= a < b < after.len() implies (#[trigger] after[a]).0 != (#[trigger] after[b]).0 by {
                    if a == j as int {
                        assert(before[b].0 != before[a].0);
                    } else if b == j as int {
                        assert(before[a].0 != before[b].0);
                    } else {
                        assert(before[a].0 != before[b].0);
                    }
                }
            }
        },
        None => {
            v.push((id, c));
            proof {
                let after = keyed_view(v@);
                assert(after =~= before.push((id@, c)));
                assert forall|a: int, b: int| 0 <= a < b < after.len() implies (#[trigger] after[a]).0 != (#[trigger] after[b]).0 by {
                    if b == before.len() {
                        assert(before[a].0 != id@);
                    } else {
                        assert(before[a].0 != before[b].0);
                    }
                }
            }
        },
    }
}

/// The record of every container made, by Docker id, with what the server
/// keeps of it (such as its socket directory); a deleted container leaves
/// it.
pub struct ContainerRegistry<D> {
    entries: Vec<(String, D)>,
}

impl<D> ContainerRegistry<D> {
    /// The recorded containers, by Docker id.
    pub closed spec fn view(&self) -> Seq<(Seq<char>, D)> {
        keyed_view(self.entries@)
    }

    /// No Docker id is recorded twice.
    pub closed spec fn wf(&self) -> bool {
        distinct_ids(self.view())
    }

    pub fn new() -> (r: Self)
        ensures
            r.wf(),
            r.view() == Seq::<(Seq<char>, D)>::empty(),
    {
        let r = ContainerRegistry { entries: Vec::new() };
        assert(r.view() =~= Seq::<(Seq<char>, D)>::empty());
        r
    }

    /// Records a container made under id `id`.
    pub fn record(&mut self, id: String, d: D)
        requires
            old(self).wf(),
        ensures
            final(self).wf(),
            final(self).view() == put(old(self).view(), id@, d),
    {
        put_keyed(&mut self.entries, id, d);
    }

    /// Forgets the container with id `id` (nothing changes where there is
    /// none).
    pub fn forget(&mut self, id: &String)
        requires
            old(self).wf(),
        ensures
            final(self).wf(),
            final(self).view() == drop_id(old(self).view(), id@),
    {
        let ghost before = self.view();
        match find_id(&self.entries, id) {
            Some(j) => {
                proof {
                    assert(before[j as int].0 == id@);
                }
                let _ = self.entries.remove(j);
                proof {
                    let after = self.view();
                    assert(after =~= before.remove(j as int));
                    assert forall|a: int, b: int| 0 <= a < b < after.len() implies (#[trigger] after[a]).0 != (#[trigger] after[b]).0 by {
                        if a < j as int && b < j as int {
                            assert(before[a].0 != before[b].0);
                        } else if a < j as int {
                            assert(after[b] == before[b + 1]);
                            assert(before[a].0 != before[b + 1].0);
                        } else {
                            assert(after[a] == before[a + 1] && after[b] == before[b + 1]);
                            assert(before[a + 1].0 != before[b + 1].0);
                        }
                    }
                }
            },
            None => {},
        }
    }

    /// The recorded containers.
    pub fn entries(&self) -> (r: &Vec<(String, D)>)
        ensures
            keyed_view(r@) == self.view(),
    {
        &self.entries
    }
}

impl<C, W> ContainerPool<C, W> {
    pub closed spec fn view(&self) -> PoolView<C, W> {
        PoolView {
            pool_size: self.pool_size as nat,
            available: self.available@.map_values(|e: (String, C)| (e.0@, e.1)),
            waiting: self.waiting@,
            creating: self.creating as nat,
        }
    }

    /// An empty pool of the given size; the initial containers are added
    /// with `add_initial` as they come up.
    pub fn new(pool_size: u32) -> (r: Self)
        ensures
            r.view() == (PoolView::<C, W> {
                pool_size: pool_size as nat,
                available: Seq::empty(),
                waiting: Seq::empty(),
                creating: 0,
            }),
    {
        let r = ContainerPool { pool_size, available: Vec::new(), waiting: VecDeque::new(), creating: 0 };
        assert(r.view().available =~= Seq::<(Seq<char>, C)>::empty());
        r
    }

    /// Makes `container`, with Docker id `id`, ready.
    fn put_ready(&mut self, id: String, container: C)
        requires
            distinct_ids(old(self).view().available),
        ensures
            final(self).view() == (PoolView {
                available: put(old(self).view().available, id@, container),
                ..old(self).view()
            }),
            distinct_ids(final(self).view().available),
    {
        put_keyed(&mut self.available, id, container);
    }

    /// One of the initial containers, with Docker id `id`, is ready.
    pub fn add_initial(&mut self, id: String, container: C)
        requires
            distinct_ids(old(self).view().available),
        ensures
            final(self).view() == (PoolView {
                available: put(old(self).view().available, id@, container),
                ..old(self).view()
            }),
            distinct_ids(final(self).view().available),
    {
        self.put_ready(id, container);
    }

    /// A request for a container; it waits until `dispatch` serves it.
    pub fn take_one(&mut self, waiter: W)
        ensures
            final(self).view() == (PoolView { waiting: old(self).view().waiting.push(waiter), ..old(self).view() }),
    {
        self.waiting.push_back(waiter);
    }

    /// Whether the deletion of a container calls for a replacement.
    pub fn should_replace(&self) -> (r: bool)
        ensures
            r == replacement_needed(self.view()),
            r <==> self.view().available.len() + self.view().creating < self.view().pool_size,
    {
        (self.available.len() as u128) + (self.creating as u128) < self.pool_size as u128
    }

    /// How many replacement containers are being created.
    pub fn creating(&self) -> (r: u32)
        ensures
            r == self.view().creating,
    {
        self.creating
    }

    /// A replacement container is being created.
    pub fn creation_started(&mut self)
        requires
            old(self).view().creating < u32::MAX,
        ensures
            final(self).view() == (PoolView { creating: old(self).view().creating + 1, ..old(self).view() }),
    {
        self.creating = self.creating + 1;
    }

    /// A container was deleted: when fewer than `pool_size` containers are
    /// ready or being created, one replacement starts (the result says
    /// whether it did); otherwise nothing changes.
    pub fn on_deletion(&mut self) -> (r: bool)
        ensures
            r <==> old(self).view().available.len() + old(self).view().creating < old(self).view().pool_size,
            final(self).view().creating == (if r { old(self).view().creating + 1 } else { old(self).view().creating }),
            final(self).view().available == old(self).view().available,
            final(self).view().waiting == old(self).view().waiting,
            final(self).view().pool_size == old(self).view().pool_size,
            r == replacement_needed(old(self).view()),
            final(self).view() == after_deletion(old(self).view()),
    {
        if self.should_replace() {
            self.creation_started();
            true
        } else {
            false
        }
    }

    /// A replacement container, with Docker id `id`, is ready.
    pub fn creation_finished(&mut self, id: String, container: C)
        requires
            old(self).view().creating > 0,
            distinct_ids(old(self).view().available),
        ensures
            final(self).view() == (PoolView {
                available: put(old(self).view().available, id@, container),
                creating: (old(self).view().creating - 1) as nat,
                ..old(self).view()
            }),
            distinct_ids(final(self).view().available),
    {
        self.put_ready(id, container);
        self.creating = self.creating - 1;
    }

    /// Serves the most recent request with a ready container, if there are
    /// both; otherwise nothing changes.
    pub fn dispatch(&mut self) -> (r: Option<(W, C)>)
        ensures
            (r, final(self).view()) == dispatched(old(self).view()),
    {
        if self.available.len() == 0 || self.waiting.len() == 0 {
            return None;
        }
        let waiter = self.waiting.pop_back();
        let ready = self.available.pop();
        proof {
            assert(self.available@.map_values(|e: (String, C)| (e.0@, e.1))
                =~= old(self).available@.map_values(|e: (String, C)| (e.0@, e.1)).drop_last());
        }
        match (waiter, ready) {
            (Some(w), Some((_, c))) => Some((w, c)),
            _ => None,
        }
    }
}

/// A dispatch hands out a container that was ready, to a request that was
/// waiting, and removes exactly those two: every other ready container and
/// every other waiting request stays, in order.
pub proof fn dispatch_moves_one_pair<C, W>(p: PoolView<C, W>)
    ensures
        dispatched(p).0 matches Some((w, c)) ==> {
            &&& p.available.len() > 0 && p.waiting.len() > 0
            &&& c == p.available.last().1
            &&& dispatched(p).1.available.push(p.available.last()) == p.available
            &&& dispatched(p).1.waiting.push(w) == p.waiting
            &&& dispatched(p).1.creating == p.creating
        },
        dispatched(p).0 is None ==> dispatched(p).1 == p,
{
    if p.available.len() > 0 && p.waiting.len() > 0 {
        assert(p.available.drop_last().push(p.available.last()) =~= p.available);
        assert(p.waiting.drop_last().push(p.waiting.last()) =~= p.waiting);
    }
}

/// A request is served as soon as a container is ready: after a request
/// arrives at a pool with a ready container, dispatching serves it.
pub proof fn new_request_served_first<C, W>(p: PoolView<C, W>, w: W)
    requires
        p.available.len() > 0,
    ensures
        dispatched(PoolView { waiting: p.waiting.push(w), ..p }).0 == Some((w, p.available.last().1)),
{
}

/// Replacements never push the pool past its size: every operation but the
/// initial fill keeps "ready + being created ≤ pool size", where a
/// replacement is started only when `should_replace` said so.
pub proof fn pool_stays_within_size<C, W>(p: PoolView<C, W>, id: Seq<char>, c: C, w: W)
    requires
        within_size(p),
    ensures
        replacement_needed(p) ==> within_size(PoolView { creating: p.creating + 1, ..p }),
        p.creating > 0 ==> within_size(PoolView {
            available: put(p.available, id, c),
            creating: (p.creating - 1) as nat,
            ..p
        }),
        within_size(dispatched(p).1),
        within_size(PoolView { waiting: p.waiting.push(w), ..p }),
{
}

} // verus!

verus! {

/// No container is ready twice: making a container ready, or handing the
/// last one out, keeps every Docker id among the ready containers distinct,
/// and a container made ready under an id is the one kept under it.
pub proof fn ready_ids_stay_distinct<C>(s: Seq<(Seq<char>, C)>, id: Seq<char>, c: C)
    requires
        distinct_ids(s),
    ensures
        distinct_ids(put(s, id, c)),
        s.len() > 0 ==> distinct_ids(s.drop_last()),
        exists|i: int| 0 <= i < put(s, id, c).len() && #[trigger] put(s, id, c)[i] == (id, c),
        put(s, id, c).len() <= s.len() + 1,
{
    if exists|i: int| 0 <= i < s.len() && (#[trigger] s[i]).0 == id {
        let i = choose|i: int| 0 <= i < s.len() && (#[trigger] s[i]).0 == id;
        let t = put(s, id, c);
        assert(t[i] == (id, c));
        assert forall|a: int, b: int| 0 <= a < b < t.len() implies (#[trigger] t[a]).0 != (#[trigger] t[b]).0 by {
            assert(s[a].0 != s[b].0);
        }
    } else {
        let t = put(s, id, c);
        assert(t[s.len() as int] == (id, c));
        assert forall|a: int, b: int| 0 <= a < b < t.len() implies (#[trigger] t[a]).0 != (#[trigger] t[b]).0 by {
            if b == s.len() {
                assert(s[a].0 != id);
            } else {
                assert(s[a].0 != s[b].0);
            }
        }
    }
    if s.len() > 0 {
        let d = s.drop_last();
        assert forall|a: int, b: int| 0 <= a < b < d.len() implies (#[trigger] d[a]).0 != (#[trigger] d[b]).0 by {
            assert(s[a].0 != s[b].0);
        }
    }
}

/// A deletion starts a replacement exactly when fewer than `pool_size`
/// containers are ready or being created, whatever the pool's size.
pub proof fn deletion_refills_below_size<C, W>(p: PoolView<C, W>)
    ensures
        p.available.len() + p.creating < p.pool_size ==> replacement_needed(p)
            && after_deletion(p).creating == p.creating + 1,
        p.available.len() + p.creating >= p.pool_size ==> !replacement_needed(p) && after_deletion(p) == p,
{
}

/// A deletion starts at most one replacement, none when the pool is full,
/// and keeps the pool within its size.
pub proof fn deletion_starts_at_most_one<C, W>(p: PoolView<C, W>)
    requires
        within_size(p),
    ensures
        after_deletion(p).creating <= p.creating + 1,
        !replacement_needed(p) ==> after_deletion(p) == p,
        after_deletion(p).available == p.available && after_deletion(p).waiting == p.waiting,
        within_size(after_deletion(p)),
{
}

} // verus!
