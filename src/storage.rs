//! The store of entries: ids handed out in increasing order, rows kept in
//! capture order, lookup, listing, search and retention.
use vstd::prelude::*;
use crate::clock::now_timestamp;
use crate::config::RETENTION_HOURS;
use crate::entry::{Entry, EntryView};
use crate::error::StickyError;
use crate::text::{contains_text, occurs_in};

verus! {

/// The values of a run of entries.
pub open spec fn views(s: Seq<Entry>) -> Seq<EntryView> {
    s.map_values(|e: Entry| e@)
}

/// `a` comes before `b` in capture order: earlier time, or the same time and
/// a smaller id.
pub open spec fn before(a: EntryView, b: EntryView) -> bool {
    a.created_at < b.created_at || (a.created_at == b.created_at && a.id < b.id)
}

/// Rows in capture order with distinct ids, all below `next_id`, which is
/// the id that the next insert receives.
pub open spec fn store_wf(rows: Seq<EntryView>, next_id: int) -> bool {
    &&& 1 <= next_id <= i64::MAX
    &&& forall|i: int| 0 <= i < rows.len() ==> 1 <= #[trigger] rows[i].id < next_id
    &&& forall|i: int, j: int| 0 <= i < j < rows.len() ==> before(#[trigger] rows[i], #[trigger] rows[j])
    &&& forall|i: int, j: int|
        0 <= i < rows.len() && 0 <= j < rows.len() && i != j ==> #[trigger] rows[i].id
            != #[trigger] rows[j].id
}

/// How many rows were captured at or before time `at`.
pub open spec fn count_at_or_before(rows: Seq<EntryView>, at: int) -> nat
    decreases rows.len(),
{
    if rows.len() == 0 {
        0
    } else {
        count_at_or_before(rows.drop_last(), at) + if rows.last().created_at <= at {
            1nat
        } else {
            0nat
        }
    }
}

/// The rows once `e` has been placed after every row captured at or before its
/// time and ahead of every later one.
pub open spec fn inserted(rows: Seq<EntryView>, e: EntryView) -> Seq<EntryView> {
    rows.insert(count_at_or_before(rows, e.created_at) as int, e)
}

/// The row with id `id`, if there is one.
pub open spec fn lookup(rows: Seq<EntryView>, id: int) -> Option<EntryView> {
    if exists|i: int| 0 <= i < rows.len() && #[trigger] rows[i].id == id {
        Some(rows[choose|i: int| 0 <= i < rows.len() && #[trigger] rows[i].id == id])
    } else {
        None
    }
}

/// The rows, newest first.
pub open spec fn newest_first(rows: Seq<EntryView>) -> Seq<EntryView>
    decreases rows.len(),
{
    if rows.len() == 0 {
        seq![]
    } else {
        newest_first(rows.drop_first()).push(rows[0])
    }
}

/// An entry that a search for `q` finds: it has text, and `q` occurs in it.
pub open spec fn matches_query(e: EntryView, q: Seq<char>) -> bool {
    e.content is Some && occurs_in(q, e.content->0)
}

/// The rows that a search for `q` finds, newest first.
pub open spec fn found_newest_first(rows: Seq<EntryView>, q: Seq<char>) -> Seq<EntryView>
    decreases rows.len(),
{
    if rows.len() == 0 {
        seq![]
    } else if matches_query(rows[0], q) {
        found_newest_first(rows.drop_first(), q).push(rows[0])
    } else {
        found_newest_first(rows.drop_first(), q)
    }
}

/// The time before which an entry has outlived a retention of `hours` hours at
/// time `now`.
pub open spec fn cutoff(now: int, hours: int) -> int {
    now - hours * 3600
}

/// The rows captured at or after `limit`, in their order.
pub open spec fn retained(rows: Seq<EntryView>, limit: int) -> Seq<EntryView>
    decreases rows.len(),
{
    if rows.len() == 0 {
        seq![]
    } else if rows[0].created_at >= limit {
        seq![rows[0]] + retained(rows.drop_first(), limit)
    } else {
        retained(rows.drop_first(), limit)
    }
}

proof fn lemma_count_prefix(rows: Seq<EntryView>, at: int, p: int)
    requires
        0 <= p <= rows.len(),
        forall|i: int| 0 <= i < p ==> (#[trigger] rows[i]).created_at <= at,
        forall|i: int| p <= i < rows.len() ==> (#[trigger] rows[i]).created_at > at,
    ensures
        count_at_or_before(rows, at) == p,
    decreases rows.len(),
{
    if rows.len() > 0 {
        if p == rows.len() {
            lemma_count_prefix(rows.drop_last(), at, p - 1);
        } else {
            lemma_count_prefix(rows.drop_last(), at, p);
        }
    }
}

proof fn lemma_newest_split(s: Seq<EntryView>, i: int)
    requires
        0 <= i <= s.len(),
    ensures
        newest_first(s) == newest_first(s.subrange(i, s.len() as int)) + newest_first(
            s.subrange(0, i),
        ),
    decreases i,
{
    if i == 0 {
        assert(s.subrange(0, s.len() as int) =~= s);
        assert(newest_first(s.subrange(0, 0)) =~= seq![]);
        assert(newest_first(s) + seq![] =~= newest_first(s));
    } else {
        let t = s.drop_first();
        lemma_newest_split(t, i - 1);
        assert(t.subrange(i - 1, t.len() as int) =~= s.subrange(i, s.len() as int));
        assert(t.subrange(0, i - 1) =~= s.subrange(0, i).drop_first());
        assert(newest_first(s) =~= newest_first(s.subrange(i, s.len() as int)) + newest_first(
            s.subrange(0, i),
        ));
    }
}

proof fn lemma_found_split(s: Seq<EntryView>, q: Seq<char>, i: int)
    requires
        0 <= i <= s.len(),
    ensures
        found_newest_first(s, q) == found_newest_first(s.subrange(i, s.len() as int), q)
            + found_newest_first(s.subrange(0, i), q),
    decreases i,
{
    if i == 0 {
        assert(s.subrange(0, s.len() as int) =~= s);
        assert(found_newest_first(s.subrange(0, 0), q) =~= seq![]);
        assert(found_newest_first(s, q) + seq![] =~= found_newest_first(s, q));
    } else {
        let t = s.drop_first();
        lemma_found_split(t, q, i - 1);
        assert(t.subrange(i - 1, t.len() as int) =~= s.subrange(i, s.len() as int));
        assert(t.subrange(0, i - 1) =~= s.subrange(0, i).drop_first());
        assert(found_newest_first(s, q) =~= found_newest_first(s.subrange(i, s.len() as int), q)
            + found_newest_first(s.subrange(0, i), q));
    }
}

proof fn lemma_newest_len(s: Seq<EntryView>)
    ensures
        newest_first(s).len() == s.len(),
    decreases s.len(),
{
    if s.len() > 0 {
        lemma_newest_len(s.drop_first());
    }
}

proof fn lemma_retained_suffix(s: Seq<EntryView>, limit: int, k: int)
    requires
        0 <= k <= s.len(),
        forall|i: int| 0 <= i < k ==> (#[trigger] s[i]).created_at < limit,
        forall|i: int| k <= i < s.len() ==> (#[trigger] s[i]).created_at >= limit,
    ensures
        retained(s, limit) == s.subrange(k, s.len() as int),
    decreases s.len(),
{
    if s.len() > 0 {
        if k == 0 {
            lemma_retained_suffix(s.drop_first(), limit, 0);
            assert(s.drop_first().subrange(0, s.len() - 1) =~= s.drop_first());
            assert(seq![s[0]] + s.drop_first() =~= s);
            assert(s.subrange(0, s.len() as int) =~= s);
        } else {
            lemma_retained_suffix(s.drop_first(), limit, k - 1);
            assert(s.drop_first().subrange(k - 1, s.len() - 1) =~= s.subrange(k, s.len() as int));
        }
    } else {
        assert(s.subrange(k, s.len() as int) =~= seq![]);
    }
}

/// The entry store. Rows are held in memory in capture order; a caller that
/// needs them to outlive the process keeps a durable copy and hands the rows
/// back through `restore`.
pub struct Storage {
    rows: Vec<Entry>,
    next_id: i64,
}

impl Storage {
    /// The rows, in capture order.
    pub closed spec fn rows(&self) -> Seq<EntryView> {
        views(self.rows@)
    }

    /// The id that the next insert receives.
    pub closed spec fn next_id(&self) -> int {
        self.next_id as int
    }

    pub open spec fn wf(&self) -> bool {
        store_wf(self.rows(), self.next_id())
    }

    /// An empty store that keeps its rows in memory.
    pub fn open_in_memory() -> (r: Result<Storage, StickyError>)
        ensures
            r matches Ok(s) && s.wf() && s.rows() == Seq::<EntryView>::empty() && s.next_id()
                == 1,
    {
        let s = Storage { rows: Vec::new(), next_id: 1 };
        assert(s.rows() =~= Seq::<EntryView>::empty());
        Ok(s)
    }

    /// Places `e` among the rows by capture time; `e`'s id is above all others.
    fn place(&mut self, e: Entry)
        requires
            old(self).wf(),
            old(self).next_id() <= e.id < i64::MAX,
        ensures
            final(self).wf(),
            final(self).rows() == inserted(old(self).rows(), e@),
            final(self).next_id() == e.id + 1,
    {
        let ghost old_rows = self.rows();
        let at = e.created_at;
        let mut p: usize = self.rows.len();
        while p > 0 && self.rows[p - 1].created_at > at
            invariant
                p <= self.rows@.len(),
                self.rows() == old_rows,
                forall|i: int| p <= i < old_rows.len() ==> (#[trigger] old_rows[i]).created_at > at,
            decreases p,
        {
            p = p - 1;
        }
        proof {
            assert forall|i: int| 0 <= i < p implies (#[trigger] old_rows[i]).created_at <= at by {
                if p > 0 && i < p - 1 {
                    assert(before(old_rows[i], old_rows[p - 1]));
                }
            }
            lemma_count_prefix(old_rows, at as int, p as int);
        }
        let ghost ev = e@;
        let id = e.id;
        self.rows.insert(p, e);
        self.next_id = id + 1;
        proof {
            assert(self.rows() =~= old_rows.insert(p as int, ev));
            let rows = self.rows();
            assert forall|i: int, j: int| 0 <= i < j < rows.len() implies before(
                #[trigger] rows[i],
                #[trigger] rows[j],
            ) by {
                if i < p && j == p {
                    assert(rows[i] == old_rows[i]);
                } else if i == p && j > p {
                    assert(rows[j] == old_rows[j - 1]);
                } else if j < p {
                    assert(rows[i] == old_rows[i] && rows[j] == old_rows[j]);
                } else if i < p && j > p {
                    assert(rows[i] == old_rows[i] && rows[j] == old_rows[j - 1]);
                } else {
                    assert(rows[i] == old_rows[i - 1] && rows[j] == old_rows[j - 1]);
                }
            }
            assert forall|i: int, j: int|
                0 <= i < rows.len() && 0 <= j < rows.len() && i != j implies #[trigger] rows[i].id
                != #[trigger] rows[j].id by {
                let oi = if i < p {
                    i
                } else {
                    i - 1
                };
                let oj = if j < p {
                    j
                } else {
                    j - 1
                };
                if i != p && j != p {
                    assert(rows[i] == old_rows[oi] && rows[j] == old_rows[oj]);
                } else if i == p {
                    assert(rows[j] == old_rows[oj]);
                } else {
                    assert(rows[i] == old_rows[oi]);
                }
            }
            assert forall|i: int| 0 <= i < rows.len() implies 1 <= #[trigger] rows[i].id
                < self.next_id() by {
                if i < p {
                    assert(rows[i] == old_rows[i]);
                } else if i > p {
                    assert(rows[i] == old_rows[i - 1]);
                }
            }
        }
    }

    /// Stores a copy of `entry` under the next id and returns that id. Fails,
    /// changing nothing, once every id has been handed out.
    pub fn insert(&mut self, entry: &Entry) -> (r: Result<i64, StickyError>)
        requires
            old(self).wf(),
        ensures
            final(self).wf(),
            old(self).next_id() < i64::MAX ==> {
                &&& r == Ok::<i64, StickyError>(old(self).next_id() as i64)
                &&& final(self).rows() == inserted(
                    old(self).rows(),
                    entry@.with_id(old(self).next_id()),
                )
                &&& final(self).next_id() == old(self).next_id() + 1
            },
            old(self).next_id() == i64::MAX ==> {
                &&& r == Err::<i64, StickyError>(StickyError::IdsExhausted)
                &&& final(self).rows() == old(self).rows()
                &&& final(self).next_id() == old(self).next_id()
            },
    {
        if self.next_id == i64::MAX {
            return Err(StickyError::IdsExhausted);
        }
        let id = self.next_id;
        let mut e = entry.duplicate();
        e.id = id;
        assert(e@ == entry@.with_id(id as int));
        self.place(e);
        Ok(id)
    }

    /// Takes back a row that was stored earlier under its own id. Rows must
    /// come back in increasing order of id; one that does not is refused.
    pub fn restore(&mut self, entry: &Entry) -> (r: Result<(), StickyError>)
        requires
            old(self).wf(),
        ensures
            final(self).wf(),
            old(self).next_id() <= entry.id < i64::MAX ==> {
                &&& r is Ok
                &&& final(self).rows() == inserted(old(self).rows(), entry@)
                &&& final(self).next_id() == entry.id + 1
            },
            !(old(self).next_id() <= entry.id < i64::MAX) ==> {
                &&& r is Err
                &&& final(self).rows() == old(self).rows()
                &&& final(self).next_id() == old(self).next_id()
            },
    {
        if entry.id < self.next_id || entry.id == i64::MAX {
            return Err(StickyError::Database(String::from_str("row restored out of id order")));
        }
        self.place(entry.duplicate());
        Ok(())
    }

    /// The fingerprint of the most recently captured entry; `None` when empty.
    pub fn get_latest_hash(&self) -> (r: Result<Option<String>, StickyError>)
        requires
            self.wf(),
        ensures
            match r {
                Ok(Some(h)) => self.rows().len() > 0 && h@ == self.rows().last().hash,
                Ok(None) => self.rows().len() == 0,
                Err(_) => false,
            },
    {
        let n = self.rows.len();
        if n == 0 {
            Ok(None)
        } else {
            Ok(Some(self.rows[n - 1].hash.clone()))
        }
    }

    /// The entry with id `id`; `NotFound(id)` when there is none.
    pub fn get_by_id(&self, id: i64) -> (r: Result<Entry, StickyError>)
        requires
            self.wf(),
        ensures
            match r {
                Ok(e) => lookup(self.rows(), id as int) == Some(e@),
                Err(err) => lookup(self.rows(), id as int) is None && err == StickyError::NotFound(
                    id,
                ),
            },
    {
        let ghost rows = self.rows();
        let mut i: usize = 0;
        while i < self.rows.len()
            invariant
                rows == self.rows(),
                self.wf(),
                0 <= i <= rows.len(),
                forall|t: int| 0 <= t < i ==> (#[trigger] rows[t]).id != id,
            decreases self.rows.len() - i,
        {
            if self.rows[i].id == id {
                assert(rows[i as int].id == id);
                let found = self.rows[i].duplicate();
                proof {
                    let c = choose|t: int| 0 <= t < rows.len() && #[trigger] rows[t].id == id;
                    assert(c == i);
                }
                return Ok(found);
            }
            i = i + 1;
        }
        Err(StickyError::NotFound(id))
    }

    /// The most recent `limit` entries, newest first.
    pub fn list(&self, limit: usize) -> (r: Result<Vec<Entry>, StickyError>)
        requires
            self.wf(),
        ensures
            r matches Ok(v) && views(v@) == newest_first(self.rows()).take(
                if limit < self.rows().len() {
                    limit as int
                } else {
                    self.rows().len() as int
                },
            ),
    {
        let ghost rows = self.rows();
        let n = self.rows.len();
        let mut out: Vec<Entry> = Vec::new();
        let mut i: usize = n;
        while i > 0 && out.len() < limit
            invariant
                rows == self.rows(),
                n == rows.len(),
                i <= n,
                out@.len() <= limit,
                views(out@) == newest_first(rows.subrange(i as int, n as int)),
            decreases i,
        {
            let e = self.rows[i - 1].duplicate();
            out.push(e);
            proof {
                let s = rows.subrange(i - 1, n as int);
                assert(s.drop_first() =~= rows.subrange(i as int, n as int));
                assert(views(out@) =~= newest_first(s));
            }
            i = i - 1;
        }
        proof {
            lemma_newest_split(rows, i as int);
            lemma_newest_len(rows.subrange(i as int, n as int));
            lemma_newest_len(rows);
            assert(rows.subrange(0, n as int) =~= rows);
            assert(views(out@) =~= newest_first(rows).take(
                if limit < rows.len() {
                    limit as int
                } else {
                    rows.len() as int
                },
            ));
        }
        Ok(out)
    }

    /// The entries whose text contains `query`, newest first, at most `limit`.
    pub fn search(&self, query: &str, limit: usize) -> (r: Result<Vec<Entry>, StickyError>)
        requires
            self.wf(),
        ensures
            r matches Ok(v) && ({
                let found = found_newest_first(self.rows(), query@);
                views(v@) == found.take(
                    if limit < found.len() {
                        limit as int
                    } else {
                        found.len() as int
                    },
                )
            }),
    {
        let ghost rows = self.rows();
        let n = self.rows.len();
        let mut out: Vec<Entry> = Vec::new();
        let mut i: usize = n;
        while i > 0 && out.len() < limit
            invariant
                rows == self.rows(),
                n == rows.len(),
                i <= n,
                out@.len() <= limit,
                views(out@) == found_newest_first(rows.subrange(i as int, n as int), query@),
            decreases i,
        {
            let row = &self.rows[i - 1];
            let hit = match &row.content {
                Some(c) => contains_text(c.as_str(), query),
                None => false,
            };
            proof {
                let s = rows.subrange(i - 1, n as int);
                assert(s.drop_first() =~= rows.subrange(i as int, n as int));
                assert(s[0] == row@);
            }
            if hit {
                let e = row.duplicate();
                out.push(e);
                assert(views(out@) =~= found_newest_first(rows.subrange(i - 1, n as int), query@));
            }
            i = i - 1;
        }
        proof {
            let found = found_newest_first(rows, query@);
            let head = found_newest_first(rows.subrange(i as int, n as int), query@);
            lemma_found_split(rows, query@, i as int);
            assert(rows.subrange(0, n as int) =~= rows);
            assert(views(out@) =~= found.take(
                if limit < found.len() {
                    limit as int
                } else {
                    found.len() as int
                },
            ));
        }
        Ok(out)
    }

    /// Removes every entry captured before `now` less `retention_hours` hours,
    /// and returns how many were removed.
    pub fn evict_expired(&mut self, now: i64, retention_hours: i64) -> (r: usize)
        requires
            old(self).wf(),
        ensures
            final(self).wf(),
            final(self).rows() == retained(
                old(self).rows(),
                cutoff(now as int, retention_hours as int),
            ),
            final(self).next_id() == old(self).next_id(),
            r == old(self).rows().len() - final(self).rows().len(),
    {
        let ghost old_rows = self.rows();
        let limit: i128 = now as i128 - retention_hours as i128 * 3600;
        assert(limit == cutoff(now as int, retention_hours as int));
        let n = self.rows.len();
        let mut k: usize = 0;
        while k < n && (self.rows[k].created_at as i128) < limit
            invariant
                old_rows == self.rows(),
                n == old_rows.len(),
                k <= n,
                forall|i: int| 0 <= i < k ==> (#[trigger] old_rows[i]).created_at < limit,
            decreases n - k,
        {
            k = k + 1;
        }
        proof {
            assert forall|i: int| k <= i < n implies (#[trigger] old_rows[i]).created_at >= limit by {
                if i > k {
                    assert(before(old_rows[k as int], old_rows[i]));
                }
            }
            lemma_retained_suffix(old_rows, limit as int, k as int);
        }
        let kept = self.rows.split_off(k);
        self.rows = kept;
        proof {
            let rows = self.rows();
            assert(rows =~= old_rows.subrange(k as int, n as int));
            assert forall|i: int, j: int| 0 <= i < j < rows.len() implies before(
                #[trigger] rows[i],
                #[trigger] rows[j],
            ) by {
                assert(rows[i] == old_rows[i + k] && rows[j] == old_rows[j + k]);
            }
            assert forall|i: int, j: int|
                0 <= i < rows.len() && 0 <= j < rows.len() && i != j implies #[trigger] rows[i].id
                != #[trigger] rows[j].id by {
                assert(rows[i] == old_rows[i + k] && rows[j] == old_rows[j + k]);
            }
            assert forall|i: int| 0 <= i < rows.len() implies 1 <= #[trigger] rows[i].id
                < self.next_id() by {
                assert(rows[i] == old_rows[i + k]);
            }
        }
        k
    }

    /// Removes the entries that have outlived the retention window at the
    /// current time, and returns how many were removed.
    pub fn cleanup_old(&mut self) -> (r: Result<usize, StickyError>)
        requires
            old(self).wf(),
        ensures
            final(self).wf(),
            final(self).next_id() == old(self).next_id(),
            r matches Ok(n) && n == old(self).rows().len() - final(self).rows().len(),
            exists|now: int|
                final(self).rows() == retained(
                    old(self).rows(),
                    #[trigger] cutoff(now, RETENTION_HOURS as int),
                ),
    {
        let now = now_timestamp();
        let removed = self.evict_expired(now, RETENTION_HOURS);
        assert(final(self).rows() == retained(
            old(self).rows(),
            cutoff(now as int, RETENTION_HOURS as int),
        ));
        Ok(removed)
    }

    /// Removes every entry and returns how many there were. Ids are not
    /// handed out again.
    pub fn clear(&mut self) -> (r: Result<usize, StickyError>)
        requires
            old(self).wf(),
        ensures
            final(self).wf(),
            r == Ok::<usize, StickyError>(old(self).rows().len() as usize),
            final(self).rows() == Seq::<EntryView>::empty(),
            final(self).next_id() == old(self).next_id(),
    {
        let n = self.rows.len();
        self.rows.clear();
        assert(self.rows() =~= Seq::<EntryView>::empty());
        Ok(n)
    }

    /// The id that the next insert receives.
    pub fn upcoming_id(&self) -> (r: i64)
        ensures
            r == self.next_id(),
    {
        self.next_id
    }

    /// Makes the next insert receive an id no lower than `id`, as when a store
    /// is reopened after ids up to `id - 1` were handed out. A lower `id`
    /// changes nothing.
    pub fn skip_ids_below(&mut self, id: i64)
        requires
            old(self).wf(),
        ensures
            final(self).wf(),
            final(self).rows() == old(self).rows(),
            final(self).next_id() == if id > old(self).next_id() {
                id as int
            } else {
                old(self).next_id()
            },
    {
        if id > self.next_id {
            self.next_id = id;
        }
    }

    /// How many entries are stored.
    pub fn count(&self) -> (r: Result<usize, StickyError>)
        requires
            self.wf(),
        ensures
            r == Ok::<usize, StickyError>(self.rows().len() as usize),
    {
        Ok(self.rows.len())
    }
}

proof fn lemma_count_le_len(rows: Seq<EntryView>, at: int)
    ensures
        count_at_or_before(rows, at) <= rows.len(),
    decreases rows.len(),
{
    if rows.len() > 0 {
        lemma_count_le_len(rows.drop_last(), at);
    }
}

/// Storing an entry in a well-formed store and looking up the id it received
/// gives back the same entry under that id.
pub proof fn law_insert_then_get(rows: Seq<EntryView>, next_id: int, e: EntryView)
    requires
        store_wf(rows, next_id),
    ensures
        lookup(inserted(rows, e.with_id(next_id)), next_id) == Some(e.with_id(next_id)),
{
    let x = e.with_id(next_id);
    let p = count_at_or_before(rows, x.created_at) as int;
    lemma_count_le_len(rows, x.created_at);
    let after = inserted(rows, x);
    assert(after.len() == rows.len() + 1);
    assert(after[p] == x);
    assert(0 <= p < after.len() && after[p].id == next_id);
    assert forall|i: int| 0 <= i < after.len() && i != p implies #[trigger] after[i].id
        != next_id by {
        if i < p {
            assert(after[i] == rows[i]);
        } else {
            assert(after[i] == rows[i - 1]);
        }
    }
    let c = choose|i: int| 0 <= i < after.len() && #[trigger] after[i].id == next_id;
    assert(c == p);
}

proof fn lemma_retained_members(rows: Seq<EntryView>, limit: int, x: EntryView)
    ensures
        retained(rows, limit).contains(x) <==> (rows.contains(x) && x.created_at >= limit),
    decreases rows.len(),
{
    if rows.len() > 0 {
        lemma_retained_members(rows.drop_first(), limit, x);
        assert(rows =~= seq![rows[0]] + rows.drop_first());
        if rows.contains(x) && x != rows[0] {
            let i = choose|i: int| 0 <= i < rows.len() && rows[i] == x;
            assert(rows.drop_first()[i - 1] == x);
        }
        if rows.drop_first().contains(x) {
            let i = choose|i: int| 0 <= i < rows.len() - 1 && rows.drop_first()[i] == x;
            assert(rows[i + 1] == x);
        }
        if rows[0].created_at >= limit {
            let r = retained(rows, limit);
            assert(r[0] == rows[0]);
            if retained(rows.drop_first(), limit).contains(x) {
                let i = choose|i: int|
                    0 <= i < retained(rows.drop_first(), limit).len() && retained(
                        rows.drop_first(),
                        limit,
                    )[i] == x;
                assert(r[i + 1] == x);
            }
            if r.contains(x) && x != rows[0] {
                let i = choose|i: int| 0 <= i < r.len() && r[i] == x;
                assert(retained(rows.drop_first(), limit)[i - 1] == x);
            }
        }
    }
}

/// Retention at time `now`: an entry captured one second before the cutoff
/// is removed, one captured one second after it stays, and a store holding
/// just those two loses exactly the first.
pub proof fn law_retention_boundary(
    rows: Seq<EntryView>,
    now: int,
    hours: int,
    old_entry: EntryView,
    new_entry: EntryView,
)
    requires
        old_entry.created_at == cutoff(now, hours) - 1,
        new_entry.created_at == cutoff(now, hours) + 1,
    ensures
        !retained(rows, cutoff(now, hours)).contains(old_entry),
        rows.contains(new_entry) ==> retained(rows, cutoff(now, hours)).contains(new_entry),
        retained(seq![old_entry, new_entry], cutoff(now, hours)) == seq![new_entry],
{
    let c = cutoff(now, hours);
    lemma_retained_members(rows, c, old_entry);
    lemma_retained_members(rows, c, new_entry);
    let two = seq![old_entry, new_entry];
    assert(two.drop_first() =~= seq![new_entry]);
    assert(seq![new_entry].drop_first() =~= Seq::<EntryView>::empty());
    assert(retained(Seq::<EntryView>::empty(), c) =~= Seq::<EntryView>::empty());
    assert(retained(seq![new_entry], c) =~= seq![new_entry]);
}

} // verus!
