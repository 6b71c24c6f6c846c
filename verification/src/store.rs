//! A bounded per-file memory: what was remembered for each path (a resume point, subtitle
//! timing), stamped with the file's identity and the time it was written.
//!
//! A row only answers for the file it was written for: when the size or modification time
//! under a path has changed, it is a different file and the row is ignored. The table keeps at
//! most [`MAX_ENTRIES`] rows, dropping the least recently updated first. Its rows are kept
//! newest first, which is also the order the recently-watched list shows them in.
use vstd::prelude::*;

use crate::text::push_str;

verus! {

broadcast use vstd::string::group_string_axioms;

/// The most files anything is remembered for.
pub const MAX_ENTRIES: usize = 4096;

/// The version of the on-disk shape of a store.
pub const STORE_SCHEMA_VERSION: u32 = 1;

/// A file's size and modification time (milliseconds since the epoch, when readable): the pair
/// that decides whether a stored row still belongs to the file now under that path. A URL or
/// an unreadable path has size 0 and no modification time.
#[derive(Debug, Clone, Copy, PartialEq, Eq, Structural)]
pub struct FileIdentity {
    pub size: u64,
    pub modified_ms: Option<u64>,
}

/// One remembered row: what was stored, the identity of the file it belongs to, and when it
/// was written (milliseconds since the epoch).
#[derive(Debug, Clone, Copy, PartialEq, Eq)]
pub struct Row<P> {
    pub payload: P,
    pub identity: FileIdentity,
    pub updated_ms: u64,
}

/// The remembered rows, keyed by path.
#[derive(Debug)]
pub struct StoreTable<P> {
    rows: Vec<(String, Row<P>)>,
}

/// A row with its key as characters.
pub open spec fn keyed<P>(e: (String, Row<P>)) -> (Seq<char>, Row<P>) {
    (e.0@, e.1)
}

/// Whether `s` runs from the most to the least recently updated row.
pub open spec fn newest_first<P>(s: Seq<(Seq<char>, Row<P>)>) -> bool {
    forall|i: int, j: int| 0 <= i < j < s.len() ==> s[i].1.updated_ms >= s[j].1.updated_ms
}

/// Whether no two rows of `s` have the same key.
pub open spec fn distinct_keys<P>(s: Seq<(Seq<char>, Row<P>)>) -> bool {
    forall|i: int, j: int| 0 <= i < j < s.len() ==> s[i].0 != s[j].0
}

/// The shape every table keeps: newest first, one row per key.
pub open spec fn well_kept<P>(s: Seq<(Seq<char>, Row<P>)>) -> bool {
    newest_first(s) && distinct_keys(s)
}

/// The row stored under `key`, if any.
pub open spec fn lookup<P>(s: Seq<(Seq<char>, Row<P>)>, key: Seq<char>) -> Option<Row<P>>
    decreases s.len(),
{
    if s.len() == 0 {
        None
    } else if s[0].0 == key {
        Some(s[0].1)
    } else {
        lookup(s.drop_first(), key)
    }
}

/// `s` without the row under `key`.
pub open spec fn without<P>(s: Seq<(Seq<char>, Row<P>)>, key: Seq<char>) -> Seq<(Seq<char>, Row<P>)>
    decreases s.len(),
{
    if s.len() == 0 {
        s
    } else if s[0].0 == key {
        without(s.drop_first(), key)
    } else {
        seq![s[0]] + without(s.drop_first(), key)
    }
}

/// `e` placed into `s` after every row updated later than it.
pub open spec fn insert_newest<P>(s: Seq<(Seq<char>, Row<P>)>, e: (Seq<char>, Row<P>)) -> Seq<
    (Seq<char>, Row<P>),
>
    decreases s.len(),
{
    if s.len() == 0 {
        seq![e]
    } else if s[0].1.updated_ms > e.1.updated_ms {
        seq![s[0]] + insert_newest(s.drop_first(), e)
    } else {
        seq![e] + s
    }
}

/// `s` with `row` stored under `key`, replacing any row it had there.
pub open spec fn upserted<P>(s: Seq<(Seq<char>, Row<P>)>, key: Seq<char>, row: Row<P>) -> Seq<
    (Seq<char>, Row<P>),
> {
    insert_newest(without(s, key), (key, row))
}

/// `s` cut back to the [`MAX_ENTRIES`] most recently updated rows.
pub open spec fn pruned<P>(s: Seq<(Seq<char>, Row<P>)>) -> Seq<(Seq<char>, Row<P>)> {
    if s.len() <= MAX_ENTRIES {
        s
    } else {
        s.take(MAX_ENTRIES as int)
    }
}

/// The rows loaded from `rows` in order, a later row under a key replacing an earlier one.
pub open spec fn loaded<P>(rows: Seq<(Seq<char>, Row<P>)>) -> Seq<(Seq<char>, Row<P>)>
    decreases rows.len(),
{
    if rows.len() == 0 {
        Seq::empty()
    } else {
        upserted(loaded(rows.drop_last()), rows.last().0, rows.last().1)
    }
}

/// What is remembered for `key` on the file with `identity`: nothing when no row is stored,
/// or when the row was written for a file of another size or modification time.
pub open spec fn remembered<P>(s: Seq<(Seq<char>, Row<P>)>, key: Seq<char>, identity: FileIdentity) -> Option<P> {
    match lookup(s, key) {
        Some(row) => if row.identity == identity {
            Some(row.payload)
        } else {
            None
        },
        None => None,
    }
}

// --- the representation lemmas ------------------------------------------------------------

proof fn lemma_lookup_at<P>(s: Seq<(Seq<char>, Row<P>)>, i: int)
    requires
        distinct_keys(s),
        0 <= i < s.len(),
    ensures
        lookup(s, s[i].0) == Some(s[i].1),
    decreases i,
{
    if i > 0 {
        let t = s.drop_first();
        assert(distinct_keys(t)) by {
            assert forall|a: int, b: int| 0 <= a < b < t.len() implies t[a].0 != t[b].0 by {
                assert(t[a] == s[a + 1] && t[b] == s[b + 1]);
            }
        }
        assert(s[0].0 != s[i].0);
        assert(t[i - 1] == s[i]);
        lemma_lookup_at(t, i - 1);
    }
}

proof fn lemma_lookup_absent<P>(s: Seq<(Seq<char>, Row<P>)>, key: Seq<char>)
    requires
        forall|i: int| 0 <= i < s.len() ==> s[i].0 != key,
    ensures
        lookup(s, key) is None,
    decreases s.len(),
{
    if s.len() > 0 {
        let t = s.drop_first();
        assert forall|i: int| 0 <= i < t.len() implies t[i].0 != key by {
            assert(t[i] == s[i + 1]);
        }
        lemma_lookup_absent(t, key);
    }
}

proof fn lemma_without_absent<P>(s: Seq<(Seq<char>, Row<P>)>, key: Seq<char>)
    requires
        forall|i: int| 0 <= i < s.len() ==> s[i].0 != key,
    ensures
        without(s, key) == s,
    decreases s.len(),
{
    if s.len() > 0 {
        let t = s.drop_first();
        assert forall|i: int| 0 <= i < t.len() implies t[i].0 != key by {
            assert(t[i] == s[i + 1]);
        }
        lemma_without_absent(t, key);
        assert(seq![s[0]] + t =~= s);
    }
}

proof fn lemma_without_at<P>(s: Seq<(Seq<char>, Row<P>)>, i: int)
    requires
        distinct_keys(s),
        0 <= i < s.len(),
    ensures
        without(s, s[i].0) == s.remove(i),
    decreases i,
{
    let key = s[i].0;
    let t = s.drop_first();
    assert(distinct_keys(t)) by {
        assert forall|a: int, b: int| 0 <= a < b < t.len() implies t[a].0 != t[b].0 by {
            assert(t[a] == s[a + 1] && t[b] == s[b + 1]);
        }
    }
    if i == 0 {
        assert forall|k: int| 0 <= k < t.len() implies t[k].0 != key by {
            assert(t[k] == s[k + 1]);
        }
        lemma_without_absent(t, key);
        assert(s.remove(0) =~= t);
    } else {
        assert(s[0].0 != key);
        assert(t[i - 1] == s[i]);
        lemma_without_at(t, i - 1);
        assert(s.remove(i) =~= seq![s[0]] + t.remove(i - 1));
    }
}

proof fn lemma_insert_newest_at<P>(s: Seq<(Seq<char>, Row<P>)>, e: (Seq<char>, Row<P>), p: int)
    requires
        0 <= p <= s.len(),
        forall|i: int| 0 <= i < p ==> s[i].1.updated_ms > e.1.updated_ms,
        p < s.len() ==> s[p].1.updated_ms <= e.1.updated_ms,
    ensures
        insert_newest(s, e) == s.insert(p, e),
    decreases s.len(),
{
    if s.len() == 0 {
        assert(s.insert(p, e) =~= seq![e]);
    } else if p == 0 {
        assert(s.insert(p, e) =~= seq![e] + s);
    } else {
        let t = s.drop_first();
        assert forall|i: int| 0 <= i < p - 1 implies t[i].1.updated_ms > e.1.updated_ms by {
            assert(t[i] == s[i + 1]);
        }
        lemma_insert_newest_at(t, e, p - 1);
        assert(s.insert(p, e) =~= seq![s[0]] + t.insert(p - 1, e));
    }
}

proof fn lemma_remove_kept<P>(s: Seq<(Seq<char>, Row<P>)>, i: int)
    requires
        well_kept(s),
        0 <= i < s.len(),
    ensures
        well_kept(s.remove(i)),
{
    let r = s.remove(i);
    assert forall|a: int, b: int| 0 <= a < b < r.len() implies r[a].1.updated_ms
        >= r[b].1.updated_ms && r[a].0 != r[b].0 by {
        let a2 = if a < i {
            a
        } else {
            a + 1
        };
        let b2 = if b < i {
            b
        } else {
            b + 1
        };
        assert(r[a] == s[a2] && r[b] == s[b2]);
    }
}

proof fn lemma_insert_kept<P>(s: Seq<(Seq<char>, Row<P>)>, e: (Seq<char>, Row<P>), p: int)
    requires
        well_kept(s),
        0 <= p <= s.len(),
        forall|i: int| 0 <= i < p ==> s[i].1.updated_ms > e.1.updated_ms,
        p < s.len() ==> s[p].1.updated_ms <= e.1.updated_ms,
        forall|i: int| 0 <= i < s.len() ==> s[i].0 != e.0,
    ensures
        well_kept(s.insert(p, e)),
{
    let r = s.insert(p, e);
    assert forall|a: int, b: int| 0 <= a < b < r.len() implies r[a].1.updated_ms
        >= r[b].1.updated_ms && r[a].0 != r[b].0 by {
        if a < p && b < p {
            assert(r[a] == s[a] && r[b] == s[b]);
        } else if a < p && b == p {
            assert(r[a] == s[a] && r[b] == e);
        } else if a < p {
            assert(r[a] == s[a] && r[b] == s[b - 1]);
        } else if a == p {
            assert(r[a] == e && r[b] == s[b - 1]);
            assert(s[p].1.updated_ms >= s[b - 1].1.updated_ms || b - 1 == p);
        } else {
            assert(r[a] == s[a - 1] && r[b] == s[b - 1]);
        }
    }
}

proof fn lemma_take_kept<P>(s: Seq<(Seq<char>, Row<P>)>, n: int)
    requires
        well_kept(s),
        0 <= n <= s.len(),
    ensures
        well_kept(s.take(n)),
{
    let t = s.take(n);
    assert forall|a: int, b: int| 0 <= a < b < t.len() implies t[a].1.updated_ms
        >= t[b].1.updated_ms && t[a].0 != t[b].0 by {
        assert(t[a] == s[a] && t[b] == s[b]);
    }
}

// --- the table ---------------------------------------------------------------------------

fn owned_key(key: &str) -> (r: String)
    ensures
        r@ == key@,
{
    let mut r = String::new();
    push_str(&mut r, key);
    r
}

impl<P: Copy> StoreTable<P> {
    /// The rows, newest first, each with its key as characters.
    pub closed spec fn entries(&self) -> Seq<(Seq<char>, Row<P>)> {
        self.rows@.map_values(|e: (String, Row<P>)| keyed(e))
    }

    /// The shape the table keeps between calls.
    pub open spec fn wf(&self) -> bool {
        well_kept(self.entries())
    }

    /// An empty table.
    pub fn new() -> (t: Self)
        ensures
            t.wf(),
            t.entries() == Seq::<(Seq<char>, Row<P>)>::empty(),
    {
        let t = StoreTable { rows: Vec::new() };
        assert(t.entries() =~= Seq::<(Seq<char>, Row<P>)>::empty());
        t
    }

    /// How many rows are stored.
    pub fn len(&self) -> (n: usize)
        ensures
            n == self.entries().len(),
    {
        self.rows.len()
    }

    /// The index of the row under `key`, if any.
    fn position(&self, key: &String) -> (r: Option<usize>)
        requires
            self.wf(),
        ensures
            match r {
                Some(i) => i < self.entries().len() && self.entries()[i as int].0 == key@,
                None => forall|i: int| 0 <= i < self.entries().len() ==> self.entries()[i].0 != key@,
            },
    {
        let mut i: usize = 0;
        while i < self.rows.len()
            invariant
                i <= self.rows@.len(),
                forall|j: int| 0 <= j < i ==> self.entries()[j].0 != key@,
            decreases self.rows@.len() - i,
        {
            if self.rows[i].0 == *key {
                return Some(i);
            }
            i = i + 1;
        }
        None
    }

    /// What is remembered for `key` on the file with `identity`: `None` when nothing is
    /// stored, or when the file has changed since (another size or modification time).
    pub fn get(&self, key: &str, identity: FileIdentity) -> (r: Option<P>)
        requires
            self.wf(),
        ensures
            r == remembered(self.entries(), key@, identity),
    {
        match self.position(&owned_key(key)) {
            Some(i) => {
                proof {
                    lemma_lookup_at(self.entries(), i as int);
                }
                let row = self.rows[i].1;
                if row.identity.size == identity.size && row.identity.modified_ms
                    == identity.modified_ms {
                    Some(row.payload)
                } else {
                    None
                }
            },
            None => {
                proof {
                    lemma_lookup_absent(self.entries(), key@);
                }
                None
            },
        }
    }

    /// Forgets the row under `key`; says whether there was one (only then has the table
    /// changed).
    pub fn clear(&mut self, key: &str) -> (removed: bool)
        requires
            old(self).wf(),
        ensures
            final(self).wf(),
            final(self).entries() == without(old(self).entries(), key@),
            removed == (lookup(old(self).entries(), key@) is Some),
    {
        match self.position(&owned_key(key)) {
            Some(i) => {
                let ghost before = self.entries();
                proof {
                    lemma_without_at(before, i as int);
                    lemma_lookup_at(before, i as int);
                    lemma_remove_kept(before, i as int);
                }
                self.rows.remove(i);
                assert(self.entries() =~= before.remove(i as int));
                true
            },
            None => {
                proof {
                    lemma_without_absent(self.entries(), key@);
                    lemma_lookup_absent(self.entries(), key@);
                }
                false
            },
        }
    }

    /// Stores `row` under `key`, replacing any row there, in its place by recency.
    fn upsert(&mut self, key: String, row: Row<P>)
        requires
            old(self).wf(),
        ensures
            final(self).wf(),
            final(self).entries() == upserted(old(self).entries(), key@, row),
    {
        let ghost k = key@;
        let ghost start = self.entries();
        let _ = self.clear(key.as_str());
        let ghost base = self.entries();
        proof {
            lemma_without_lookup(start, k);
        }
        let mut p: usize = 0;
        while p < self.rows.len() && self.rows[p].1.updated_ms > row.updated_ms
            invariant
                p <= self.rows@.len(),
                self.entries() == base,
                forall|i: int| 0 <= i < p ==> base[i].1.updated_ms > row.updated_ms,
            decreases self.rows@.len() - p,
        {
            p = p + 1;
        }
        proof {
            lemma_insert_newest_at(base, (k, row), p as int);
            lemma_insert_kept(base, (k, row), p as int);
        }
        self.rows.insert(p, (key, row));
        assert(self.entries() =~= base.insert(p as int, (k, row)));
    }

    /// Remembers `payload` for `key` on the file with `identity`, written at `now_ms`; then
    /// drops the least recently updated rows past [`MAX_ENTRIES`].
    pub fn set(&mut self, key: &str, payload: P, identity: FileIdentity, now_ms: u64)
        requires
            old(self).wf(),
        ensures
            final(self).wf(),
            final(self).entries() == pruned(
                upserted(
                    old(self).entries(),
                    key@,
                    Row { payload, identity, updated_ms: now_ms },
                ),
            ),
    {
        self.upsert(owned_key(key), Row { payload, identity, updated_ms: now_ms });
        if self.rows.len() > MAX_ENTRIES {
            let ghost before = self.entries();
            proof {
                lemma_take_kept(before, MAX_ENTRIES as int);
            }
            self.rows.truncate(MAX_ENTRIES);
            assert(self.entries() =~= before.take(MAX_ENTRIES as int));
        }
    }

    /// A table holding `rows` as loaded from disk: a later row under a key replaces an earlier
    /// one, and the rows are put newest first.
    pub fn from_rows(rows: Vec<(String, Row<P>)>) -> (t: Self)
        ensures
            t.wf(),
            t.entries() == loaded(rows@.map_values(|e: (String, Row<P>)| keyed(e))),
    {
        let ghost all = rows@.map_values(|e: (String, Row<P>)| keyed(e));
        let ghost src = rows@;
        let mut t = StoreTable::new();
        assert(src.take(src.len() as int) =~= src);
        for e in it: rows.into_iter()
            invariant
                it.seq() == src,
                all == src.map_values(|e: (String, Row<P>)| keyed(e)),
                t.wf(),
                t.entries() == loaded(src.take(it.index() as int).map_values(|e: (String, Row<P>)| keyed(e))),
        {
            let ghost i = it.index() as int;
            let ghost pre = src.take(i).map_values(|e: (String, Row<P>)| keyed(e));
            let ghost next = src.take(i + 1).map_values(|e: (String, Row<P>)| keyed(e));
            assert(next.drop_last() =~= pre);
            assert(next.last() == keyed(e));
            let (key, row) = e;
            t.upsert(key, row);
        }
        assert(src.take(src.len() as int).map_values(|e: (String, Row<P>)| keyed(e)) =~= all);
        t
    }

    /// Every row, newest first, as it is written to disk.
    pub fn rows(&self) -> (r: Vec<(String, Row<P>)>)
        ensures
            r@.map_values(|e: (String, Row<P>)| keyed(e)) == self.entries(),
    {
        let mut r: Vec<(String, Row<P>)> = Vec::new();
        let mut i: usize = 0;
        while i < self.rows.len()
            invariant
                i <= self.rows@.len(),
                r@.len() == i,
                r@.map_values(|e: (String, Row<P>)| keyed(e)) == self.entries().take(i as int),
            decreases self.rows@.len() - i,
        {
            let k = owned_key(self.rows[i].0.as_str());
            let ghost before = r@;
            r.push((k, self.rows[i].1));
            assert(self.entries()[i as int] == keyed(self.rows@[i as int]));
            assert(keyed(r@[i as int]) == self.entries()[i as int]);
            assert(r@.map_values(|e: (String, Row<P>)| keyed(e)) =~= self.entries().take(i + 1)) by {
                assert forall|j: int| 0 <= j < i implies keyed(r@[j]) == self.entries()[j] by {
                    assert(r@[j] == before[j]);
                    assert(keyed(before[j]) == before.map_values(|e: (String, Row<P>)| keyed(e))[j]);
                }
            }
            i = i + 1;
        }
        assert(self.entries().take(self.rows@.len() as int) =~= self.entries());
        r
    }

    /// The `limit` most recently updated rows, newest first: each key with what is stored
    /// under it.
    pub fn recent(&self, limit: usize) -> (r: Vec<(String, P)>)
        requires
            self.wf(),
        ensures
            r@.len() == if limit < self.entries().len() {
                limit as int
            } else {
                self.entries().len() as int
            },
            forall|i: int|
                0 <= i < r@.len() ==> r@[i].0@ == self.entries()[i].0 && r@[i].1
                    == self.entries()[i].1.payload,
    {
        let n = if limit < self.rows.len() {
            limit
        } else {
            self.rows.len()
        };
        let mut r: Vec<(String, P)> = Vec::new();
        let mut i: usize = 0;
        while i < n
            invariant
                n <= self.rows@.len(),
                i <= n,
                r@.len() == i,
                forall|j: int|
                    0 <= j < i ==> r@[j].0@ == self.entries()[j].0 && r@[j].1
                        == self.entries()[j].1.payload,
            decreases n - i,
        {
            let mut k = String::new();
            push_str(&mut k, self.rows[i].0.as_str());
            r.push((k, self.rows[i].1.payload));
            i = i + 1;
        }
        r
    }
}

proof fn lemma_without_lookup<P>(s: Seq<(Seq<char>, Row<P>)>, key: Seq<char>)
    ensures
        forall|i: int| 0 <= i < without(s, key).len() ==> without(s, key)[i].0 != key,
    decreases s.len(),
{
    if s.len() > 0 {
        lemma_without_lookup(s.drop_first(), key);
        let w = without(s.drop_first(), key);
        if s[0].0 != key {
            assert forall|i: int| 0 <= i < (seq![s[0]] + w).len() implies (seq![s[0]] + w)[i].0
                != key by {
                if i > 0 {
                    assert((seq![s[0]] + w)[i] == w[i - 1]);
                }
            }
        }
    }
}

// --- laws ----------------------------------------------------------------------------------

proof fn lemma_lookup_without<P>(s: Seq<(Seq<char>, Row<P>)>, key: Seq<char>, other: Seq<char>)
    ensures
        lookup(without(s, key), other) == if other == key {
            None
        } else {
            lookup(s, other)
        },
    decreases s.len(),
{
    if s.len() > 0 {
        lemma_lookup_without(s.drop_first(), key, other);
        if s[0].0 != key {
            let w = seq![s[0]] + without(s.drop_first(), key);
            assert(w.drop_first() =~= without(s.drop_first(), key));
        }
    }
}

proof fn lemma_lookup_insert_newest<P>(
    s: Seq<(Seq<char>, Row<P>)>,
    e: (Seq<char>, Row<P>),
    other: Seq<char>,
)
    requires
        forall|i: int| 0 <= i < s.len() ==> s[i].0 != e.0,
    ensures
        lookup(insert_newest(s, e), other) == if other == e.0 {
            Some(e.1)
        } else {
            lookup(s, other)
        },
    decreases s.len(),
{
    if s.len() > 0 {
        let t = s.drop_first();
        assert forall|i: int| 0 <= i < t.len() implies t[i].0 != e.0 by {
            assert(t[i] == s[i + 1]);
        }
        if s[0].1.updated_ms > e.1.updated_ms {
            lemma_lookup_insert_newest(t, e, other);
            let w = seq![s[0]] + insert_newest(t, e);
            assert(w.drop_first() =~= insert_newest(t, e));
            assert(w[0] == s[0]);
            assert(insert_newest(s, e) == w);
        } else {
            let w = seq![e] + s;
            assert(w.drop_first() =~= s);
            assert(w[0] == e);
            assert(insert_newest(s, e) == w);
        }
    } else {
        assert(seq![e].drop_first() =~= s);
        assert(insert_newest(s, e) == seq![e]);
    }
}

proof fn lemma_lookup_some_at<P>(s: Seq<(Seq<char>, Row<P>)>, key: Seq<char>) -> (i: int)
    requires
        lookup(s, key) is Some,
    ensures
        0 <= i < s.len(),
        s[i].0 == key,
        lookup(s, key) == Some(s[i].1),
    decreases s.len(),
{
    if s[0].0 == key {
        0
    } else {
        let j = lemma_lookup_some_at(s.drop_first(), key);
        j + 1
    }
}

proof fn lemma_upserted_kept<P>(s: Seq<(Seq<char>, Row<P>)>, key: Seq<char>, row: Row<P>)
    requires
        well_kept(s),
    ensures
        well_kept(upserted(s, key, row)),
        upserted(s, key, row).len() <= s.len() + 1,
{
    let w = without(s, key);
    lemma_without_kept(s, key);
    lemma_without_lookup(s, key);
    let p = newest_position(w, (key, row));
    lemma_insert_newest_at(w, (key, row), p);
    lemma_insert_kept(w, (key, row), p);
}

proof fn lemma_without_kept<P>(s: Seq<(Seq<char>, Row<P>)>, key: Seq<char>)
    requires
        well_kept(s),
    ensures
        well_kept(without(s, key)),
        without(s, key).len() <= s.len(),
    decreases s.len(),
{
    match lookup_index(s, key) {
        Some(i) => {
            lemma_without_at(s, i);
            lemma_remove_kept(s, i);
        },
        None => {
            lemma_without_absent(s, key);
        },
    }
}

proof fn lookup_index<P>(s: Seq<(Seq<char>, Row<P>)>, key: Seq<char>) -> (r: Option<int>)
    ensures
        match r {
            Some(i) => 0 <= i < s.len() && s[i].0 == key,
            None => forall|i: int| 0 <= i < s.len() ==> s[i].0 != key,
        },
    decreases s.len(),
{
    if s.len() == 0 {
        None
    } else if s[0].0 == key {
        Some(0)
    } else {
        match lookup_index(s.drop_first(), key) {
            Some(j) => Some(j + 1),
            None => {
                assert forall|i: int| 0 <= i < s.len() implies s[i].0 != key by {
                    if i > 0 {
                        assert(s[i] == s.drop_first()[i - 1]);
                    }
                }
                None
            },
        }
    }
}

/// Law: storing keeps the table's shape (newest first, one row per key) and its bound.
pub proof fn lemma_set_keeps_shape<P>(s: Seq<(Seq<char>, Row<P>)>, key: Seq<char>, row: Row<P>)
    requires
        well_kept(s),
    ensures
        well_kept(pruned(upserted(s, key, row))),
        pruned(upserted(s, key, row)).len() <= MAX_ENTRIES,
{
    lemma_upserted_kept(s, key, row);
    let u = upserted(s, key, row);
    if u.len() > MAX_ENTRIES {
        lemma_take_kept(u, MAX_ENTRIES as int);
    }
}

/// Law: what was just stored reads back. Storing for a path, then asking for that path on the
/// same file, gives the stored value back, unless the row is cut by the bound: that happens
/// only to a new path in a full table whose every row was written later than the new one (a
/// clock that went back). In a table past the bound (as loaded), storing at a time no earlier
/// than any row there reads back too.
pub proof fn lemma_read_after_write<P>(
    s: Seq<(Seq<char>, Row<P>)>,
    key: Seq<char>,
    payload: P,
    identity: FileIdentity,
    now_ms: u64,
)
    requires
        well_kept(s),
        (forall|i: int| 0 <= i < s.len() ==> s[i].1.updated_ms <= now_ms) || (s.len()
            <= MAX_ENTRIES && (s.len() < MAX_ENTRIES || lookup(s, key) is Some || exists|i: int|
            0 <= i < s.len() && s[i].1.updated_ms <= now_ms)),
    ensures
        remembered(
            pruned(upserted(s, key, Row { payload, identity, updated_ms: now_ms })),
            key,
            identity,
        ) == Some(payload),
{
    let row = Row { payload, identity, updated_ms: now_ms };
    let w = without(s, key);
    lemma_without_lookup(s, key);
    let u = upserted(s, key, row);
    lemma_upserted_kept(s, key, row);
    lemma_lookup_insert_newest(w, (key, row), key);
    let p = newest_position(w, (key, row));
    lemma_insert_newest_at(w, (key, row), p);
    assert(u == w.insert(p, (key, row)));
    assert(u[p] == (key, row));
    if p < MAX_ENTRIES {
        let r = pruned(u);
        lemma_set_keeps_shape(s, key, row);
        assert(r[p] == (key, row));
        lemma_lookup_at(r, p);
    } else {
        if forall|i: int| 0 <= i < s.len() ==> s[i].1.updated_ms <= now_ms {
            lemma_without_sub(s, key);
            if p > 0 {
                let j = choose|j: int| 0 <= j < s.len() && s[j] == #[trigger] w[0];
                assert(w[0].1.updated_ms > now_ms);
            }
        } else {
            match lookup_index(s, key) {
                Some(i) => {
                    lemma_without_at(s, i);
                },
                None => {
                    lemma_without_absent(s, key);
                    if lookup(s, key) is Some {
                        lemma_lookup_some_at(s, key);
                    }
                    if s.len() == MAX_ENTRIES {
                        let j = choose|j: int| 0 <= j < s.len() && s[j].1.updated_ms <= now_ms;
                        assert(w[j].1.updated_ms <= now_ms);
                    }
                },
            }
            assert(u.len() <= MAX_ENTRIES);
            assert(pruned(u) == u);
        }
    }
}

proof fn lemma_without_sub<P>(s: Seq<(Seq<char>, Row<P>)>, key: Seq<char>)
    ensures
        forall|i: int|
            0 <= i < without(s, key).len() ==> exists|j: int| 0 <= j < s.len() && s[j] == #[trigger] without(s, key)[i],
    decreases s.len(),
{
    if s.len() > 0 {
        let t = s.drop_first();
        lemma_without_sub(t, key);
        let wt = without(t, key);
        assert forall|i: int| 0 <= i < wt.len() implies exists|j: int| 0 <= j < s.len() && s[j] == #[trigger] wt[i] by {
            let j = choose|j: int| 0 <= j < t.len() && t[j] == wt[i];
            assert(s[j + 1] == t[j]);
        }
        if s[0].0 != key {
            let w = seq![s[0]] + wt;
            assert forall|i: int| 0 <= i < w.len() implies exists|j: int| 0 <= j < s.len() && s[j] == #[trigger] w[i] by {
                if i == 0 {
                    assert(s[0] == w[0]);
                } else {
                    assert(w[i] == wt[i - 1]);
                }
            }
        }
    }
}

/// Law: a row only answers for the file it was written for. Asking for a path on a file of
/// another size or modification time than the one just stored gives nothing.
pub proof fn lemma_changed_file_forgets<P>(
    s: Seq<(Seq<char>, Row<P>)>,
    key: Seq<char>,
    row: Row<P>,
    other: FileIdentity,
)
    requires
        well_kept(s),
        other != row.identity,
    ensures
        remembered(pruned(upserted(s, key, row)), key, other) is None,
{
    let w = without(s, key);
    lemma_without_lookup(s, key);
    lemma_lookup_insert_newest(w, (key, row), key);
    let u = upserted(s, key, row);
    lemma_upserted_kept(s, key, row);
    let r = pruned(u);
    if lookup(r, key) is Some {
        let i = lemma_lookup_some_at(r, key);
        assert(r[i] == u[i]);
        lemma_lookup_at(u, i);
    }
}

/// Law: clearing a path forgets it, whatever file is asked about afterwards.
pub proof fn lemma_clear_forgets<P>(s: Seq<(Seq<char>, Row<P>)>, key: Seq<char>, identity: FileIdentity)
    ensures
        remembered(without(s, key), key, identity) is None,
{
    lemma_lookup_without(s, key, key);
}

/// Law: storing under one path leaves every other path as it was, except that the rows cut
/// to keep the bound are the least recently updated: what is kept is a newest-first prefix,
/// each row in it updated no earlier than any row dropped.
pub proof fn lemma_set_drops_only_the_oldest<P>(
    s: Seq<(Seq<char>, Row<P>)>,
    key: Seq<char>,
    row: Row<P>,
    other: Seq<char>,
)
    requires
        well_kept(s),
        other != key,
    ensures
        lookup(upserted(s, key, row), other) == lookup(s, other),
        pruned(upserted(s, key, row)) == upserted(s, key, row).take(
            pruned(upserted(s, key, row)).len() as int,
        ),
        forall|i: int, j: int|
            0 <= i < pruned(upserted(s, key, row)).len() <= j < upserted(s, key, row).len() ==> (
            #[trigger] pruned(upserted(s, key, row))[i]).1.updated_ms >= (
            #[trigger] upserted(s, key, row)[j]).1.updated_ms,
{
    let w = without(s, key);
    lemma_without_lookup(s, key);
    lemma_lookup_insert_newest(w, (key, row), other);
    lemma_lookup_without(s, key, other);
    lemma_upserted_kept(s, key, row);
    let u = upserted(s, key, row);
    let r = pruned(u);
    assert(r =~= u.take(r.len() as int));
    assert forall|i: int, j: int| 0 <= i < r.len() <= j < u.len() implies (
    #[trigger] r[i]).1.updated_ms >= (#[trigger] u[j]).1.updated_ms by {
        assert(r[i] == u[i]);
    }
}

proof fn lemma_lookup_push<P>(t: Seq<(Seq<char>, Row<P>)>, e: (Seq<char>, Row<P>), key: Seq<char>)
    ensures
        lookup(t.push(e), key) == if lookup(t, key) is Some {
            lookup(t, key)
        } else if e.0 == key {
            Some(e.1)
        } else {
            None::<Row<P>>
        },
    decreases t.len(),
{
    if t.len() == 0 {
        assert(t.push(e).drop_first() =~= t);
    } else {
        lemma_lookup_push(t.drop_first(), e, key);
        assert(t.push(e).drop_first() =~= t.drop_first().push(e));
        assert(t.push(e)[0] == t[0]);
    }
}

/// Law: reloading keeps every answer. Loading the rows of a table as they are written out
/// (newest first, one per path) gives a table that stores the same row under every path, so
/// a resume point survives writing the store out and reading it back.
pub proof fn lemma_reload_keeps_lookups<P>(s: Seq<(Seq<char>, Row<P>)>, key: Seq<char>)
    requires
        well_kept(s),
    ensures
        lookup(loaded(s), key) == lookup(s, key),
        forall|identity: FileIdentity| #[trigger]
            remembered(loaded(s), key, identity) == remembered(s, key, identity),
    decreases s.len(),
{
    if s.len() > 0 {
        let t = s.drop_last();
        let e = s.last();
        lemma_take_kept(s, s.len() - 1);
        assert(t =~= s.take(s.len() - 1));
        lemma_reload_keeps_lookups(t, key);
        let l = loaded(t);
        lemma_without_lookup(l, e.0);
        lemma_lookup_insert_newest(without(l, e.0), e, key);
        lemma_lookup_without(l, e.0, key);
        assert(t.push(e) =~= s);
        lemma_lookup_push(t, e, key);
        if e.0 == key {
            assert forall|i: int| 0 <= i < t.len() implies t[i].0 != key by {
                assert(t[i] == s[i]);
                assert(s[s.len() - 1] == e);
            }
            lemma_lookup_absent(t, key);
        }
    }
}

/// Law: a resume point round-trips through the store file. Storing for a path (as
/// [`lemma_read_after_write`] allows), writing the rows out and loading them back, then asking
/// for that path on the same file, gives the stored value back.
pub proof fn lemma_round_trip_through_rows<P>(
    s: Seq<(Seq<char>, Row<P>)>,
    key: Seq<char>,
    payload: P,
    identity: FileIdentity,
    now_ms: u64,
)
    requires
        well_kept(s),
        (forall|i: int| 0 <= i < s.len() ==> s[i].1.updated_ms <= now_ms) || (s.len()
            <= MAX_ENTRIES && (s.len() < MAX_ENTRIES || lookup(s, key) is Some || exists|i: int|
            0 <= i < s.len() && s[i].1.updated_ms <= now_ms)),
    ensures
        remembered(
            loaded(pruned(upserted(s, key, Row { payload, identity, updated_ms: now_ms }))),
            key,
            identity,
        ) == Some(payload),
{
    let row = Row { payload, identity, updated_ms: now_ms };
    lemma_read_after_write(s, key, payload, identity, now_ms);
    lemma_set_keeps_shape(s, key, row);
    lemma_reload_keeps_lookups(pruned(upserted(s, key, row)), key);
}

/// Law: the recently-updated list runs newest first.
pub proof fn lemma_recent_newest_first<P: Copy>(t: StoreTable<P>)
    requires
        t.wf(),
    ensures
        newest_first(t.entries()),
{
}

proof fn newest_position<P>(s: Seq<(Seq<char>, Row<P>)>, e: (Seq<char>, Row<P>)) -> (p: int)
    ensures
        0 <= p <= s.len(),
        forall|i: int| 0 <= i < p ==> s[i].1.updated_ms > e.1.updated_ms,
        p < s.len() ==> s[p].1.updated_ms <= e.1.updated_ms,
    decreases s.len(),
{
    if s.len() == 0 || s[0].1.updated_ms <= e.1.updated_ms {
        0
    } else {
        let q = newest_position(s.drop_first(), e);
        assert forall|i: int| 0 <= i < q + 1 implies s[i].1.updated_ms > e.1.updated_ms by {
            if i > 0 {
                assert(s[i] == s.drop_first()[i - 1]);
            }
        }
        if q + 1 < s.len() {
            assert(s[q + 1] == s.drop_first()[q]);
        }
        q + 1
    }
}

} // verus!
