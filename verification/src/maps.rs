//! A keyed classification map mirroring one of the shared kernel maps:
//! upsert / delete / lookup with fixed-width integer keys and class values.

use vstd::prelude::*;

verus! {

/// An entry list that never repeats a key.
pub open spec fn entries_wf(s: Seq<(u64, u32)>) -> bool {
    forall|i: int, j: int|
        0 <= i < j < s.len() ==> (#[trigger] s[i]).0 != (#[trigger] s[j]).0
}

/// The map an entry list denotes.
pub open spec fn map_of(s: Seq<(u64, u32)>) -> Map<u64, u32> {
    Map::new(
        |k: u64| exists|i: int| 0 <= i < s.len() && (#[trigger] s[i]).0 == k,
        |k: u64|
            {
                let i = choose|i: int| 0 <= i < s.len() && (#[trigger] s[i]).0 == k;
                s[i].1
            },
    )
}

/// A well-formed entry list denotes a finite map with one key per entry.
pub proof fn lemma_map_of_len(s: Seq<(u64, u32)>)
    requires
        entries_wf(s),
    ensures
        map_of(s).dom().finite(),
        map_of(s).dom().len() == s.len(),
    decreases s.len(),
{
    if s.len() == 0 {
        assert(map_of(s).dom() =~= Set::<u64>::empty());
    } else {
        let t = s.drop_last();
        lemma_map_of_len(t);
        let lastk = s.last().0;
        assert(!map_of(t).contains_key(lastk));
        assert forall|q: u64| #[trigger] map_of(s).contains_key(q) implies map_of(t).contains_key(
            q,
        ) || q == lastk by {
            let j = choose|j: int| 0 <= j < s.len() && (#[trigger] s[j]).0 == q;
            if j < s.len() - 1 {
                assert(t[j].0 == q);
            }
        }
        assert forall|q: u64| #[trigger] map_of(t).contains_key(q) implies map_of(s).contains_key(
            q,
        ) by {
            let j = choose|j: int| 0 <= j < t.len() && (#[trigger] t[j]).0 == q;
            assert(s[j].0 == q);
        }
        assert(map_of(s).dom() =~= map_of(t).dom().insert(lastk));
        vstd::set::axiom_set_insert_len(map_of(t).dom(), lastk);
    }
}

/// Appending an entry with a fresh key inserts it into the denoted map.
pub proof fn lemma_map_of_push(s: Seq<(u64, u32)>, e: (u64, u32))
    requires
        entries_wf(s),
        forall|i: int| 0 <= i < s.len() ==> (#[trigger] s[i]).0 != e.0,
    ensures
        entries_wf(s.push(e)),
        map_of(s.push(e)) == map_of(s).insert(e.0, e.1),
{
    let post = s.push(e);
    assert forall|q: u64| map_of(post).contains_key(q) <==> map_of(s).insert(
        e.0,
        e.1,
    ).contains_key(q) by {
        if q == e.0 {
            assert(post[post.len() - 1].0 == q);
        } else {
            if map_of(post).contains_key(q) {
                let j = choose|j: int| 0 <= j < post.len() && (#[trigger] post[j]).0 == q;
                assert(s[j].0 == q);
            }
            if map_of(s).contains_key(q) {
                let j = choose|j: int| 0 <= j < s.len() && (#[trigger] s[j]).0 == q;
                assert(post[j].0 == q);
            }
        }
    }
    assert forall|q: u64| #[trigger] map_of(post).contains_key(q) implies map_of(post)[q] == map_of(
        s,
    ).insert(e.0, e.1)[q] by {
        let j = choose|j: int| 0 <= j < post.len() && (#[trigger] post[j]).0 == q;
        if q == e.0 {
            assert(j == post.len() - 1);
        } else {
            assert(s[j].0 == q);
            let j2 = choose|j2: int| 0 <= j2 < s.len() && (#[trigger] s[j2]).0 == q;
            assert(j2 == j);
        }
    }
    assert(map_of(post) =~= map_of(s).insert(e.0, e.1));
}

/// Mirror of a shared map from a 64-bit key to a 32-bit class value.
/// All references across the kernel boundary are keyed lookups; this type
/// keeps the userspace copy that the control plane owns.
pub struct ClassMap {
    entries: Vec<(u64, u32)>,
}

impl ClassMap {
    /// The entry list never repeats a key.
    pub closed spec fn wf(&self) -> bool {
        entries_wf(self.entries@)
    }

    pub closed spec fn view(&self) -> Map<u64, u32> {
        map_of(self.entries@)
    }

    pub fn new() -> (r: ClassMap)
        ensures
            r.wf(),
            r@ == Map::<u64, u32>::empty(),
    {
        let r = ClassMap { entries: Vec::new() };
        proof {
            assert(r@ =~= Map::<u64, u32>::empty());
        }
        r
    }

    /// Index of `k` in the entry list, if present.
    fn find(&self, k: u64) -> (r: Option<usize>)
        requires
            self.wf(),
        ensures
            match r {
                Some(i) => i < self.entries@.len() && self.entries@[i as int].0 == k,
                None => forall|i: int|
                    0 <= i < self.entries@.len() ==> (#[trigger] self.entries@[i]).0 != k,
            },
    {
        let n: usize = self.entries.len();
        let mut i: usize = 0;
        while i < n
            invariant
                0 <= i <= n,
                n == self.entries@.len(),
                forall|j: int| 0 <= j < i ==> (#[trigger] self.entries@[j]).0 != k,
            decreases n - i,
        {
            if self.entries[i].0 == k {
                return Some(i);
            }
            i = i + 1;
        }
        None
    }

    /// Whether `k` has an entry, and its class if so.
    pub fn lookup(&self, k: u64) -> (r: Option<u32>)
        requires
            self.wf(),
        ensures
            r is Some <==> self@.contains_key(k),
            r is Some ==> r->0 == self@[k],
    {
        match self.find(k) {
            Some(i) => {
                proof {
                    let j = choose|j: int|
                        0 <= j < self.entries@.len() && (#[trigger] self.entries@[j]).0 == k;
                    assert(j == i as int);
                }
                Some(self.entries[i].1)
            },
            None => {
                assert(!self@.contains_key(k));
                None
            },
        }
    }

    /// Insert or replace the record for `k`.
    pub fn upsert(&mut self, k: u64, v: u32)
        requires
            old(self).wf(),
        ensures
            final(self).wf(),
            final(self)@ == old(self)@.insert(k, v),
    {
        let ghost pre = self.entries@;
        match self.find(k) {
            Some(i) => {
                self.entries.set(i, (k, v));
                proof {
                    let post = self.entries@;
                    assert forall|q: u64|
                        map_of(post).contains_key(q) <==> map_of(pre).insert(k, v).contains_key(
                            q,
                        ) by {
                        if q != k {
                            if map_of(post).contains_key(q) {
                                let j = choose|j: int|
                                    0 <= j < post.len() && (#[trigger] post[j]).0 == q;
                                assert(pre[j].0 == q);
                            }
                            if map_of(pre).contains_key(q) {
                                let j = choose|j: int|
                                    0 <= j < pre.len() && (#[trigger] pre[j]).0 == q;
                                assert(post[j].0 == q);
                            }
                        } else {
                            assert(post[i as int].0 == k);
                        }
                    }
                    assert forall|q: u64| #[trigger]
                        map_of(post).contains_key(q) implies map_of(post)[q] == map_of(pre).insert(
                        k,
                        v,
                    )[q] by {
                        let j = choose|j: int| 0 <= j < post.len() && (#[trigger] post[j]).0 == q;
                        if q == k {
                            assert(j == i as int);
                        } else {
                            assert(pre[j].0 == q);
                            let j2 = choose|j2: int|
                                0 <= j2 < pre.len() && (#[trigger] pre[j2]).0 == q;
                            assert(j2 == j);
                        }
                    }
                    assert(final(self)@ =~= old(self)@.insert(k, v));
                }
            },
            None => {
                self.entries.push((k, v));
                proof {
                    let post = self.entries@;
                    assert forall|q: u64|
                        map_of(post).contains_key(q) <==> map_of(pre).insert(k, v).contains_key(
                            q,
                        ) by {
                        if q == k {
                            assert(post[post.len() - 1].0 == k);
                        } else {
                            if map_of(post).contains_key(q) {
                                let j = choose|j: int|
                                    0 <= j < post.len() && (#[trigger] post[j]).0 == q;
                                assert(pre[j].0 == q);
                            }
                            if map_of(pre).contains_key(q) {
                                let j = choose|j: int|
                                    0 <= j < pre.len() && (#[trigger] pre[j]).0 == q;
                                assert(post[j].0 == q);
                            }
                        }
                    }
                    assert forall|q: u64| #[trigger]
                        map_of(post).contains_key(q) implies map_of(post)[q] == map_of(pre).insert(
                        k,
                        v,
                    )[q] by {
                        let j = choose|j: int| 0 <= j < post.len() && (#[trigger] post[j]).0 == q;
                        if q == k {
                            assert(j == post.len() - 1);
                        } else {
                            assert(pre[j].0 == q);
                            let j2 = choose|j2: int|
                                0 <= j2 < pre.len() && (#[trigger] pre[j2]).0 == q;
                            assert(j2 == j);
                        }
                    }
                    assert(final(self)@ =~= old(self)@.insert(k, v));
                }
            },
        }
    }

    /// Remove the record for `k`, if any.
    pub fn delete(&mut self, k: u64)
        requires
            old(self).wf(),
        ensures
            final(self).wf(),
            final(self)@ == old(self)@.remove(k),
    {
        let ghost pre = self.entries@;
        match self.find(k) {
            Some(i) => {
                self.entries.remove(i);
                proof {
                    let post = self.entries@;
                    assert(post =~= pre.subrange(0, i as int) + pre.subrange(
                        i + 1,
                        pre.len() as int,
                    ));
                    assert forall|q: u64|
                        map_of(post).contains_key(q) <==> map_of(pre).remove(k).contains_key(
                            q,
                        ) by {
                        if q != k {
                            if map_of(pre).contains_key(q) {
                                let j = choose|j: int|
                                    0 <= j < pre.len() && (#[trigger] pre[j]).0 == q;
                                if j < i as int {
                                    assert(post[j].0 == q);
                                } else {
                                    assert(j > i as int);
                                    assert(post[j - 1].0 == q);
                                }
                            }
                            if map_of(post).contains_key(q) {
                                let j = choose|j: int|
                                    0 <= j < post.len() && (#[trigger] post[j]).0 == q;
                                if j < i as int {
                                    assert(pre[j].0 == q);
                                } else {
                                    assert(pre[j + 1].0 == q);
                                }
                            }
                        } else {
                            if map_of(post).contains_key(k) {
                                let j = choose|j: int|
                                    0 <= j < post.len() && (#[trigger] post[j]).0 == k;
                                if j < i as int {
                                    assert(pre[j].0 == k && j != i as int);
                                } else {
                                    assert(pre[j + 1].0 == k && j + 1 != i as int);
                                }
                                assert(false);
                            }
                        }
                    }
                    assert forall|q: u64| #[trigger]
                        map_of(post).contains_key(q) implies map_of(post)[q] == map_of(pre).remove(
                        k,
                    )[q] by {
                        let j = choose|j: int| 0 <= j < post.len() && (#[trigger] post[j]).0 == q;
                        let j2 = choose|j2: int| 0 <= j2 < pre.len() && (#[trigger] pre[j2]).0 == q;
                        if j < i as int {
                            assert(pre[j].0 == q);
                            assert(j2 == j);
                        } else {
                            assert(pre[j + 1].0 == q);
                            assert(j2 == j + 1);
                        }
                    }
                    assert(final(self)@ =~= old(self)@.remove(k));
                }
            },
            None => {
                proof {
                    assert(!map_of(pre).contains_key(k));
                    assert(final(self)@ =~= old(self)@.remove(k));
                }
            },
        }
    }

    /// Number of records.
    pub fn len(&self) -> (r: usize)
        requires
            self.wf(),
        ensures
            r == self@.dom().len(),
    {
        proof {
            lemma_map_of_len(self.entries@);
        }
        self.entries.len()
    }

    /// All records, each key exactly once.
    pub fn entries_vec(&self) -> (r: Vec<(u64, u32)>)
        requires
            self.wf(),
        ensures
            forall|i: int, j: int|
                0 <= i < j < r@.len() ==> (#[trigger] r@[i]).0 != (#[trigger] r@[j]).0,
            forall|i: int|
                0 <= i < r@.len() ==> self@.contains_key((#[trigger] r@[i]).0) && self@[r@[i].0]
                    == r@[i].1,
            forall|k: u64| #[trigger] self@.contains_key(k) ==> exists|i: int|
                0 <= i < r@.len() && (#[trigger] r@[i]).0 == k,
    {
        let mut out: Vec<(u64, u32)> = Vec::new();
        let n: usize = self.entries.len();
        let mut i: usize = 0;
        while i < n
            invariant
                0 <= i <= n,
                n == self.entries@.len(),
                out@ =~= self.entries@.subrange(0, i as int),
            decreases n - i,
        {
            out.push(self.entries[i]);
            assert(out@ =~= self.entries@.subrange(0, i + 1));
            i = i + 1;
        }
        proof {
            assert(out@ =~= self.entries@);
            assert forall|i: int| 0 <= i < out@.len() implies self@.contains_key(
                (#[trigger] out@[i]).0,
            ) && self@[out@[i].0] == out@[i].1 by {
                let q = out@[i].0;
                assert(self.entries@[i].0 == q);
                let j = choose|j: int|
                    0 <= j < self.entries@.len() && (#[trigger] self.entries@[j]).0 == q;
                assert(j == i);
            }
        }
        out
    }
}


/// The keys among the first `upto` entries that carry value `v`.
pub open spec fn matching_upto(s: Seq<(u64, u32)>, v: u32, upto: int) -> Set<u64> {
    Set::new(|k: u64| exists|j: int| 0 <= j < upto && #[trigger] s[j] == (k, v))
}

/// How many of the first `upto` entries carry value `v`.
pub open spec fn count_upto(s: Seq<(u64, u32)>, v: u32, upto: int) -> int
    decreases upto,
{
    if upto <= 0 {
        0
    } else if s[upto - 1].1 == v {
        count_upto(s, v, upto - 1) + 1
    } else {
        count_upto(s, v, upto - 1)
    }
}

/// On an entry list without repeated keys, the matching-key set has one
/// element per matching entry.
proof fn lemma_matching_upto_len(s: Seq<(u64, u32)>, v: u32, upto: int)
    requires
        entries_wf(s),
        0 <= upto <= s.len(),
    ensures
        matching_upto(s, v, upto).finite(),
        matching_upto(s, v, upto).len() == count_upto(s, v, upto),
    decreases upto,
{
    if upto == 0 {
        assert(matching_upto(s, v, 0) =~= Set::<u64>::empty());
    } else {
        lemma_matching_upto_len(s, v, upto - 1);
        let k0 = s[upto - 1].0;
        if s[upto - 1].1 == v {
            assert forall|k: u64|
                matching_upto(s, v, upto).contains(k) <==> matching_upto(s, v, upto - 1).insert(
                    k0,
                ).contains(k) by {
                if matching_upto(s, v, upto).contains(k) && k != k0 {
                    let j = choose|j: int| 0 <= j < upto && #[trigger] s[j] == (k, v);
                    assert(j < upto - 1);
                }
                if k == k0 {
                    assert(s[upto - 1] == (k, v));
                }
            }
            assert(matching_upto(s, v, upto) =~= matching_upto(s, v, upto - 1).insert(k0));
            if matching_upto(s, v, upto - 1).contains(k0) {
                let j = choose|j: int| 0 <= j < upto - 1 && #[trigger] s[j] == (k0, v);
                assert(s[j].0 == s[upto - 1].0 && j != upto - 1);
                assert(false);
            }
            vstd::set::axiom_set_insert_len(matching_upto(s, v, upto - 1), k0);
        } else {
            assert forall|k: u64|
                matching_upto(s, v, upto).contains(k) <==> matching_upto(s, v, upto - 1).contains(
                    k,
                ) by {
                if matching_upto(s, v, upto).contains(k) {
                    let j = choose|j: int| 0 <= j < upto && #[trigger] s[j] == (k, v);
                    assert(j < upto - 1);
                }
            }
            assert(matching_upto(s, v, upto) =~= matching_upto(s, v, upto - 1));
        }
    }
}

impl ClassMap {
    /// How many records carry the class value `v`: the number of keys the
    /// map sends to `v`.
    pub fn count_value(&self, v: u32) -> (r: usize)
        requires
            self.wf(),
        ensures
            r == self@.dom().filter(|k: u64| self@[k] == v).len(),
    {
        let ghost entries = self.entries@;
        let n: usize = self.entries.len();
        let mut count: usize = 0;
        let mut i: usize = 0;
        while i < n
            invariant
                0 <= i <= n,
                n == self.entries@.len(),
                entries == self.entries@,
                count == count_upto(entries, v, i as int),
                count <= i,
            decreases n - i,
        {
            if self.entries[i].1 == v {
                count = count + 1;
            }
            i = i + 1;
        }
        proof {
            lemma_matching_upto_len(entries, v, n as int);
            let filtered = self@.dom().filter(|k: u64| self@[k] == v);
            assert forall|k: u64|
                matching_upto(entries, v, n as int).contains(k) <==> filtered.contains(k) by {
                if matching_upto(entries, v, n as int).contains(k) {
                    let j = choose|j: int| 0 <= j < n && #[trigger] entries[j] == (k, v);
                    assert(entries[j].0 == k);
                    let j2 = choose|j2: int|
                        0 <= j2 < entries.len() && (#[trigger] entries[j2]).0 == k;
                    assert(j2 == j);
                    assert(self@[k] == v);
                }
                if filtered.contains(k) {
                    let j = choose|j: int|
                        0 <= j < entries.len() && (#[trigger] entries[j]).0 == k;
                    assert(entries[j] == (k, v));
                }
            }
            assert(matching_upto(entries, v, n as int) =~= filtered);
        }
        count
    }
}

} // verus!
