//! Counters of the persistent cache: operation latencies and the most used keys.
use vstd::prelude::*;
use crate::text::{owned, str_eq, strs};

verus! {

/// Summary of the latency of one kind of operation.
#[derive(Debug, Clone, Copy, PartialEq, Eq, Structural)]
pub struct LatencyStats {
    /// Operations measured.
    pub count: u64,
    /// Total nanoseconds.
    pub total_ns: u64,
    /// Fewest nanoseconds (`u64::MAX` before any operation).
    pub min_ns: u64,
    /// Most nanoseconds.
    pub max_ns: u64,
    /// Mean nanoseconds, rounded down (0 before any operation).
    pub avg_ns: u64,
}

/// Running latency counters of one kind of operation. Totals and counts wrap
/// around on overflow, as atomic additions do.
#[derive(Debug, Clone, Copy)]
pub struct LatencyCounter {
    /// Total nanoseconds.
    pub total_ns: u64,
    /// Operations.
    pub count: u64,
    /// Fewest nanoseconds.
    pub min_ns: u64,
    /// Most nanoseconds.
    pub max_ns: u64,
}

/// `a + b` wrapped around to 64 bits.
pub open spec fn wrap_add(a: u64, b: u64) -> u64 {
    if a + b > u64::MAX { (a + b - u64::MAX - 1) as u64 } else { (a + b) as u64 }
}

impl LatencyCounter {
    /// Counters before any operation: the least latency starts at `u64::MAX`.
    pub open spec fn fresh() -> Self {
        LatencyCounter { total_ns: 0, count: 0, min_ns: u64::MAX, max_ns: 0 }
    }

    /// The counters after one more operation of `elapsed_ns` nanoseconds.
    pub open spec fn recorded(self, elapsed_ns: u64) -> Self {
        LatencyCounter {
            total_ns: wrap_add(self.total_ns, elapsed_ns),
            count: wrap_add(self.count, 1),
            min_ns: if elapsed_ns < self.min_ns { elapsed_ns } else { self.min_ns },
            max_ns: if elapsed_ns > self.max_ns { elapsed_ns } else { self.max_ns },
        }
    }

    /// Counters before any operation: the least latency starts at `u64::MAX`.
    pub fn new() -> (c: Self)
        ensures
            c == Self::fresh(),
    {
        LatencyCounter { total_ns: 0, count: 0, min_ns: u64::MAX, max_ns: 0 }
    }

    /// Records an operation of `elapsed_ns` nanoseconds.
    pub fn record(&mut self, elapsed_ns: u64)
        ensures
            *final(self) == old(self).recorded(elapsed_ns),
    {
        self.total_ns = self.total_ns.wrapping_add(elapsed_ns);
        self.count = self.count.wrapping_add(1);
        if elapsed_ns < self.min_ns {
            self.min_ns = elapsed_ns;
        }
        if elapsed_ns > self.max_ns {
            self.max_ns = elapsed_ns;
        }
    }

    /// The summary: the counters and the mean.
    pub open spec fn summarized(self) -> LatencyStats {
        LatencyStats {
            count: self.count,
            total_ns: self.total_ns,
            min_ns: self.min_ns,
            max_ns: self.max_ns,
            avg_ns: if self.count > 0 { (self.total_ns / self.count) as u64 } else { 0 },
        }
    }

    /// The summary of batch operations, whose extremes are not measured.
    pub open spec fn batch_summarized(self) -> LatencyStats {
        LatencyStats {
            count: self.count,
            total_ns: self.total_ns,
            min_ns: 0,
            max_ns: 0,
            avg_ns: if self.count > 0 { (self.total_ns / self.count) as u64 } else { 0 },
        }
    }

    /// The summary: the counters and the mean.
    pub fn summary(&self) -> (s: LatencyStats)
        ensures
            s == self.summarized(),
    {
        let avg = if self.count > 0 { self.total_ns / self.count } else { 0 };
        LatencyStats { count: self.count, total_ns: self.total_ns, min_ns: self.min_ns, max_ns: self.max_ns, avg_ns: avg }
    }

    /// The summary of batch operations, whose extremes are not measured.
    pub fn batch_summary(&self) -> (s: LatencyStats)
        ensures
            s == self.batch_summarized(),
    {
        let avg = if self.count > 0 { self.total_ns / self.count } else { 0 };
        LatencyStats { count: self.count, total_ns: self.total_ns, min_ns: 0, max_ns: 0, avg_ns: avg }
    }
}

/// Once an operation was recorded, the least latency is at most the most.
pub proof fn law_latency_extremes(c: LatencyCounter, e: u64)
    requires
        c.min_ns <= c.max_ns || (c.min_ns == u64::MAX && c.max_ns == 0),
    ensures
        ({
            let min2 = if e < c.min_ns { e } else { c.min_ns };
            let max2 = if e > c.max_ns { e } else { c.max_ns };
            min2 <= e <= max2 && min2 <= max2
        }),
{
}

/// A frequently used key.
#[derive(Debug, Clone)]
pub struct HotKeyInfo {
    /// Key within its scope.
    pub key: String,
    /// Accesses.
    pub access_count: u64,
    /// Scope.
    pub scope: String,
}

/// Access counts of `scope:key` strings, in the order first seen.
#[derive(Debug, Clone)]
pub struct HotKeys {
    counts: Vec<(String, u64)>,
}

impl View for HotKeys {
    type V = Seq<(Seq<char>, u64)>;

    closed spec fn view(&self) -> Seq<(Seq<char>, u64)> {
        self.counts@.map_values(|e: (String, u64)| (e.0@, e.1))
    }
}

/// The names of counted keys.
pub open spec fn counted_names(s: Seq<(Seq<char>, u64)>) -> Seq<Seq<char>> {
    s.map_values(|e: (Seq<char>, u64)| e.0)
}

/// The counts after one more access of `k`.
pub open spec fn bumped(s: Seq<(Seq<char>, u64)>, k: Seq<char>) -> Seq<(Seq<char>, u64)> {
    if counted_names(s).contains(k) {
        let i = counted_names(s).index_of(k);
        s.update(i, (k, wrap_add(s[i].1, 1)))
    } else {
        s.push((k, 1))
    }
}

/// The counts without `k`.
pub open spec fn forgotten(s: Seq<(Seq<char>, u64)>, k: Seq<char>) -> Seq<(Seq<char>, u64)> {
    if counted_names(s).contains(k) {
        s.remove(counted_names(s).index_of(k))
    } else {
        s
    }
}

impl HotKeys {
    /// Whether no key is counted twice.
    pub closed spec fn wf(&self) -> bool {
        counted_names(self@).no_duplicates()
    }

    /// No counts.
    pub fn new() -> (h: Self)
        ensures
            h.wf(),
            h@.len() == 0,
    {
        let h = HotKeys { counts: Vec::new() };
        assert(h@ =~= Seq::<(Seq<char>, u64)>::empty());
        h
    }

    fn position(&self, k: &str) -> (r: Option<usize>)
        requires
            self.wf(),
        ensures
            match r {
                Some(i) => counted_names(self@).contains(k@) && i == counted_names(self@).index_of(k@)
                    && i < self@.len(),
                None => !counted_names(self@).contains(k@),
            },
    {
        let mut i: usize = 0;
        while i < self.counts.len()
            invariant
                i <= self.counts.len(),
                self.wf(),
                forall|j: int| 0 <= j < i ==> self.counts@[j].0@ != k@,
            decreases self.counts.len() - i,
        {
            if str_eq(self.counts[i].0.as_str(), k) {
                proof {
                    let ns = counted_names(self@);
                    assert(ns[i as int] == k@);
                    assert(ns.contains(k@));
                    let x = ns.index_of(k@);
                    assert(ns[x] == k@);
                }
                return Some(i);
            }
            i = i + 1;
        }
        assert(!counted_names(self@).contains(k@)) by {
            if counted_names(self@).contains(k@) {
                let x = choose|x: int| 0 <= x < counted_names(self@).len() && counted_names(self@)[x] == k@;
                assert(self.counts@[x].0@ == k@);
            }
        }
        None
    }

    /// Counts one more access of `k`.
    pub fn bump(&mut self, k: String)
        requires
            old(self).wf(),
        ensures
            final(self).wf(),
            final(self)@ == bumped(old(self)@, k@),
    {
        let ghost s = self@;
        match self.position(k.as_str()) {
            Some(i) => {
                let c = self.counts[i].1.wrapping_add(1);
                self.counts.set(i, (k, c));
                proof {
                    assert(self@ =~= s.update(i as int, (k@, wrap_add(s[i as int].1, 1))));
                    assert(counted_names(self@) =~= counted_names(s));
                }
            },
            None => {
                self.counts.push((k, 1));
                proof {
                    assert(self@ =~= s.push((k@, 1u64)));
                    assert(counted_names(self@) =~= counted_names(s).push(k@));
                }
            },
        }
    }

    /// Stops counting `k`.
    pub fn forget(&mut self, k: &str)
        requires
            old(self).wf(),
        ensures
            final(self).wf(),
            final(self)@ == forgotten(old(self)@, k@),
    {
        let ghost s = self@;
        match self.position(k) {
            Some(i) => {
                self.counts.remove(i);
                proof {
                    assert(self@ =~= s.remove(i as int));
                    let ns = counted_names(s);
                    assert(counted_names(self@) =~= ns.remove(i as int));
                    assert forall|a: int, b: int| 0 <= a < b < ns.remove(i as int).len() implies
                        ns.remove(i as int)[a] != ns.remove(i as int)[b] by {
                        let a2 = if a < i { a } else { a + 1 };
                        let b2 = if b < i { b } else { b + 1 };
                        assert(ns.remove(i as int)[a] == ns[a2]);
                        assert(ns.remove(i as int)[b] == ns[b2]);
                    }
                }
            },
            None => {},
        }
    }

    /// The counts.
    pub fn entries(&self) -> (r: &Vec<(String, u64)>)
        ensures
            r@.map_values(|e: (String, u64)| (e.0@, e.1)) == self@,
    {
        &self.counts
    }
}

/// `s` with `x` placed before the first entry counted less.
pub open spec fn insert_by_count(s: Seq<(Seq<char>, u64)>, x: (Seq<char>, u64)) -> Seq<(Seq<char>, u64)>
    decreases s.len(),
{
    if s.len() == 0 {
        seq![x]
    } else if x.1 > s[0].1 {
        seq![x] + s
    } else {
        seq![s[0]] + insert_by_count(s.drop_first(), x)
    }
}

/// The entries by count, most first; equal counts keep their order.
pub open spec fn by_count(s: Seq<(Seq<char>, u64)>) -> Seq<(Seq<char>, u64)>
    decreases s.len(),
{
    if s.len() == 0 { s } else { insert_by_count(by_count(s.drop_last()), s.last()) }
}

/// Whether the entries of `s` come most counted first.
pub open spec fn counts_desc(s: Seq<(Seq<char>, u64)>) -> bool {
    forall|i: int, j: int| 0 <= i < j < s.len() ==> #[trigger] s[i].1 >= #[trigger] s[j].1
}

/// Placing an entry keeps the entries most counted first, adds exactly that
/// entry, and keeps the others.
proof fn lemma_insert_by_count_sorted(s: Seq<(Seq<char>, u64)>, x: (Seq<char>, u64))
    requires
        counts_desc(s),
    ensures
        counts_desc(insert_by_count(s, x)),
        insert_by_count(s, x).len() == s.len() + 1,
        forall|k: int| 0 <= k < insert_by_count(s, x).len() ==>
            #[trigger] insert_by_count(s, x)[k] == x || s.contains(insert_by_count(s, x)[k]),
        insert_by_count(s, x).to_multiset() == s.to_multiset().insert(x),
    decreases s.len(),
{
    broadcast use vstd::seq_lib::group_to_multiset_ensures;
    let r = insert_by_count(s, x);
    if s.len() == 0 {
        assert(r =~= seq![x]);
        assert(seq![x] =~= Seq::<(Seq<char>, u64)>::empty().push(x));
    } else if x.1 > s[0].1 {
        assert forall|i: int, j: int| 0 <= i < j < r.len() implies #[trigger] r[i].1 >= #[trigger] r[j].1 by {
            if i == 0 {
                assert(r[j] == s[j - 1]);
            } else {
                assert(r[i] == s[i - 1] && r[j] == s[j - 1]);
            }
        }
        assert forall|k: int| 0 <= k < r.len() implies #[trigger] r[k] == x || s.contains(r[k]) by {
            if k > 0 {
                assert(r[k] == s[k - 1]);
            }
        }
        vstd::seq_lib::lemma_multiset_commutative(seq![x], s);
        assert(seq![x] =~= Seq::<(Seq<char>, u64)>::empty().push(x));
        assert(seq![x].to_multiset() =~= vstd::multiset::Multiset::<(Seq<char>, u64)>::empty().insert(x));
        assert(s.to_multiset().add(seq![x].to_multiset()) =~= s.to_multiset().insert(x));
    } else {
        let t = s.drop_first();
        assert forall|i: int, j: int| 0 <= i < j < t.len() implies #[trigger] t[i].1 >= #[trigger] t[j].1 by {
            assert(t[i] == s[i + 1] && t[j] == s[j + 1]);
        }
        lemma_insert_by_count_sorted(t, x);
        let u = insert_by_count(t, x);
        assert(r == seq![s[0]] + u);
        assert forall|k: int| 0 <= k < u.len() implies #[trigger] u[k].1 <= s[0].1 by {
            if u[k] != x {
                let m = choose|m: int| 0 <= m < t.len() && t[m] == u[k];
                assert(s[m + 1] == u[k]);
            }
        }
        assert forall|i: int, j: int| 0 <= i < j < r.len() implies #[trigger] r[i].1 >= #[trigger] r[j].1 by {
            assert(r[j] == u[j - 1]);
            if i > 0 {
                assert(r[i] == u[i - 1]);
            }
        }
        assert forall|k: int| 0 <= k < r.len() implies #[trigger] r[k] == x || s.contains(r[k]) by {
            if k == 0 {
                assert(s[0] == r[0]);
            } else {
                assert(r[k] == u[k - 1]);
                if u[k - 1] != x {
                    let m = choose|m: int| 0 <= m < t.len() && t[m] == u[k - 1];
                    assert(s[m + 1] == r[k]);
                }
            }
        }
        vstd::seq_lib::lemma_multiset_commutative(seq![s[0]], u);
        vstd::seq_lib::lemma_multiset_commutative(seq![s[0]], t);
        assert(s =~= seq![s[0]] + t);
        assert(u.to_multiset() =~= t.to_multiset().insert(x));
        assert((seq![s[0]] + u).to_multiset() =~= seq![s[0]].to_multiset().add(u.to_multiset()));
        assert(s.to_multiset() =~= seq![s[0]].to_multiset().add(t.to_multiset()));
    }
}

/// Sorting by count keeps every entry, once each, and puts them most counted
/// first.
proof fn lemma_by_count_sorted(s: Seq<(Seq<char>, u64)>)
    ensures
        counts_desc(by_count(s)),
        by_count(s).to_multiset() == s.to_multiset(),
    decreases s.len(),
{
    broadcast use vstd::seq_lib::group_to_multiset_ensures;
    if s.len() > 0 {
        lemma_by_count_sorted(s.drop_last());
        lemma_insert_by_count_sorted(by_count(s.drop_last()), s.last());
        assert(s =~= s.drop_last().push(s.last()));
    } else {
        assert(by_count(s).to_multiset() =~= s.to_multiset());
    }
}

/// The hot keys come most used first, and the list holds the counted keys once
/// each: sorting by count is a permutation in descending order of counts.
pub proof fn law_hot_keys_most_first(s: Seq<(Seq<char>, u64)>, limit: usize, r: Seq<HotKeyInfo>)
    requires
        HotKeys::top_of(s, limit, r),
    ensures
        forall|i: int, j: int| 0 <= i < j < r.len() ==> #[trigger] r[i].access_count >= #[trigger] r[j].access_count,
        by_count(s).to_multiset() == s.to_multiset(),
{
    lemma_by_count_sorted(s);
    let sorted = by_count(s);
    assert forall|i: int, j: int| 0 <= i < j < r.len() implies #[trigger] r[i].access_count >= #[trigger] r[j].access_count by {
        assert(r[i].access_count == sorted[i].1);
        assert(r[j].access_count == sorted[j].1);
    }
}

/// The scope and key of `scope:key`: split at the first `:`, or `unknown` and the
/// whole string when there is none.
pub open spec fn split_hot_key(s: Seq<char>) -> (Seq<char>, Seq<char>) {
    if s.contains(':') {
        let i = s.index_of_first(':')->0;
        (s.subrange(0, i), s.subrange(i + 1, s.len() as int))
    } else {
        ("unknown"@, s)
    }
}

proof fn lemma_insert_by_count_at(s: Seq<(Seq<char>, u64)>, x: (Seq<char>, u64), p: int)
    requires
        0 <= p <= s.len(),
        forall|j: int| 0 <= j < p ==> !(x.1 > #[trigger] s[j].1),
        p < s.len() ==> x.1 > s[p].1,
    ensures
        insert_by_count(s, x) == s.insert(p, x),
    decreases s.len(),
{
    if s.len() == 0 {
        assert(s.insert(p, x) =~= seq![x]);
    } else if p == 0 {
        assert(s.insert(0, x) =~= seq![x] + s);
    } else {
        let t = s.drop_first();
        assert forall|j: int| 0 <= j < p - 1 implies !(x.1 > #[trigger] t[j].1) by {
            assert(t[j] == s[j + 1]);
        }
        lemma_insert_by_count_at(t, x, p - 1);
        assert(seq![s[0]] + t.insert(p - 1, x) =~= s.insert(p, x));
    }
}

/// Splits `scope:key` at the first `:`.
fn split_key(s: &str) -> (r: (String, String))
    ensures
        r.0@ == split_hot_key(s@).0,
        r.1@ == split_hot_key(s@).1,
{
    let n = s.unicode_len();
    let mut i: usize = 0;
    while i < n
        invariant
            n == s@.len(),
            i <= n,
            forall|j: int| 0 <= j < i ==> s@[j] != ':',
        decreases n - i,
    {
        if s.get_char(i) == ':' {
            proof {
                s@.index_of_first_ensures(':');
                assert(s@.contains(':'));
                let f = s@.index_of_first(':')->0;
                assert(f == i) by {
                    if f < i {} else if f > i {}
                }
            }
            return (owned(s.substring_char(0, i)), owned(s.substring_char(i + 1, n)));
        }
        i = i + 1;
    }
    assert(!s@.contains(':'));
    (owned("unknown"), owned(s))
}

impl HotKeys {
    /// `r` lists the `limit` most used keys of the counts `s`, most first (equal
    /// counts in the order first seen), each split into scope and key.
    pub open spec fn top_of(s: Seq<(Seq<char>, u64)>, limit: usize, r: Seq<HotKeyInfo>) -> bool {
        let sorted = by_count(s);
        let n = if sorted.len() < limit { sorted.len() as int } else { limit as int };
        &&& r.len() == n
        &&& forall|i: int| 0 <= i < n ==> {
            let (sc, k) = split_hot_key(sorted[i].0);
            &&& #[trigger] r[i].access_count == sorted[i].1
            &&& r[i].scope@ == sc
            &&& r[i].key@ == k
        }
    }

    /// The `limit` most used keys, most first (equal counts in the order first
    /// seen), each split into scope and key.
    pub fn top(&self, limit: usize) -> (r: Vec<HotKeyInfo>)
        ensures
            Self::top_of(self@, limit, r@),
    {
        let mut sorted: Vec<(String, u64)> = Vec::new();
        let n = self.counts.len();
        let mut i: usize = 0;
        assert(self@.take(0) =~= Seq::<(Seq<char>, u64)>::empty());
        while i < n
            invariant
                n == self@.len(),
                i <= n,
                sorted@.map_values(|e: (String, u64)| (e.0@, e.1)) == by_count(self@.take(i as int)),
            decreases n - i,
        {
            let e = &self.counts[i];
            let ghost sv = sorted@.map_values(|e: (String, u64)| (e.0@, e.1));
            let ghost x = (e.0@, e.1);
            assert(x == self@[i as int]);
            let mut p: usize = 0;
            while p < sorted.len() && !(e.1 > sorted[p].1)
                invariant
                    p <= sorted.len(),
                    x == (e.0@, e.1),
                    sv == sorted@.map_values(|e: (String, u64)| (e.0@, e.1)),
                    forall|j: int| 0 <= j < p ==> !(x.1 > #[trigger] sv[j].1),
                decreases sorted.len() - p,
            {
                p = p + 1;
            }
            proof {
                lemma_insert_by_count_at(sv, x, p as int);
                assert(self@.take(i + 1).drop_last() =~= self@.take(i as int));
                assert(self@.take(i + 1).last() == x);
            }
            sorted.insert(p, (owned(e.0.as_str()), e.1));
            assert(sorted@.map_values(|e: (String, u64)| (e.0@, e.1)) =~= sv.insert(p as int, x));
            i = i + 1;
        }
        assert(self@.take(i as int) =~= self@);
        let ghost sv = sorted@.map_values(|e: (String, u64)| (e.0@, e.1));
        assert(sv.len() == sorted.len());
        let mut out: Vec<HotKeyInfo> = Vec::new();
        let mut j: usize = 0;
        while j < sorted.len() && j < limit
            invariant
                j <= sorted.len(),
                j <= limit,
                sv.len() == sorted.len(),
                sv == by_count(self@),
                sv == sorted@.map_values(|e: (String, u64)| (e.0@, e.1)),
                out@.len() == j,
                forall|i: int| 0 <= i < j ==> {
                    let (sc, k) = split_hot_key(sv[i].0);
                    &&& #[trigger] out@[i].access_count == sv[i].1
                    &&& out@[i].scope@ == sc
                    &&& out@[i].key@ == k
                },
            decreases sorted.len() - j,
        {
            let (scope, key) = split_key(sorted[j].0.as_str());
            out.push(HotKeyInfo { key, access_count: sorted[j].1, scope });
            j = j + 1;
        }
        out
    }
}

} // verus!
