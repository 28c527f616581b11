//! Keyed snapshots of exchange data, replaced wholesale on each refresh, and
//! the bounded most-recently-used index kept beside some of them.
use vstd::prelude::*;
use crate::text::{owned, str_eq};

verus! {

/// Most keys a recency list holds.
pub const RECENT_CAPACITY: usize = 4;

/// A record that a snapshot files under a string key.
pub trait Keyed {
    spec fn key_view(&self) -> Seq<char>;

    fn key(&self) -> (r: &str)
        ensures
            r@ == self.key_view(),
    ;
}

/// The map that a list of records builds when each is filed under its key in
/// turn: a later record replaces an earlier one with the same key.
pub open spec fn records_map<T: Keyed>(s: Seq<T>) -> Map<Seq<char>, T>
    decreases s.len(),
{
    if s.len() == 0 {
        Map::empty()
    } else {
        records_map(s.drop_last()).insert(s.last().key_view(), s.last())
    }
}

proof fn lemma_records_map_absent<T: Keyed>(s: Seq<T>, k: Seq<char>)
    requires
        forall|j: int| 0 <= j < s.len() ==> (#[trigger] s[j]).key_view() != k,
    ensures
        !records_map(s).contains_key(k),
    decreases s.len(),
{
    if s.len() > 0 {
        let t = s.drop_last();
        assert forall|j: int| 0 <= j < t.len() implies (#[trigger] t[j]).key_view() != k by {
            assert(t[j] == s[j]);
        }
        lemma_records_map_absent(t, k);
        assert(s.last() == s[s.len() - 1]);
    }
}

proof fn lemma_records_map_last<T: Keyed>(s: Seq<T>, k: Seq<char>, i: int)
    requires
        0 <= i < s.len(),
        s[i].key_view() == k,
        forall|j: int| i < j < s.len() ==> (#[trigger] s[j]).key_view() != k,
    ensures
        records_map(s).contains_key(k),
        records_map(s)[k] == s[i],
    decreases s.len(),
{
    if i < s.len() - 1 {
        let t = s.drop_last();
        assert forall|j: int| i < j < t.len() implies (#[trigger] t[j]).key_view() != k by {
            assert(t[j] == s[j]);
        }
        assert(t[i] == s[i]);
        lemma_records_map_last(t, k, i);
        assert(s.last() == s[s.len() - 1]);
    }
}

/// Records of one kind, filed by key. A refresh replaces them all at once.
pub struct Snapshot<T> {
    pub records: Vec<T>,
}

impl<T: Keyed> View for Snapshot<T> {
    type V = Map<Seq<char>, T>;

    open spec fn view(&self) -> Map<Seq<char>, T> {
        records_map(self.records@)
    }
}

impl<T: Keyed> Snapshot<T> {
    /// The records in the order the last refresh delivered them.
    pub open spec fn records_view(&self) -> Seq<T> {
        self.records@
    }

    pub fn new() -> (r: Self)
        ensures
            r.records_view() == Seq::<T>::empty(),
            r@ == Map::<Seq<char>, T>::empty(),
    {
        Snapshot { records: Vec::new() }
    }

    /// The record filed under `k`, if any.
    pub fn get(&self, k: &str) -> (r: Option<&T>)
        ensures
            match r {
                Some(v) => self@.contains_key(k@) && self@[k@] == *v,
                None => !self@.contains_key(k@),
            },
    {
        let n = self.records.len();
        let mut i: usize = n;
        while i > 0
            invariant
                i <= n == self.records@.len(),
                forall|j: int| i <= j < n ==> (#[trigger] self.records@[j]).key_view() != k@,
            decreases i,
        {
            i = i - 1;
            if str_eq(self.records[i].key(), k) {
                proof {
                    lemma_records_map_last(self.records@, k@, i as int);
                }
                return Some(&self.records[i]);
            }
        }
        proof {
            lemma_records_map_absent(self.records@, k@);
        }
        None
    }

    /// Installs what a fetch returned. On success the previous records are
    /// replaced as a whole; on failure they are kept as they were.
    pub fn refresh<E>(&mut self, fetched: Result<Vec<T>, E>)
        ensures
            match fetched {
                Ok(records) => final(self).records_view() == records@,
                Err(_) => final(self).records_view() == old(self).records_view(),
            },
    {
        if let Ok(records) = fetched {
            self.records = records;
        }
    }

    /// The records in the order the last refresh delivered them.
    pub fn records(&self) -> (r: &Vec<T>)
        ensures
            r@ == self.records_view(),
    {
        &self.records
    }

    pub fn len(&self) -> (r: usize)
        ensures
            r == self.records_view().len(),
    {
        self.records.len()
    }
}

/// The key list with every occurrence of `k` taken out.
pub open spec fn without(s: Seq<Seq<char>>, k: Seq<char>) -> Seq<Seq<char>>
    decreases s.len(),
{
    if s.len() == 0 {
        s
    } else if s.last() == k {
        without(s.drop_last(), k)
    } else {
        without(s.drop_last(), k).push(s.last())
    }
}

/// The recency list after an access to `k`: `k` moves to the most recent end
/// and, past the capacity, the oldest key is dropped.
pub open spec fn touched(s: Seq<Seq<char>>, k: Seq<char>) -> Seq<Seq<char>> {
    let moved = without(s, k).push(k);
    if moved.len() > RECENT_CAPACITY {
        moved.skip(1)
    } else {
        moved
    }
}

/// Oldest-first order turned into most-recent-first order.
pub open spec fn newest_first(s: Seq<Seq<char>>) -> Seq<Seq<char>> {
    Seq::new(s.len(), |i: int| s[s.len() - 1 - i])
}

pub proof fn lemma_without(s: Seq<Seq<char>>, k: Seq<char>)
    ensures
        without(s, k).len() <= s.len(),
        !without(s, k).contains(k),
        forall|x: Seq<char>| x != k ==> (without(s, k).contains(x) <==> s.contains(x)),
        s.no_duplicates() ==> without(s, k).no_duplicates(),
    decreases s.len(),
{
    if s.len() > 0 {
        let t = s.drop_last();
        lemma_without(t, k);
        assert forall|x: Seq<char>| x != k implies (without(s, k).contains(x) <==> s.contains(x)) by {
            if s.contains(x) {
                let j = choose|j: int| 0 <= j < s.len() && s[j] == x;
                if j < s.len() - 1 {
                    assert(t[j] == x);
                    assert(t.contains(x));
                }
            }
            if t.contains(x) {
                let j = choose|j: int| 0 <= j < t.len() && t[j] == x;
                assert(s[j] == x);
            }
            if s.last() != k {
                let w = without(t, k);
                if w.push(s.last()).contains(x) {
                    let j = choose|j: int| 0 <= j < w.len() + 1 && w.push(s.last())[j] == x;
                    if j < w.len() {
                        assert(w[j] == x);
                    }
                }
                if w.contains(x) {
                    let j = choose|j: int| 0 <= j < w.len() && w[j] == x;
                    assert(w.push(s.last())[j] == x);
                }
                if x == s.last() {
                    assert(w.push(s.last())[w.len() as int] == x);
                }
            }
        }
        if s.last() != k {
            let w = without(t, k);
            assert(!w.push(s.last()).contains(k)) by {
                if w.push(s.last()).contains(k) {
                    let j = choose|j: int| 0 <= j < w.len() + 1 && w.push(s.last())[j] == k;
                    if j < w.len() {
                        assert(w[j] == k);
                    }
                }
            }
            if s.no_duplicates() {
                assert(t.no_duplicates()) by {
                    assert forall|a: int, b: int| 0 <= a < t.len() && 0 <= b < t.len() && a != b implies t[a] != t[b] by {
                        assert(t[a] == s[a] && t[b] == s[b]);
                    }
                }
                assert(!t.contains(s.last())) by {
                    if t.contains(s.last()) {
                        let j = choose|j: int| 0 <= j < t.len() && t[j] == s.last();
                        assert(s[j] == s[s.len() - 1]);
                    }
                }
                assert(!w.contains(s.last()));
                assert forall|a: int, b: int| 0 <= a < w.len() + 1 && 0 <= b < w.len() + 1 && a != b implies w.push(s.last())[a] != w.push(s.last())[b] by {
                    if a < w.len() && b < w.len() {
                        assert(w.push(s.last())[a] == w[a]);
                        assert(w.push(s.last())[b] == w[b]);
                    } else if a < w.len() {
                        assert(w.push(s.last())[a] == w[a]);
                        assert(w.contains(w[a]));
                    } else if b < w.len() {
                        assert(w.push(s.last())[b] == w[b]);
                        assert(w.contains(w[b]));
                    }
                }
            }
        } else if s.no_duplicates() {
            assert(t.no_duplicates()) by {
                assert forall|a: int, b: int| 0 <= a < t.len() && 0 <= b < t.len() && a != b implies t[a] != t[b] by {
                    assert(t[a] == s[a] && t[b] == s[b]);
                }
            }
        }
    }
}

/// An access keeps the recency list within four keys and free of
/// duplicates, and puts the accessed key first in most-recent-first order,
/// exactly once.
pub proof fn lemma_touch_law(s: Seq<Seq<char>>, k: Seq<char>)
    requires
        s.len() <= RECENT_CAPACITY,
        s.no_duplicates(),
    ensures
        touched(s, k).len() <= RECENT_CAPACITY,
        touched(s, k).no_duplicates(),
        touched(s, k).last() == k,
        newest_first(touched(s, k))[0] == k,
        forall|j: int| 0 <= j < touched(s, k).len() - 1 ==> touched(s, k)[j] != k,
{
    lemma_without(s, k);
    let w = without(s, k);
    let moved = w.push(k);
    assert forall|j: int| 0 <= j < moved.len() - 1 implies moved[j] != k by {
        assert(moved[j] == w[j]);
    }
    assert(moved.no_duplicates()) by {
        assert forall|a: int, b: int| 0 <= a < moved.len() && 0 <= b < moved.len() && a != b implies moved[a] != moved[b] by {
            if a < w.len() && b < w.len() {
                assert(moved[a] == w[a] && moved[b] == w[b]);
            }
        }
    }
    if moved.len() > RECENT_CAPACITY {
        let m = moved.skip(1);
        assert forall|a: int, b: int| 0 <= a < m.len() && 0 <= b < m.len() && a != b implies m[a] != m[b] by {
            assert(m[a] == moved[a + 1] && m[b] == moved[b + 1]);
        }
        assert forall|j: int| 0 <= j < m.len() - 1 implies m[j] != k by {
            assert(m[j] == moved[j + 1]);
        }
    }
}

/// Accessing five distinct keys `a` to `e` in turn and then `c` again leaves
/// `c, e, d, b` from most to least recent: `a`, the oldest, is evicted and
/// `c` moves to the front without being repeated.
pub proof fn lemma_touch_example(a: Seq<char>, b: Seq<char>, c: Seq<char>, d: Seq<char>, e: Seq<char>)
    requires
        a != b && a != c && a != d && a != e,
        b != c && b != d && b != e,
        c != d && c != e,
        d != e,
    ensures
        newest_first(
            touched(touched(touched(touched(touched(touched(Seq::empty(), a), b), c), d), e), c),
        ) == seq![c, e, d, b],
{
    reveal_with_fuel(without, 6);
    let s1 = touched(Seq::empty(), a);
    assert(s1 =~= seq![a]);
    let s2 = touched(s1, b);
    assert(seq![a].drop_last() =~= Seq::<Seq<char>>::empty());
    assert(s2 =~= seq![a, b]);
    let s3 = touched(s2, c);
    assert(seq![a, b].drop_last() =~= seq![a]);
    assert(s3 =~= seq![a, b, c]);
    let s4 = touched(s3, d);
    assert(seq![a, b, c].drop_last() =~= seq![a, b]);
    assert(s4 =~= seq![a, b, c, d]);
    let s5 = touched(s4, e);
    assert(seq![a, b, c, d].drop_last() =~= seq![a, b, c]);
    assert(without(s4, e) =~= seq![a, b, c, d]);
    assert(s5 =~= seq![b, c, d, e]);
    let s6 = touched(s5, c);
    assert(seq![b, c, d, e].drop_last() =~= seq![b, c, d]);
    assert(seq![b, c, d].drop_last() =~= seq![b, c]);
    assert(seq![b, c].drop_last() =~= seq![b]);
    assert(seq![b].drop_last() =~= Seq::<Seq<char>>::empty());
    assert(without(s5, c) =~= seq![b, d, e]);
    assert(s6 =~= seq![b, d, e, c]);
    assert(newest_first(s6) =~= seq![c, e, d, b]);
}

/// A snapshot with a recency list: the keys most recently looked up with
/// "record access", oldest first, at most four, each at most once.
pub struct WithRecent<T> {
    pub inner: Snapshot<T>,
    pub recent: Vec<String>,
}

impl<T: Keyed> View for WithRecent<T> {
    type V = Map<Seq<char>, T>;

    open spec fn view(&self) -> Map<Seq<char>, T> {
        self.inner@
    }
}

impl<T: Keyed> WithRecent<T> {
    /// The recency list, oldest first.
    pub open spec fn recent_view(&self) -> Seq<Seq<char>> {
        self.recent@.map_values(|s: String| s@)
    }

    pub open spec fn records_view(&self) -> Seq<T> {
        self.inner.records_view()
    }

    pub open spec fn wf(&self) -> bool {
        &&& self.recent_view().len() <= RECENT_CAPACITY
        &&& self.recent_view().no_duplicates()
    }

    pub fn new() -> (r: Self)
        ensures
            r.wf(),
            r@ == Map::<Seq<char>, T>::empty(),
            r.recent_view() == Seq::<Seq<char>>::empty(),
    {
        let r = WithRecent { inner: Snapshot::new(), recent: Vec::new() };
        assert(r.recent_view() =~= Seq::<Seq<char>>::empty());
        r
    }

    /// The record under `k`, without touching the recency list.
    pub fn lookup(&self, k: &str) -> (r: Option<&T>)
        ensures
            match r {
                Some(v) => self@.contains_key(k@) && self@[k@] == *v,
                None => !self@.contains_key(k@),
            },
    {
        self.inner.get(k)
    }

    /// The record under `k`. When it exists and `add_to_recent` is set, `k`
    /// becomes the most recent key of the recency list.
    pub fn get(&mut self, k: &str, add_to_recent: bool) -> (r: Option<&T>)
        requires
            old(self).wf(),
        ensures
            final(self).wf(),
            final(self)@ == old(self)@,
            final(self).records_view() == old(self).records_view(),
            match r {
                Some(v) => old(self)@.contains_key(k@) && old(self)@[k@] == *v,
                None => !old(self)@.contains_key(k@),
            },
            final(self).recent_view() == if add_to_recent && old(self)@.contains_key(k@) {
                touched(old(self).recent_view(), k@)
            } else {
                old(self).recent_view()
            },
    {
        let found = self.inner.get(k).is_some();
        if found && add_to_recent {
            self.touch(k);
        }
        self.inner.get(k)
    }

    /// Moves `k` to the most recent end of the recency list.
    fn touch(&mut self, k: &str)
        requires
            old(self).wf(),
        ensures
            final(self).wf(),
            final(self).inner == old(self).inner,
            final(self).recent_view() == touched(old(self).recent_view(), k@),
    {
        let ghost s = self.recent_view();
        let mut kept: Vec<String> = Vec::new();
        let n = self.recent.len();
        let mut i: usize = 0;
        while i < n
            invariant
                n == self.recent@.len(),
                s == self.recent_view(),
                i <= n,
                kept@.map_values(|x: String| x@) == without(s.take(i as int), k@),
            decreases n - i,
        {
            let ghost before = kept@.map_values(|x: String| x@);
            proof {
                assert(s.take(i + 1).drop_last() =~= s.take(i as int));
                assert(s.take(i + 1).last() == self.recent@[i as int]@);
            }
            if !str_eq(self.recent[i].as_str(), k) {
                kept.push(self.recent[i].clone());
                assert(kept@.map_values(|x: String| x@) =~= before.push(s[i as int]));
            }
            i += 1;
        }
        proof {
            assert(s.take(n as int) =~= s);
            lemma_without(s, k@);
        }
        kept.push(owned(k));
        let ghost moved = without(s, k@).push(k@);
        assert(kept@.map_values(|x: String| x@) =~= moved);
        proof {
            assert(moved.no_duplicates()) by {
                let w = without(s, k@);
                assert forall|a: int, b: int| 0 <= a < moved.len() && 0 <= b < moved.len() && a != b implies moved[a] != moved[b] by {
                    if a < w.len() && b < w.len() {
                        assert(moved[a] == w[a] && moved[b] == w[b]);
                    } else if a < w.len() {
                        assert(moved[a] == w[a]);
                        assert(w.contains(w[a]));
                    } else if b < w.len() {
                        assert(moved[b] == w[b]);
                        assert(w.contains(w[b]));
                    }
                }
            }
        }
        if kept.len() > RECENT_CAPACITY {
            kept.remove(0);
            assert(kept@.map_values(|x: String| x@) =~= moved.skip(1));
            proof {
                let m = moved.skip(1);
                assert forall|a: int, b: int| 0 <= a < m.len() && 0 <= b < m.len() && a != b implies m[a] != m[b] by {
                    assert(m[a] == moved[a + 1] && m[b] == moved[b + 1]);
                }
            }
        }
        self.recent = kept;
    }

    /// The recency list, most recent first.
    pub fn recent(&self) -> (r: Vec<String>)
        ensures
            r@.map_values(|x: String| x@) == newest_first(self.recent_view()),
    {
        let mut r: Vec<String> = Vec::new();
        let n = self.recent.len();
        let mut i: usize = n;
        while i > 0
            invariant
                i <= n == self.recent@.len(),
                r@.map_values(|x: String| x@) =~= newest_first(self.recent_view()).take(n - i),
            decreases i,
        {
            i = i - 1;
            let ghost before = r@.map_values(|x: String| x@);
            r.push(self.recent[i].clone());
            assert(r@.map_values(|x: String| x@) =~= before.push(self.recent_view()[i as int]));
        }
        r
    }

    /// Installs what a fetch returned: on success the records are replaced as
    /// a whole, on failure kept. The recency list is left as it is.
    pub fn refresh<E>(&mut self, fetched: Result<Vec<T>, E>)
        requires
            old(self).wf(),
        ensures
            final(self).wf(),
            final(self).recent_view() == old(self).recent_view(),
            match fetched {
                Ok(records) => final(self).records_view() == records@,
                Err(_) => final(self).records_view() == old(self).records_view(),
            },
    {
        self.inner.refresh(fetched);
    }

    pub fn records(&self) -> (r: &Vec<T>)
        ensures
            r@ == self.records_view(),
    {
        self.inner.records()
    }
}

} // verus!
