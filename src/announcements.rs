//! Which kinds of exchange announcement the user is told about.
use vstd::prelude::*;

verus! {

/// Kinds of exchange announcement.
#[derive(Debug, Clone, Copy, PartialEq, Eq, Hash, Structural)]
pub enum AnnouncementType {
    LatestAnnouncements,
    FuturesAnnouncements,
    Activities,
    NewListings,
    ProductUpdates,
    Vip,
    MaintenanceUpdates,
    ApiCampaigns,
    Delistings,
    Others,
}

/// The kinds the user wants to hear about, and how far back each poll looks.
#[derive(Debug)]
pub struct Announcements {
    pub notifiable: Vec<AnnouncementType>,
    /// Seconds between two polls; each poll asks for what appeared since.
    pub period: u64,
}

/// Seconds between two announcement polls unless configured otherwise.
pub const DEFAULT_PERIOD: u64 = 100;

impl Announcements {
    /// The kinds chosen, as a set.
    pub open spec fn chosen(&self) -> Set<AnnouncementType> {
        self.notifiable@.to_set()
    }

    pub open spec fn wf(&self) -> bool {
        self.notifiable@.no_duplicates()
    }

    pub fn new() -> (r: Self)
        ensures
            r.wf(),
            r.chosen() == Set::<AnnouncementType>::empty(),
            r.period == DEFAULT_PERIOD,
    {
        let r = Announcements { notifiable: Vec::new(), period: DEFAULT_PERIOD };
        assert(r.chosen() =~= Set::<AnnouncementType>::empty());
        r
    }

    pub fn notifiable(&self) -> (r: &Vec<AnnouncementType>)
        ensures
            r@ == self.notifiable@,
    {
        &self.notifiable
    }

    pub fn period(&self) -> (r: u64)
        ensures
            r == self.period,
    {
        self.period
    }

    /// Whether `t` is among the chosen kinds.
    pub fn contains(&self, t: AnnouncementType) -> (r: bool)
        ensures
            r == self.chosen().contains(t),
    {
        let n = self.notifiable.len();
        let mut i: usize = 0;
        while i < n
            invariant
                n == self.notifiable@.len(),
                i <= n,
                forall|j: int| 0 <= j < i ==> self.notifiable@[j] != t,
            decreases n - i,
        {
            if self.notifiable[i] == t {
                assert(self.notifiable@.contains(t));
                return true;
            }
            i += 1;
        }
        proof {
            if self.notifiable@.to_set().contains(t) {
                let j = choose|j: int| 0 <= j < n && self.notifiable@[j] == t;
            }
        }
        false
    }

    /// Turns notifications of kind `t` off when they are on, and on when off.
    pub fn toggle(&mut self, t: AnnouncementType)
        requires
            old(self).wf(),
        ensures
            final(self).wf(),
            final(self).period == old(self).period,
            old(self).chosen().contains(t) ==> final(self).chosen() == old(self).chosen().remove(t),
            !old(self).chosen().contains(t) ==> final(self).chosen() == old(self).chosen().insert(t),
    {
        let ghost q = self.notifiable@;
        let n = self.notifiable.len();
        let mut i: usize = 0;
        while i < n
            invariant
                q == self.notifiable@,
                q == old(self).notifiable@,
                q.no_duplicates(),
                self.period == old(self).period,
                n == q.len(),
                i <= n,
                forall|j: int| 0 <= j < i ==> q[j] != t,
            decreases n - i,
        {
            if self.notifiable[i] == t {
                self.notifiable.remove(i);
                proof {
                    let r = q.remove(i as int);
                    assert(self.notifiable@ =~= r);
                    assert(r.to_set() =~= q.to_set().remove(t)) by {
                        assert forall|x: AnnouncementType| r.to_set().contains(x) <==> q.to_set().remove(t).contains(x) by {
                            if r.contains(x) {
                                let j = choose|j: int| 0 <= j < r.len() && r[j] == x;
                                if j < i {
                                    assert(q[j] == x);
                                } else {
                                    assert(q[j + 1] == x);
                                }
                            }
                            if q.contains(x) && x != t {
                                let j = choose|j: int| 0 <= j < q.len() && q[j] == x;
                                if j < i {
                                    assert(r[j] == x);
                                } else {
                                    assert(j != i);
                                    assert(r[j - 1] == x);
                                }
                            }
                            if r.contains(t) {
                                let j = choose|j: int| 0 <= j < r.len() && r[j] == t;
                                if j >= i {
                                    assert(q[j + 1] == t);
                                    assert(q[i as int] == t);
                                } else {
                                    assert(q[j] == t);
                                }
                            }
                        }
                    }
                    assert(r.no_duplicates()) by {
                        assert forall|a: int, b: int| 0 <= a < r.len() && 0 <= b < r.len() && a != b implies r[a] != r[b] by {
                            let qa = if a < i { a } else { a + 1 };
                            let qb = if b < i { b } else { b + 1 };
                            assert(r[a] == q[qa] && r[b] == q[qb]);
                        }
                    }
                    assert(q.to_set().contains(t)) by {
                        assert(q[i as int] == t);
                    }
                }
                return;
            }
            i += 1;
        }
        self.notifiable.push(t);
        proof {
            let r = q.push(t);
            assert(self.notifiable@ =~= r);
            assert(!q.contains(t));
            assert(!q.to_set().contains(t));
            assert(r.to_set() =~= q.to_set().insert(t)) by {
                assert forall|x: AnnouncementType| r.to_set().contains(x) <==> q.to_set().insert(t).contains(x) by {
                    if r.contains(x) {
                        let j = choose|j: int| 0 <= j < r.len() && r[j] == x;
                        if j < q.len() {
                            assert(q[j] == x);
                        }
                    }
                    if q.contains(x) {
                        let j = choose|j: int| 0 <= j < q.len() && q[j] == x;
                        assert(r[j] == x);
                    }
                    assert(r[q.len() as int] == t);
                }
            }
            assert(r.no_duplicates()) by {
                assert forall|a: int, b: int| 0 <= a < r.len() && 0 <= b < r.len() && a != b implies r[a] != r[b] by {
                    if a < q.len() && b < q.len() {
                        assert(r[a] == q[a] && r[b] == q[b]);
                    } else if a < q.len() {
                        assert(r[a] == q[a]);
                    } else if b < q.len() {
                        assert(r[b] == q[b]);
                    }
                }
            }
        }
    }

    /// Whether an announcement of the given kinds is one the user wants.
    pub fn is_notifiable(&self, kinds: &Vec<AnnouncementType>) -> (r: bool)
        ensures
            r == exists|j: int| 0 <= j < kinds@.len() && self.chosen().contains(#[trigger] kinds@[j]),
    {
        let n = kinds.len();
        let mut i: usize = 0;
        while i < n
            invariant
                n == kinds@.len(),
                i <= n,
                forall|j: int| 0 <= j < i ==> !self.chosen().contains(#[trigger] kinds@[j]),
            decreases n - i,
        {
            if self.contains(kinds[i]) {
                return true;
            }
            i += 1;
        }
        false
    }

    /// The start of the window a poll at `now_ms` asks about, in
    /// milliseconds since the Unix epoch: one period back.
    pub fn window_start(&self, now_ms: u64) -> (r: u64)
        requires
            self.period as int * 1000 <= now_ms,
        ensures
            r == now_ms - self.period * 1000,
    {
        now_ms - self.period * 1000
    }
}

} // verus!
