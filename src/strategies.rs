//! The rule store and the scheduler that runs rules against the snapshots.
use vstd::prelude::*;
use crate::kucoin::KuCoin;
use crate::request::Payload;
use crate::strategy::{
    action_amount, actions_wf, condition_met, request_for, runnable, Action, Strategy, StrategyView,
};
use crate::text::str_eq;

verus! {

/// The first rule named `name`.
pub open spec fn lookup(q: Seq<StrategyView>, name: Seq<char>) -> Option<StrategyView>
    decreases q.len(),
{
    if q.len() == 0 {
        None
    } else if q[0].0 == name {
        Some(q[0])
    } else {
        lookup(q.skip(1), name)
    }
}

/// The rules after storing `s`: it replaces the first rule of its name, or
/// comes last when there is none.
pub open spec fn upserted(q: Seq<StrategyView>, s: StrategyView) -> Seq<StrategyView>
    decreases q.len(),
{
    if q.len() == 0 {
        seq![s]
    } else if q[0].0 == s.0 {
        seq![s] + q.skip(1)
    } else {
        seq![q[0]] + upserted(q.skip(1), s)
    }
}

/// The rules after removing the first one named `name`.
pub open spec fn removed(q: Seq<StrategyView>, name: Seq<char>) -> Seq<StrategyView>
    decreases q.len(),
{
    if q.len() == 0 {
        q
    } else if q[0].0 == name {
        q.skip(1)
    } else {
        seq![q[0]] + removed(q.skip(1), name)
    }
}

/// A rule can be picked when it has actions and its condition is met.
pub open spec fn selectable(v: StrategyView, k: KuCoin) -> bool {
    v.3.len() > 0 && condition_met(v.1, v.2, k)
}

/// The first rule that can be picked.
pub open spec fn first_selectable(q: Seq<StrategyView>, k: KuCoin) -> Option<StrategyView>
    decreases q.len(),
{
    if q.len() == 0 {
        None
    } else if selectable(q[0], k) {
        Some(q[0])
    } else {
        first_selectable(q.skip(1), k)
    }
}

proof fn lemma_upserted_at(q: Seq<StrategyView>, s: StrategyView, i: int)
    requires
        0 <= i < q.len(),
        q[i].0 == s.0,
        forall|j: int| 0 <= j < i ==> (#[trigger] q[j]).0 != s.0,
    ensures
        upserted(q, s) == q.update(i, s),
    decreases i,
{
    if i == 0 {
        assert(seq![s] + q.skip(1) =~= q.update(0, s));
    } else {
        let t = q.skip(1);
        assert(q[0].0 != s.0);
        assert forall|j: int| 0 <= j < i - 1 implies (#[trigger] t[j]).0 != s.0 by {
            assert(t[j] == q[j + 1]);
        }
        lemma_upserted_at(t, s, i - 1);
        assert(seq![q[0]] + t.update(i - 1, s) =~= q.update(i, s));
    }
}

proof fn lemma_upserted_none(q: Seq<StrategyView>, s: StrategyView)
    requires
        forall|j: int| 0 <= j < q.len() ==> (#[trigger] q[j]).0 != s.0,
    ensures
        upserted(q, s) == q.push(s),
    decreases q.len(),
{
    if q.len() > 0 {
        let t = q.skip(1);
        assert(q[0].0 != s.0);
        assert forall|j: int| 0 <= j < t.len() implies (#[trigger] t[j]).0 != s.0 by {
            assert(t[j] == q[j + 1]);
        }
        lemma_upserted_none(t, s);
        assert(seq![q[0]] + t.push(s) =~= q.push(s));
    } else {
        assert(seq![s] =~= q.push(s));
    }
}

proof fn lemma_removed_at(q: Seq<StrategyView>, name: Seq<char>, i: int)
    requires
        0 <= i < q.len(),
        q[i].0 == name,
        forall|j: int| 0 <= j < i ==> (#[trigger] q[j]).0 != name,
    ensures
        removed(q, name) == q.remove(i),
        lookup(q, name) == Some(q[i]),
    decreases i,
{
    if i == 0 {
        assert(q.skip(1) =~= q.remove(0));
    } else {
        let t = q.skip(1);
        assert(q[0].0 != name);
        assert forall|j: int| 0 <= j < i - 1 implies (#[trigger] t[j]).0 != name by {
            assert(t[j] == q[j + 1]);
        }
        lemma_removed_at(t, name, i - 1);
        assert(seq![q[0]] + t.remove(i - 1) =~= q.remove(i));
    }
}

proof fn lemma_removed_none(q: Seq<StrategyView>, name: Seq<char>)
    requires
        forall|j: int| 0 <= j < q.len() ==> (#[trigger] q[j]).0 != name,
    ensures
        removed(q, name) == q,
        lookup(q, name) is None,
    decreases q.len(),
{
    if q.len() > 0 {
        let t = q.skip(1);
        assert(q[0].0 != name);
        assert forall|j: int| 0 <= j < t.len() implies (#[trigger] t[j]).0 != name by {
            assert(t[j] == q[j + 1]);
        }
        lemma_removed_none(t, name);
        assert(seq![q[0]] + t =~= q);
    }
}

/// A rule stored and then looked up by its name comes back as it was stored:
/// same name, product, condition and actions, skip flags included.
pub proof fn lemma_round_trip(q: Seq<StrategyView>, s: StrategyView)
    ensures
        lookup(upserted(q, s), s.0) == Some(s),
    decreases q.len(),
{
    if q.len() > 0 && q[0].0 != s.0 {
        lemma_round_trip(q.skip(1), s);
        let u = seq![q[0]] + upserted(q.skip(1), s);
        assert(u.skip(1) =~= upserted(q.skip(1), s));
    } else if q.len() > 0 {
        assert((seq![s] + q.skip(1))[0] == s);
    } else {
        assert(seq![s][0] == s);
    }
}

/// Storing a rule leaves every rule of another name where it was.
pub proof fn lemma_upsert_keeps_others(q: Seq<StrategyView>, s: StrategyView, name: Seq<char>)
    requires
        name != s.0,
    ensures
        lookup(upserted(q, s), name) == lookup(q, name),
    decreases q.len(),
{
    let u = upserted(q, s);
    if q.len() > 0 {
        if q[0].0 == s.0 {
            assert(u.skip(1) =~= q.skip(1));
            assert(u[0] == s);
            assert(lookup(u, name) == lookup(u.skip(1), name));
        } else {
            lemma_upsert_keeps_others(q.skip(1), s, name);
            assert(u.skip(1) =~= upserted(q.skip(1), s));
            assert(u[0] == q[0]);
        }
    } else {
        assert(u.skip(1) =~= Seq::<StrategyView>::empty());
        assert(u[0] == s);
        assert(lookup(u, name) == lookup(u.skip(1), name));
        assert(lookup(u.skip(1), name) is None);
    }
}

/// No two rules share a name.
pub open spec fn names_unique(q: Seq<StrategyView>) -> bool {
    forall|i: int, j: int|
        0 <= i < q.len() && 0 <= j < q.len() && i != j ==> (#[trigger] q[i]).0 != (#[trigger] q[j]).0
}

/// Removing the rule of one name leaves every rule of another name where it was.
pub proof fn lemma_remove_keeps_others(q: Seq<StrategyView>, name: Seq<char>, other: Seq<char>)
    requires
        name != other,
    ensures
        lookup(removed(q, name), other) == lookup(q, other),
    decreases q.len(),
{
    if q.len() > 0 && q[0].0 != name {
        lemma_remove_keeps_others(q.skip(1), name, other);
        let u = seq![q[0]] + removed(q.skip(1), name);
        assert(u.skip(1) =~= removed(q.skip(1), name));
        assert(u[0] == q[0]);
    }
}

/// A stored rule comes back whole by its name even when a rule of another
/// name was removed in between.
pub proof fn lemma_round_trip_across_removal(q: Seq<StrategyView>, s: StrategyView, other: Seq<char>)
    requires
        other != s.0,
    ensures
        lookup(removed(upserted(q, s), other), s.0) == Some(s),
{
    lemma_round_trip(q, s);
    lemma_remove_keeps_others(upserted(q, s), other, s.0);
}

/// When names are unique, no rule of a name is left after removing it.
pub proof fn lemma_removed_gone(q: Seq<StrategyView>, name: Seq<char>)
    requires
        names_unique(q),
    ensures
        lookup(removed(q, name), name) is None,
    decreases q.len(),
{
    if q.len() > 0 {
        let t = q.skip(1);
        assert(names_unique(t)) by {
            assert forall|i: int, j: int|
                0 <= i < t.len() && 0 <= j < t.len() && i != j implies (#[trigger] t[i]).0 != (#[trigger] t[j]).0 by {
                assert(t[i] == q[i + 1] && t[j] == q[j + 1]);
            }
        }
        if q[0].0 == name {
            assert forall|j: int| 0 <= j < t.len() implies (#[trigger] t[j]).0 != name by {
                assert(t[j] == q[j + 1]);
            }
            lemma_removed_none(t, name);
        } else {
            lemma_removed_gone(t, name);
            let u = seq![q[0]] + removed(t, name);
            assert(u.skip(1) =~= removed(t, name));
            assert(u[0] == q[0]);
        }
    }
}

/// The rules, filed by name.
#[derive(Debug)]
pub struct Strategies {
    pub items: Vec<Strategy>,
}

impl View for Strategies {
    type V = Seq<StrategyView>;

    open spec fn view(&self) -> Seq<StrategyView> {
        self.items@.map_values(|s: Strategy| s@)
    }
}

impl Strategies {
    /// Every stored action is well formed and no two rules share a name.
    pub open spec fn wf(&self) -> bool {
        &&& forall|i: int| 0 <= i < self.items@.len() ==> (#[trigger] self.items@[i]).wf()
        &&& names_unique(self@)
    }

    pub fn new() -> (r: Self)
        ensures
            r@ == Seq::<StrategyView>::empty(),
            r.wf(),
    {
        let r = Strategies { items: Vec::new() };
        assert(r@ =~= Seq::<StrategyView>::empty());
        r
    }

    /// Position of the first rule named `name`.
    fn position(&self, name: &str) -> (r: Option<usize>)
        ensures
            match r {
                Some(i) => {
                    &&& i < self@.len()
                    &&& self@[i as int].0 == name@
                    &&& forall|j: int| 0 <= j < i ==> (#[trigger] self@[j]).0 != name@
                },
                None => forall|j: int| 0 <= j < self@.len() ==> (#[trigger] self@[j]).0 != name@,
            },
    {
        let n = self.items.len();
        let mut i: usize = 0;
        while i < n
            invariant
                n == self@.len(),
                i <= n,
                forall|j: int| 0 <= j < i ==> (#[trigger] self@[j]).0 != name@,
            decreases n - i,
        {
            if str_eq(self.items[i].name(), name) {
                return Some(i);
            }
            i += 1;
        }
        None
    }

    /// A copy of the rule named `name`.
    pub fn get(&self, name: &str) -> (r: Option<Strategy>)
        ensures
            match r {
                Some(s) => lookup(self@, name@) == Some(s@) && (self.wf() ==> s.wf()),
                None => lookup(self@, name@) is None,
            },
    {
        match self.position(name) {
            Some(i) => {
                proof {
                    lemma_removed_at(self@, name@, i as int);
                }
                let s = self.items[i].clone();
                assert(self.wf() ==> self.items@[i as int].wf());
                assert(s.actions@ == self.items@[i as int].actions@);
                Some(s)
            },
            None => {
                proof {
                    lemma_removed_none(self@, name@);
                }
                None
            },
        }
    }

    /// The names of all rules, in store order.
    pub fn names(&self) -> (r: Vec<String>)
        ensures
            r@.map_values(|s: String| s@) == self@.map_values(|v: StrategyView| v.0),
    {
        let mut r: Vec<String> = Vec::new();
        let n = self.items.len();
        let mut i: usize = 0;
        while i < n
            invariant
                n == self@.len(),
                i <= n,
                r@.map_values(|s: String| s@) == self@.map_values(|v: StrategyView| v.0).take(i as int),
            decreases n - i,
        {
            let ghost before = r@.map_values(|s: String| s@);
            r.push(self.items[i].name.clone());
            assert(r@.map_values(|s: String| s@) =~= before.push(self@[i as int].0));
            assert(self@.map_values(|v: StrategyView| v.0).take(i + 1) =~= self@.map_values(
                |v: StrategyView| v.0,
            ).take(i as int).push(self@[i as int].0));
            i += 1;
        }
        assert(self@.map_values(|v: StrategyView| v.0).take(n as int) =~= self@.map_values(
            |v: StrategyView| v.0,
        ));
        r
    }

    /// Stores `strategy` under its name, replacing a rule of that name.
    pub fn add(&mut self, strategy: Strategy)
        requires
            old(self).wf(),
            strategy.wf(),
        ensures
            final(self)@ == upserted(old(self)@, strategy@),
            final(self).wf(),
    {
        let ghost q = self@;
        let ghost v = strategy@;
        match self.position(strategy.name()) {
            Some(i) => {
                proof {
                    lemma_upserted_at(q, v, i as int);
                }
                self.items.remove(i);
                self.items.insert(i, strategy);
                let ghost u = q.update(i as int, v);
                assert(self@ =~= u);
                assert forall|a: int, b: int|
                    0 <= a < u.len() && 0 <= b < u.len() && a != b implies (#[trigger] u[a]).0 != (#[trigger] u[b]).0 by {
                    assert(q[a].0 != q[b].0);
                }
            },
            None => {
                proof {
                    lemma_upserted_none(q, v);
                }
                self.items.push(strategy);
                let ghost u = q.push(v);
                assert(self@ =~= u);
                assert forall|a: int, b: int|
                    0 <= a < u.len() && 0 <= b < u.len() && a != b implies (#[trigger] u[a]).0 != (#[trigger] u[b]).0 by {
                    if a < q.len() && b < q.len() {
                        assert(q[a].0 != q[b].0);
                    } else if a < q.len() {
                        assert(u[a] == q[a]);
                    } else {
                        assert(u[b] == q[b]);
                    }
                }
            },
        }
        assert forall|j: int| 0 <= j < self.items@.len() implies (#[trigger] self.items@[j]).wf() by {}
    }

    /// Takes out the rule named `name`, if there is one.
    pub fn remove(&mut self, name: &str) -> (r: Option<Strategy>)
        requires
            old(self).wf(),
        ensures
            final(self)@ == removed(old(self)@, name@),
            final(self).wf(),
            lookup(final(self)@, name@) is None,
            match r {
                Some(s) => lookup(old(self)@, name@) == Some(s@),
                None => lookup(old(self)@, name@) is None,
            },
    {
        let ghost q = self@;
        match self.position(name) {
            Some(i) => {
                proof {
                    lemma_removed_at(q, name@, i as int);
                }
                let s = self.items.remove(i);
                let ghost u = q.remove(i as int);
                assert(self@ =~= u);
                proof {
                    lemma_removed_gone(q, name@);
                }
                assert forall|a: int, b: int|
                    0 <= a < u.len() && 0 <= b < u.len() && a != b implies (#[trigger] u[a]).0 != (#[trigger] u[b]).0 by {
                    let qa = if a < i { a } else { a + 1 };
                    let qb = if b < i { b } else { b + 1 };
                    assert(u[a] == q[qa] && u[b] == q[qb]);
                }
                assert forall|j: int| 0 <= j < self.items@.len() implies (#[trigger] self.items@[j]).wf() by {
                    if j < i {
                        assert(self.items@[j] == old(self).items@[j]);
                    } else {
                        assert(self.items@[j] == old(self).items@[j + 1]);
                    }
                }
                Some(s)
            },
            None => {
                proof {
                    lemma_removed_none(q, name@);
                }
                None
            },
        }
    }

    /// A copy of the first rule that has actions and whose condition is met.
    fn executable(&self, kucoin: &KuCoin) -> (r: Option<Strategy>)
        requires
            self.wf(),
        ensures
            match r {
                Some(s) => first_selectable(self@, *kucoin) == Some(s@) && s.wf(),
                None => first_selectable(self@, *kucoin) is None,
            },
    {
        let n = self.items.len();
        let mut i: usize = 0;
        let ghost q = self@;
        assert(q.skip(0) =~= q);
        while i < n
            invariant
                q == self@,
                n == q.len(),
                i <= n,
                self.wf(),
                first_selectable(q, *kucoin) == first_selectable(q.skip(i as int), *kucoin),
            decreases n - i,
        {
            proof {
                assert(q.skip(i as int)[0] == q[i as int]);
                assert(q.skip(i as int).skip(1) =~= q.skip(i + 1));
            }
            let s = &self.items[i];
            if !s.actions.is_empty() && s.can_execute(kucoin) {
                let c = s.clone();
                assert(self.items@[i as int].wf());
                assert(c.actions@ == self.items@[i as int].actions@);
                return Some(c);
            }
            i += 1;
        }
        None
    }

    /// Number of rules.
    pub fn len(&self) -> (r: usize)
        ensures
            r == self@.len(),
    {
        self.items.len()
    }
}

/// One run of the scheduler: a working copy of the picked rule and how many
/// more actions this run may still process.
pub struct Tick {
    pub strategy: Strategy,
    pub remaining: usize,
}

impl Tick {
    pub open spec fn wf(&self) -> bool {
        self.strategy.wf() && self.remaining >= 1
    }

    /// Starts a run: picks the first rule that has actions and whose
    /// condition is met. The run may process as many actions as the rule has
    /// now.
    pub fn start(strategies: &Strategies, kucoin: &KuCoin) -> (r: Option<Tick>)
        requires
            strategies.wf(),
        ensures
            match r {
                Some(t) => {
                    &&& first_selectable(strategies@, *kucoin) == Some(t.strategy@)
                    &&& t.remaining == t.strategy.actions@.len()
                    &&& t.wf()
                },
                None => first_selectable(strategies@, *kucoin) is None,
            },
    {
        match strategies.executable(kucoin) {
            Some(strategy) => {
                proof {
                    lemma_first_selectable_has_actions(strategies@, *kucoin);
                }
                let remaining = strategy.actions.len();
                Some(Tick { strategy, remaining })
            },
            None => None,
        }
    }

    /// The next action of the run: the first one that can run now, with the
    /// request it sends.
    pub fn next(&self, kucoin: &KuCoin) -> (r: Option<(usize, Payload)>)
        requires
            self.wf(),
        ensures
            match r {
                Some((i, p)) => {
                    let q = self.strategy.actions@;
                    &&& i < q.len()
                    &&& runnable(q[i as int], *kucoin)
                    &&& forall|j: int| 0 <= j < i ==> !runnable(#[trigger] q[j], *kucoin)
                    &&& request_for(p, q[i as int], *kucoin, action_amount(q[i as int], *kucoin)->0)
                },
                None => forall|j: int|
                    0 <= j < self.strategy.actions@.len() ==> !runnable(
                        #[trigger] self.strategy.actions@[j],
                        *kucoin,
                    ),
            },
    {
        self.strategy.actions.executable(kucoin)
    }

    /// Records the outcome of sending the request of action `index`. After a
    /// successful send an action below 100 percent is switched off and the
    /// rule is stored back; a 100 percent action stays on. Returns whether the
    /// run may go on.
    pub fn record(&mut self, strategies: &mut Strategies, index: usize, sent: bool) -> (r: bool)
        requires
            old(self).wf(),
            old(strategies).wf(),
            index < old(self).strategy.actions@.len(),
        ensures
            ({
                let a = old(self).strategy.actions@[index as int];
                if sent && a.percentage != 100 {
                    &&& final(self).strategy@ == (
                        old(self).strategy.name@,
                        old(self).strategy.product,
                        old(self).strategy.condition,
                        old(self).strategy.actions@.update(index as int, Action { skip: true, ..a }),
                    )
                    &&& final(strategies)@ == upserted(old(strategies)@, final(self).strategy@)
                } else {
                    &&& final(self).strategy@ == old(self).strategy@
                    &&& final(strategies)@ == old(strategies)@
                }
            }),
            final(strategies).wf(),
            final(self).strategy.wf(),
            r == (old(self).remaining > 1),
            r ==> final(self).remaining == old(self).remaining - 1 && final(self).wf(),
    {
        if sent && self.strategy.actions.0[index].percentage != 100 {
            let ghost q = self.strategy.actions@;
            let mut a = self.strategy.actions.0.remove(index);
            a.skip = true;
            self.strategy.actions.0.insert(index, a);
            assert(self.strategy.actions@ =~= q.update(index as int, a));
            assert(actions_wf(self.strategy.actions@)) by {
                assert forall|j: int| 0 <= j < self.strategy.actions@.len() implies (
                #[trigger] self.strategy.actions@[j]).wf() by {
                    assert(q[j].wf());
                }
            }
            strategies.add(self.strategy.clone());
        }
        if self.remaining == 1 {
            false
        } else {
            self.remaining = self.remaining - 1;
            true
        }
    }
}

proof fn lemma_first_selectable_has_actions(q: Seq<StrategyView>, k: KuCoin)
    ensures
        first_selectable(q, k) matches Some(v) ==> v.3.len() > 0,
    decreases q.len(),
{
    if q.len() > 0 && !selectable(q[0], k) {
        lemma_first_selectable_has_actions(q.skip(1), k);
    }
}

} // verus!
