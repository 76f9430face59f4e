//! The scheduler of a batch: a fixed number of workers take the rules from a
//! shared queue, one at a time each, and hand back one outcome per rule.
//!
//! The queue holds the rules `0 .. total` in order. A worker slot is either
//! idle or holds the one rule its worker is working on, so at most as many
//! rules are in progress as there are workers. Outcomes are kept in the
//! order in which they came back.
use vstd::prelude::*;
use crate::task::Outcome;

verus! {

/// The state of a batch, as the contracts speak of it.
pub struct DispatchView {
    /// How many rules the batch holds.
    pub total: nat,
    /// The rules `0 .. next` have been handed to a worker.
    pub next: nat,
    /// For each worker, the rule it is working on, if any.
    pub slots: Seq<Option<usize>>,
    /// Each rule that came back, with its outcome, in the order of completion.
    pub report: Seq<(usize, Outcome)>,
}

impl DispatchView {
    /// Rule `i` has an outcome in the report.
    pub open spec fn is_reported(self, i: int) -> bool {
        exists|j: int| 0 <= j < self.report.len() && #[trigger] self.report[j].0 == i
    }

    /// Some worker is working on rule `i`.
    pub open spec fn is_assigned(self, i: int) -> bool {
        exists|w: int| 0 <= w < self.slots.len() && #[trigger] self.slots[w] == Some(i as usize)
    }

    /// Every worker is idle.
    pub open spec fn all_idle(self) -> bool {
        forall|w: int| 0 <= w < self.slots.len() ==> #[trigger] self.slots[w] is None
    }

    /// Every rule has been handed out and has come back.
    pub open spec fn is_finished(self) -> bool {
        self.next == self.total && self.all_idle()
    }

    /// The indices of the report, in order.
    pub open spec fn reported_items(self) -> Seq<int> {
        self.report.map_values(|e: (usize, Outcome)| e.0 as int)
    }

    pub open spec fn wf(self) -> bool {
        &&& self.slots.len() >= 1
        &&& self.next <= self.total
        &&& forall|j: int| 0 <= j < self.report.len() ==> #[trigger] self.report[j].0 < self.next
        &&& forall|j: int, k: int|
            0 <= j < k < self.report.len() ==> #[trigger] self.report[j].0
                != #[trigger] self.report[k].0
        &&& forall|w: int|
            0 <= w < self.slots.len() && #[trigger] self.slots[w] is Some ==> {
                &&& self.slots[w]->Some_0 < self.next
                &&& !self.is_reported(self.slots[w]->Some_0 as int)
            }
        &&& forall|v: int, w: int|
            0 <= v < w < self.slots.len() && #[trigger] self.slots[v] is Some
                && #[trigger] self.slots[w] is Some ==> self.slots[v] != self.slots[w]
        &&& forall|i: int|
            0 <= i < self.next ==> #[trigger] self.is_reported(i) || self.is_assigned(i)
    }
}

/// A batch of rules being worked on by a fixed number of workers.
pub struct Dispatcher {
    total: usize,
    next: usize,
    slots: Vec<Option<usize>>,
    report: Vec<(usize, Outcome)>,
}

impl View for Dispatcher {
    type V = DispatchView;

    closed spec fn view(&self) -> DispatchView {
        DispatchView {
            total: self.total as nat,
            next: self.next as nat,
            slots: self.slots@,
            report: self.report@,
        }
    }
}

impl Dispatcher {
    /// A batch of `total` rules for `workers` workers, all of them idle.
    pub fn new(total: usize, workers: usize) -> (d: Dispatcher)
        requires
            workers >= 1,
        ensures
            d@.wf(),
            d@.total == total,
            d@.next == 0,
            d@.slots.len() == workers,
            d@.all_idle(),
            d@.report.len() == 0,
    {
        let mut slots: Vec<Option<usize>> = Vec::new();
        let mut w: usize = 0;
        while w < workers
            invariant
                w <= workers,
                slots@.len() == w,
                forall|v: int| 0 <= v < w ==> #[trigger] slots@[v] is None,
            decreases workers - w,
        {
            slots.push(None);
            w = w + 1;
        }
        Dispatcher { total, next: 0, slots, report: Vec::new() }
    }

    /// The number of workers.
    pub fn workers(&self) -> (r: usize)
        ensures
            r == self@.slots.len(),
    {
        self.slots.len()
    }

    /// The number of rules in the batch.
    pub fn total(&self) -> (r: usize)
        ensures
            r == self@.total,
    {
        self.total
    }

    /// The rule that worker `w` is working on, if any.
    pub fn current(&self, w: usize) -> (r: Option<usize>)
        requires
            w < self@.slots.len(),
        ensures
            r == self@.slots[w as int],
    {
        self.slots[w]
    }

    /// The outcomes received so far, in the order in which they came back.
    pub fn report(&self) -> (r: &Vec<(usize, Outcome)>)
        ensures
            r@ == self@.report,
    {
        &self.report
    }

    /// Hands the next queued rule, if any is left, to the idle worker `w`.
    pub fn take(&mut self, w: usize) -> (r: Option<usize>)
        requires
            old(self)@.wf(),
            w < old(self)@.slots.len(),
            old(self)@.slots[w as int] is None,
        ensures
            final(self)@.wf(),
            final(self)@.total == old(self)@.total,
            final(self)@.report == old(self)@.report,
            old(self)@.next < old(self)@.total ==> {
                &&& r == Some(old(self)@.next as usize)
                &&& final(self)@.next == old(self)@.next + 1
                &&& final(self)@.slots == old(self)@.slots.update(w as int, r)
            },
            old(self)@.next == old(self)@.total ==> r is None && final(self)@ == old(self)@,
    {
        if self.next == self.total {
            return None;
        }
        let item = self.next;
        let ghost prev = self@;
        self.slots.set(w, Some(item));
        self.next = self.next + 1;
        proof {
            let cur = self@;
            assert(cur.report == prev.report);
            if cur.is_reported(item as int) {
                let j = choose|j: int| 0 <= j < cur.report.len() && #[trigger] cur.report[j].0 == item;
                assert(prev.report[j].0 < prev.next);
            }
            assert forall|v: int|
                0 <= v < cur.slots.len() && #[trigger] cur.slots[v] is Some implies {
                &&& cur.slots[v]->Some_0 < cur.next
                &&& !cur.is_reported(cur.slots[v]->Some_0 as int)
            } by {
                if v != w {
                    assert(prev.slots[v] is Some);
                    assert(prev.slots[v] == cur.slots[v]);
                }
            };
            assert forall|u: int, v: int|
                0 <= u < v < cur.slots.len() && #[trigger] cur.slots[u] is Some
                    && #[trigger] cur.slots[v] is Some implies cur.slots[u] != cur.slots[v] by {
                if u == w {
                    assert(prev.slots[v] is Some);
                } else if v == w {
                    assert(prev.slots[u] is Some);
                } else {
                    assert(prev.slots[u] is Some && prev.slots[v] is Some);
                }
            };
            assert forall|i: int| 0 <= i < cur.next implies #[trigger] cur.is_reported(i)
                || cur.is_assigned(i) by {
                if i == item {
                    assert(cur.slots[w as int] == Some(i as usize));
                } else if prev.is_reported(i) {
                    let j = choose|j: int| 0 <= j < prev.report.len() && #[trigger] prev.report[j].0 == i;
                    assert(cur.report[j].0 == i);
                } else {
                    let v = choose|v: int| 0 <= v < prev.slots.len() && #[trigger] prev.slots[v] == Some(i as usize);
                    assert(v != w);
                    assert(cur.slots[v] == Some(i as usize));
                }
            };
        }
        Some(item)
    }

    /// Records the outcome of the rule that worker `w` was working on; the
    /// worker is idle afterwards.
    pub fn record(&mut self, w: usize, outcome: Outcome)
        requires
            old(self)@.wf(),
            w < old(self)@.slots.len(),
            old(self)@.slots[w as int] is Some,
        ensures
            final(self)@.wf(),
            final(self)@.total == old(self)@.total,
            final(self)@.next == old(self)@.next,
            final(self)@.slots == old(self)@.slots.update(w as int, None),
            final(self)@.report == old(self)@.report.push(
                (old(self)@.slots[w as int]->Some_0, outcome),
            ),
    {
        let ghost prev = self@;
        let item = match self.slots[w] {
            Some(i) => i,
            None => 0,
        };
        self.report.push((item, outcome));
        self.slots.set(w, None);
        proof {
            let cur = self@;
            let n = prev.report.len() as int;
            assert(cur.report[n].0 == item);
            assert forall|v: int|
                0 <= v < cur.slots.len() && #[trigger] cur.slots[v] is Some implies {
                &&& cur.slots[v]->Some_0 < cur.next
                &&& !cur.is_reported(cur.slots[v]->Some_0 as int)
            } by {
                assert(v != w);
                assert(prev.slots[v] is Some);
                let x = cur.slots[v]->Some_0 as int;
                assert(!prev.is_reported(x));
                if v < w {
                    assert(prev.slots[v] != prev.slots[w as int]);
                } else {
                    assert(prev.slots[w as int] != prev.slots[v]);
                }
                if cur.is_reported(x) {
                    let j = choose|j: int| 0 <= j < cur.report.len() && #[trigger] cur.report[j].0 == x;
                    if j < n {
                        assert(prev.report[j].0 == x);
                    }
                }
            };
            assert forall|j: int, k: int|
                0 <= j < k < cur.report.len() implies #[trigger] cur.report[j].0
                != #[trigger] cur.report[k].0 by {
                if k == n {
                    assert(prev.report[j].0 == cur.report[j].0);
                    assert(!prev.is_reported(item as int));
                }
            };
            assert forall|i: int| 0 <= i < cur.next implies #[trigger] cur.is_reported(i)
                || cur.is_assigned(i) by {
                if prev.is_reported(i) {
                    let j = choose|j: int| 0 <= j < prev.report.len() && #[trigger] prev.report[j].0 == i;
                    assert(cur.report[j].0 == i);
                } else {
                    let v = choose|v: int| 0 <= v < prev.slots.len() && #[trigger] prev.slots[v] == Some(i as usize);
                    if v == w {
                        assert(cur.report[n].0 == i);
                    } else {
                        assert(cur.slots[v] == Some(i as usize));
                    }
                }
            };
        }
    }

    /// Tells whether every rule has been handed out and has come back.
    pub fn is_finished(&self) -> (r: bool)
        ensures
            r == self@.is_finished(),
    {
        if self.next != self.total {
            return false;
        }
        let mut w: usize = 0;
        while w < self.slots.len()
            invariant
                w <= self.slots.len(),
                forall|v: int| 0 <= v < w ==> #[trigger] self@.slots[v] is None,
            decreases self.slots.len() - w,
        {
            if self.slots[w].is_some() {
                assert(self@.slots[w as int] is Some);
                return false;
            }
            w = w + 1;
        }
        true
    }
}

/// When a batch is finished, its report holds exactly one outcome for each of
/// its rules, whatever the number of workers: as many outcomes as rules, every
/// rule among them, and no rule twice.
pub proof fn lemma_one_outcome_per_rule(d: DispatchView)
    requires
        d.wf(),
        d.is_finished(),
    ensures
        d.report.len() == d.total,
        forall|i: int| 0 <= i < d.total ==> d.is_reported(i),
        forall|j: int, k: int|
            0 <= j < k < d.report.len() ==> d.report[j].0 != d.report[k].0,
{
    assert forall|i: int| 0 <= i < d.total implies d.is_reported(i) by {
        if !d.is_reported(i) {
            assert(d.is_assigned(i));
            let w = choose|w: int| 0 <= w < d.slots.len() && #[trigger] d.slots[w] == Some(i as usize);
            assert(d.slots[w] is None);
        }
    };
    let idx = d.reported_items();
    assert forall|j: int, k: int| 0 <= j < idx.len() && 0 <= k < idx.len() && j != k implies idx[j]
        != idx[k] by {
        if j < k {
            assert(d.report[j].0 != d.report[k].0);
        } else {
            assert(d.report[k].0 != d.report[j].0);
        }
    };
    assert(idx.no_duplicates());
    idx.unique_seq_to_set();
    assert forall|x: int| idx.to_set().contains(x) <==> vstd::set_lib::set_int_range(
        0,
        d.total as int,
    ).contains(x) by {
        if idx.to_set().contains(x) {
            let j = choose|j: int| 0 <= j < idx.len() && idx[j] == x;
            assert(d.report[j].0 < d.next);
        }
        if 0 <= x < d.total {
            assert(d.is_reported(x));
            let j = choose|j: int| 0 <= j < d.report.len() && #[trigger] d.report[j].0 == x;
            assert(idx[j] == x);
        }
    };
    assert(idx.to_set() =~= vstd::set_lib::set_int_range(0, d.total as int));
    vstd::set_lib::lemma_int_range(0, d.total as int);
}

/// The (rule, outcome) pairs of a finished batch, where the outcome of each
/// rule `i` is `outcome_of[i]`.
pub open spec fn expected_report(total: nat, outcome_of: Seq<Outcome>) -> Set<(usize, Outcome)> {
    Set::new(|e: (usize, Outcome)| e.0 < total && e.1 == outcome_of[e.0 as int])
}

proof fn lemma_report_set(d: DispatchView, outcome_of: Seq<Outcome>)
    requires
        d.wf(),
        d.is_finished(),
        outcome_of.len() == d.total,
        forall|j: int|
            0 <= j < d.report.len() ==> #[trigger] d.report[j].1 == outcome_of[d.report[j].0 as int],
    ensures
        d.report.to_set() == expected_report(d.total, outcome_of),
{
    lemma_one_outcome_per_rule(d);
    assert forall|e: (usize, Outcome)| d.report.to_set().contains(e) <==> expected_report(
        d.total,
        outcome_of,
    ).contains(e) by {
        if d.report.to_set().contains(e) {
            let j = choose|j: int| 0 <= j < d.report.len() && d.report[j] == e;
            assert(d.report[j].1 == outcome_of[d.report[j].0 as int]);
            assert(d.report[j].0 < d.next);
        }
        if expected_report(d.total, outcome_of).contains(e) {
            assert(d.is_reported(e.0 as int));
            let j = choose|j: int| 0 <= j < d.report.len() && #[trigger] d.report[j].0 == e.0 as int;
            assert(d.report[j].1 == outcome_of[d.report[j].0 as int]);
            assert(d.report[j] == e);
        }
    };
    assert(d.report.to_set() =~= expected_report(d.total, outcome_of));
}

/// A batch that is not finished can always go on: some worker is working on a
/// rule and can record it, or a rule is still queued and some worker is idle to
/// take it. Each `take` that hands out a rule raises `next`, each `record`
/// lengthens the report, and neither passes `total`, so a caller that keeps
/// doing either reaches a finished batch.
pub proof fn lemma_unfinished_batch_can_progress(d: DispatchView)
    requires
        d.wf(),
        !d.is_finished(),
    ensures
        (exists|w: int| 0 <= w < d.slots.len() && #[trigger] d.slots[w] is Some) || (d.next
            < d.total && exists|w: int| 0 <= w < d.slots.len() && #[trigger] d.slots[w] is None),
        d.report.len() <= d.total,
{
    if d.next == d.total {
        assert(!d.all_idle());
    } else if !(exists|w: int| 0 <= w < d.slots.len() && #[trigger] d.slots[w] is Some) {
        assert(d.slots[0] is None);
    }
    lemma_report_within_total(d);
}

proof fn lemma_report_within_total(d: DispatchView)
    requires
        d.wf(),
    ensures
        d.report.len() <= d.total,
{
    let idx = d.reported_items();
    assert forall|j: int, k: int| 0 <= j < idx.len() && 0 <= k < idx.len() && j != k implies idx[j]
        != idx[k] by {
        if j < k {
            assert(d.report[j].0 != d.report[k].0);
        } else {
            assert(d.report[k].0 != d.report[j].0);
        }
    };
    idx.unique_seq_to_set();
    assert forall|x: int| idx.to_set().contains(x) implies vstd::set_lib::set_int_range(
        0,
        d.total as int,
    ).contains(x) by {
        let j = choose|j: int| 0 <= j < idx.len() && idx[j] == x;
        assert(d.report[j].0 < d.next);
    };
    vstd::set_lib::lemma_int_range(0, d.total as int);
    vstd::set_lib::lemma_len_subset(idx.to_set(), vstd::set_lib::set_int_range(0, d.total as int));
}

proof fn lemma_no_dup_count<A>(s: Seq<A>, x: A)
    requires
        s.no_duplicates(),
    ensures
        s.to_multiset().count(x) == (if s.contains(x) {
            1nat
        } else {
            0nat
        }),
    decreases s.len(),
{
    broadcast use vstd::seq_lib::group_to_multiset_ensures;
    broadcast use vstd::multiset::group_multiset_axioms;

    if s.len() == 0 {
        assert(s.to_multiset() =~= vstd::multiset::Multiset::empty());
    } else {
        let t = s.drop_last();
        lemma_no_dup_count(t, x);
        assert(s =~= t.push(s.last()));
        if s.last() == x {
            if t.contains(x) {
                let j = choose|j: int| 0 <= j < t.len() && t[j] == x;
                assert(s[j] == s[s.len() - 1]);
            }
            assert(s.contains(x));
        } else {
            if t.contains(x) {
                let j = choose|j: int| 0 <= j < t.len() && t[j] == x;
                assert(s[j] == x);
            }
            if s.contains(x) {
                let j = choose|j: int| 0 <= j < s.len() && s[j] == x;
                assert(t[j] == x);
            }
        }
    }
}

/// The number of workers does not change what a batch reports: where the
/// outcome of each rule is fixed by the rule, two finished batches over the
/// same rules, run with any two numbers of workers, report the same
/// (rule, outcome) pairs, each once; only their order may differ.
pub proof fn lemma_same_outcomes_for_any_workers(
    a: DispatchView,
    b: DispatchView,
    outcome_of: Seq<Outcome>,
)
    requires
        a.wf(),
        b.wf(),
        a.is_finished(),
        b.is_finished(),
        a.total == b.total,
        outcome_of.len() == a.total,
        forall|j: int|
            0 <= j < a.report.len() ==> #[trigger] a.report[j].1 == outcome_of[a.report[j].0 as int],
        forall|j: int|
            0 <= j < b.report.len() ==> #[trigger] b.report[j].1 == outcome_of[b.report[j].0 as int],
    ensures
        a.report.to_set() == b.report.to_set(),
        a.report.to_multiset() == b.report.to_multiset(),
        a.report.len() == b.report.len(),
{
    lemma_report_set(a, outcome_of);
    lemma_report_set(b, outcome_of);
    lemma_one_outcome_per_rule(a);
    lemma_one_outcome_per_rule(b);
    assert(a.report.no_duplicates());
    assert(b.report.no_duplicates());
    assert forall|x: (usize, Outcome)| a.report.to_multiset().count(x) == b.report.to_multiset().count(
        x,
    ) by {
        lemma_no_dup_count(a.report, x);
        lemma_no_dup_count(b.report, x);
        assert(a.report.to_set().contains(x) == a.report.contains(x));
        assert(b.report.to_set().contains(x) == b.report.contains(x));
    };
    assert(a.report.to_multiset() =~= b.report.to_multiset());
}

} // verus!
