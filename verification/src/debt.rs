//! Outstanding asynchronous-load debts: a finite map from register to a positive
//! debt, held as a list of distinct keys; a register absent from the list owes nothing.
use vstd::prelude::*;

use crate::register::SwppRegisterName;

verus! {

pub open spec fn has_reg(e: Seq<(SwppRegisterName, u64)>, r: SwppRegisterName) -> bool {
    exists|i: int| 0 <= i < e.len() && #[trigger] e[i].0 == r
}

pub open spec fn owed(e: Seq<(SwppRegisterName, u64)>, r: SwppRegisterName) -> u64 {
    if has_reg(e, r) {
        e[choose|i: int| 0 <= i < e.len() && #[trigger] e[i].0 == r].1
    } else {
        0
    }
}

pub open spec fn debts_wf(e: Seq<(SwppRegisterName, u64)>) -> bool {
    &&& forall|i: int, j: int|
        0 <= i < e.len() && 0 <= j < e.len() && #[trigger] e[i].0 == #[trigger] e[j].0 ==> i == j
    &&& forall|i: int| 0 <= i < e.len() ==> 0 < #[trigger] e[i].1
}

/// The sum of all debts in the list.
pub open spec fn sum_debts(e: Seq<(SwppRegisterName, u64)>) -> int
    decreases e.len(),
{
    if e.len() == 0 {
        0
    } else {
        sum_debts(e.drop_last()) + e.last().1
    }
}

proof fn lemma_owed_at(e: Seq<(SwppRegisterName, u64)>, i: int)
    requires
        debts_wf(e),
        0 <= i < e.len(),
    ensures
        owed(e, e[i].0) == e[i].1,
{
    let r = e[i].0;
    assert(has_reg(e, r));
    let j = choose|j: int| 0 <= j < e.len() && #[trigger] e[j].0 == r;
    assert(e[j].0 == e[i].0);
}

proof fn lemma_owed_zero(e: Seq<(SwppRegisterName, u64)>, r: SwppRegisterName)
    requires
        debts_wf(e),
    ensures
        owed(e, r) == 0 <==> !has_reg(e, r),
{
    if has_reg(e, r) {
        let j = choose|j: int| 0 <= j < e.len() && #[trigger] e[j].0 == r;
        assert(0 < e[j].1);
    }
}

proof fn lemma_sum_push(e: Seq<(SwppRegisterName, u64)>, x: (SwppRegisterName, u64))
    ensures
        sum_debts(e.push(x)) == sum_debts(e) + x.1,
{
    assert(e.push(x).drop_last() =~= e);
}

proof fn lemma_sum_update(e: Seq<(SwppRegisterName, u64)>, i: int, x: (SwppRegisterName, u64))
    requires
        0 <= i < e.len(),
    ensures
        sum_debts(e.update(i, x)) == sum_debts(e) - e[i].1 + x.1,
    decreases e.len(),
{
    if i == e.len() - 1 {
        assert(e.update(i, x).drop_last() =~= e.drop_last());
    } else {
        lemma_sum_update(e.drop_last(), i, x);
        assert(e.update(i, x).drop_last() =~= e.drop_last().update(i, x));
    }
}

proof fn lemma_sum_remove(e: Seq<(SwppRegisterName, u64)>, i: int)
    requires
        0 <= i < e.len(),
    ensures
        sum_debts(e.remove(i)) == sum_debts(e) - e[i].1,
    decreases e.len(),
{
    if i == e.len() - 1 {
        assert(e.remove(i) =~= e.drop_last());
    } else {
        lemma_sum_remove(e.drop_last(), i);
        assert(e.remove(i).drop_last() =~= e.drop_last().remove(i));
        assert(e.remove(i).last() == e.last());
    }
}

proof fn lemma_sum_nonneg(e: Seq<(SwppRegisterName, u64)>)
    ensures
        sum_debts(e) >= 0,
    decreases e.len(),
{
    if e.len() > 0 {
        lemma_sum_nonneg(e.drop_last());
    }
}

proof fn lemma_push(e: Seq<(SwppRegisterName, u64)>, r: SwppRegisterName, v: u64)
    requires
        debts_wf(e),
        !has_reg(e, r),
        0 < v,
    ensures
        debts_wf(e.push((r, v))),
        forall|t: SwppRegisterName| #[trigger]
            owed(e.push((r, v)), t) == if t == r {
                v
            } else {
                owed(e, t)
            },
{
    let f = e.push((r, v));
    assert forall|i: int, j: int|
        0 <= i < f.len() && 0 <= j < f.len() && #[trigger] f[i].0 == #[trigger] f[j].0 implies i
        == j by {
        if i < e.len() && j == e.len() {
            assert(e[i].0 == r);
        }
        if j < e.len() && i == e.len() {
            assert(e[j].0 == r);
        }
    }
    assert forall|t: SwppRegisterName| #[trigger]
        owed(f, t) == if t == r {
            v
        } else {
            owed(e, t)
        } by {
        if t == r {
            lemma_owed_at(f, e.len() as int);
        } else if has_reg(e, t) {
            let j = choose|j: int| 0 <= j < e.len() && #[trigger] e[j].0 == t;
            lemma_owed_at(e, j);
            lemma_owed_at(f, j);
        } else {
            if has_reg(f, t) {
                let j = choose|j: int| 0 <= j < f.len() && #[trigger] f[j].0 == t;
                assert(e[j].0 == t);
            }
        }
    }
}

proof fn lemma_update(e: Seq<(SwppRegisterName, u64)>, i: int, v: u64)
    requires
        debts_wf(e),
        0 <= i < e.len(),
        0 < v,
    ensures
        debts_wf(e.update(i, (e[i].0, v))),
        forall|t: SwppRegisterName| #[trigger]
            owed(e.update(i, (e[i].0, v)), t) == if t == e[i].0 {
                v
            } else {
                owed(e, t)
            },
{
    let r = e[i].0;
    let f = e.update(i, (r, v));
    assert forall|a: int, b: int|
        0 <= a < f.len() && 0 <= b < f.len() && #[trigger] f[a].0 == #[trigger] f[b].0 implies a
        == b by {
        assert(e[a].0 == e[b].0);
    }
    assert forall|t: SwppRegisterName| #[trigger]
        owed(f, t) == if t == r {
            v
        } else {
            owed(e, t)
        } by {
        if t == r {
            lemma_owed_at(f, i);
        } else if has_reg(e, t) {
            let j = choose|j: int| 0 <= j < e.len() && #[trigger] e[j].0 == t;
            lemma_owed_at(e, j);
            lemma_owed_at(f, j);
        } else {
            if has_reg(f, t) {
                let j = choose|j: int| 0 <= j < f.len() && #[trigger] f[j].0 == t;
                assert(e[j].0 == t);
            }
        }
    }
}

proof fn lemma_remove(e: Seq<(SwppRegisterName, u64)>, i: int)
    requires
        debts_wf(e),
        0 <= i < e.len(),
    ensures
        debts_wf(e.remove(i)),
        forall|t: SwppRegisterName| #[trigger]
            owed(e.remove(i), t) == if t == e[i].0 {
                0
            } else {
                owed(e, t)
            },
{
    let r = e[i].0;
    let f = e.remove(i);
    assert forall|a: int, b: int|
        0 <= a < f.len() && 0 <= b < f.len() && #[trigger] f[a].0 == #[trigger] f[b].0 implies a
        == b by {
        let aa = if a < i { a } else { a + 1 };
        let bb = if b < i { b } else { b + 1 };
        assert(f[a] == e[aa] && f[b] == e[bb]);
    }
    assert forall|a: int| 0 <= a < f.len() implies 0 < #[trigger] f[a].1 by {
        let aa = if a < i { a } else { a + 1 };
        assert(f[a] == e[aa]);
    }
    assert forall|t: SwppRegisterName| #[trigger]
        owed(f, t) == if t == r {
            0
        } else {
            owed(e, t)
        } by {
        if has_reg(f, t) {
            let j = choose|j: int| 0 <= j < f.len() && #[trigger] f[j].0 == t;
            let jj = if j < i { j } else { j + 1 };
            assert(f[j] == e[jj]);
            lemma_owed_at(f, j);
            lemma_owed_at(e, jj);
        } else {
            if t != r && has_reg(e, t) {
                let j = choose|j: int| 0 <= j < e.len() && #[trigger] e[j].0 == t;
                let jj = if j < i { j } else { j - 1 };
                assert(f[jj] == e[j]);
            }
            lemma_owed_zero(e, t);
        }
    }
}

proof fn lemma_prefix_step(e: Seq<(SwppRegisterName, u64)>, i: int)
    requires
        0 <= i < e.len(),
    ensures
        forall|t: SwppRegisterName| #[trigger]
            has_reg(e.subrange(0, i + 1), t) == (has_reg(e.subrange(0, i), t) || e[i].0 == t),
        sum_debts(e.subrange(0, i + 1)) == sum_debts(e.subrange(0, i)) + e[i].1,
{
    assert(e.subrange(0, i + 1).drop_last() =~= e.subrange(0, i));
    assert forall|t: SwppRegisterName| #[trigger]
        has_reg(e.subrange(0, i + 1), t) == (has_reg(e.subrange(0, i), t) || e[i].0 == t) by {
        let p = e.subrange(0, i);
        let q = e.subrange(0, i + 1);
        if has_reg(q, t) {
            let j = choose|j: int| 0 <= j < q.len() && #[trigger] q[j].0 == t;
            if j < i {
                assert(p[j].0 == t);
            }
        }
        if has_reg(p, t) {
            let j = choose|j: int| 0 <= j < p.len() && #[trigger] p[j].0 == t;
            assert(q[j].0 == t);
        }
        if e[i].0 == t {
            assert(q[i].0 == t);
        }
    }
}

/// The debt a register still owes after `c` units of cost elapse.
pub open spec fn reduced_debt(d: u64, c: u64) -> u64 {
    if d > c {
        (d - c) as u64
    } else {
        0
    }
}

/// A prefix of the list owes no more than the whole list.
proof fn lemma_sum_prefix(e: Seq<(SwppRegisterName, u64)>, k: int)
    requires
        0 <= k <= e.len(),
    ensures
        sum_debts(e.subrange(0, k)) <= sum_debts(e),
    decreases e.len(),
{
    if k < e.len() {
        assert(e.drop_last().subrange(0, k) =~= e.subrange(0, k));
        lemma_sum_prefix(e.drop_last(), k);
    } else {
        assert(e.subrange(0, k) =~= e);
    }
}

/// Outstanding debts of asynchronous loads, by register.
///
/// The entries are kept in a vector, each register at most once: a map keyed
/// by the register type would rest on its derived `Hash` and `Eq`, which
/// Verus does not read.
pub struct DebtList {
    entries: Vec<(SwppRegisterName, u64)>,
}

impl DebtList {
    pub closed spec fn wf(self) -> bool {
        debts_wf(self.entries@)
    }

    /// The debt owed by register `r`.
    pub closed spec fn debt(self, r: SwppRegisterName) -> u64 {
        owed(self.entries@, r)
    }

    /// The sum of all outstanding debts.
    pub closed spec fn total(self) -> int {
        sum_debts(self.entries@)
    }

    pub proof fn lemma_total_nonneg(self)
        ensures
            self.total() >= 0,
    {
        lemma_sum_nonneg(self.entries@);
    }

    /// Whether `base` plus all outstanding debts fits in `u64`.
    pub fn fits_with(&self, base: u64) -> (res: bool)
        ensures
            res == (base + self.total() <= u64::MAX),
    {
        let mut acc: u64 = base;
        let mut i: usize = 0;
        while i < self.entries.len()
            invariant
                i <= self.entries@.len(),
                acc == base + sum_debts(self.entries@.subrange(0, i as int)),
            decreases self.entries@.len() - i,
        {
            let d = self.entries[i].1;
            proof {
                assert(self.entries@.subrange(0, i + 1).drop_last() =~= self.entries@.subrange(
                    0,
                    i as int,
                ));
                lemma_sum_prefix(self.entries@, i + 1);
            }
            if acc > u64::MAX - d {
                return false;
            }
            acc = acc + d;
            i = i + 1;
        }
        proof {
            assert(self.entries@.subrange(0, self.entries@.len() as int) =~= self.entries@);
        }
        true
    }

    pub fn new() -> (res: DebtList)
        ensures
            res.wf(),
            res.total() == 0,
            forall|r: SwppRegisterName| #[trigger] res.debt(r) == 0,
    {
        DebtList { entries: Vec::new() }
    }

    fn find(&self, r: SwppRegisterName) -> (res: Option<usize>)
        ensures
            match res {
                Some(i) => i < self.entries@.len() && self.entries@[i as int].0 == r,
                None => !has_reg(self.entries@, r),
            },
    {
        let mut i: usize = 0;
        while i < self.entries.len()
            invariant
                i <= self.entries@.len(),
                forall|j: int| 0 <= j < i ==> #[trigger] self.entries@[j].0 != r,
            decreases self.entries@.len() - i,
        {
            if self.entries[i].0 == r {
                return Some(i);
            }
            i = i + 1;
        }
        None
    }

    pub fn get(&self, r: &SwppRegisterName) -> (res: u64)
        requires
            self.wf(),
        ensures
            res == self.debt(*r),
    {
        match self.find(*r) {
            Some(i) => {
                proof {
                    lemma_owed_at(self.entries@, i as int);
                }
                self.entries[i].1
            },
            None => 0,
        }
    }

    /// Register `r` owes `d` from now on (nothing when `d` is zero).
    pub fn set(&mut self, r: SwppRegisterName, d: u64)
        requires
            old(self).wf(),
        ensures
            final(self).wf(),
            forall|t: SwppRegisterName| #[trigger]
                final(self).debt(t) == if t == r {
                    d
                } else {
                    old(self).debt(t)
                },
            final(self).total() == old(self).total() - old(self).debt(r) + d,
    {
        proof {
            lemma_owed_zero(self.entries@, r);
        }
        match self.find(r) {
            Some(i) => {
                proof {
                    lemma_owed_at(self.entries@, i as int);
                }
                if d > 0 {
                    proof {
                        lemma_update(self.entries@, i as int, d);
                        lemma_sum_update(self.entries@, i as int, (r, d));
                    }
                    self.entries.set(i, (r, d));
                } else {
                    proof {
                        lemma_remove(self.entries@, i as int);
                        lemma_sum_remove(self.entries@, i as int);
                    }
                    self.entries.remove(i);
                }
            },
            None => {
                if d > 0 {
                    proof {
                        lemma_push(self.entries@, r, d);
                        lemma_sum_push(self.entries@, (r, d));
                    }
                    self.entries.push((r, d));
                }
            },
        }
    }

    /// Lets `c` units of cost elapse: every register other than `exclude`
    /// owes `c` less (never below zero).
    pub fn reduce_all(&mut self, c: u64, exclude: Option<&SwppRegisterName>)
        requires
            old(self).wf(),
        ensures
            final(self).wf(),
            forall|t: SwppRegisterName| #[trigger]
                final(self).debt(t) == if exclude == Some(&t) {
                    old(self).debt(t)
                } else {
                    reduced_debt(old(self).debt(t), c)
                },
            final(self).total() <= old(self).total(),
    {
        let ghost old_e = self.entries@;
        let mut kept: Vec<(SwppRegisterName, u64)> = Vec::new();
        let mut i: usize = 0;
        proof {
            assert(old_e.subrange(0, 0) =~= Seq::<(SwppRegisterName, u64)>::empty());
        }
        while i < self.entries.len()
            invariant
                self.entries@ == old_e,
                debts_wf(old_e),
                i <= old_e.len(),
                debts_wf(kept@),
                sum_debts(kept@) <= sum_debts(old_e.subrange(0, i as int)),
                forall|t: SwppRegisterName| #[trigger]
                    owed(kept@, t) == if has_reg(old_e.subrange(0, i as int), t) {
                        if exclude == Some(&t) {
                            owed(old_e, t)
                        } else {
                            reduced_debt(owed(old_e, t), c)
                        }
                    } else {
                        0
                    },
            decreases old_e.len() - i,
        {
            let (r, d) = self.entries[i];
            proof {
                lemma_owed_at(old_e, i as int);
                lemma_prefix_step(old_e, i as int);
                lemma_owed_zero(kept@, r);
            }
            let keep_whole = match exclude {
                Some(x) => *x == r,
                None => false,
            };
            let nd = if keep_whole {
                d
            } else if d > c {
                d - c
            } else {
                0
            };
            if nd > 0 {
                proof {
                    lemma_push(kept@, r, nd);
                    lemma_sum_push(kept@, (r, nd));
                }
                kept.push((r, nd));
            }
            i = i + 1;
        }
        proof {
            assert(old_e.subrange(0, old_e.len() as int) =~= old_e);
            assert forall|t: SwppRegisterName| #[trigger]
                owed(kept@, t) == if exclude == Some(&t) {
                    owed(old_e, t)
                } else {
                    reduced_debt(owed(old_e, t), c)
                } by {
                lemma_owed_zero(old_e, t);
            }
        }
        self.entries = kept;
    }
}

} // verus!
