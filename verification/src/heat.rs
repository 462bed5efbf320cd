//! The heat of heap sectors: a finite map from sector index to a heat in 1..=2000,
//! held as a list of distinct keys.
use vstd::prelude::*;

verus! {

pub const HEAT_INCREASE_PER_ACCESS: u64 = 400;

pub const HEAT_CAP_PER_SECTOR: u64 = 2000;

pub const HEAT_COST_DIVISOR: u64 = 10;

pub const SECTOR_SIZE: u64 = 8;

/// The heat of a sector after one more access.
pub open spec fn bumped_heat(h: u64) -> u64 {
    if h + HEAT_INCREASE_PER_ACCESS < HEAT_CAP_PER_SECTOR {
        (h + HEAT_INCREASE_PER_ACCESS) as u64
    } else {
        HEAT_CAP_PER_SECTOR
    }
}

/// The heat of a sector after `c` units of cost elapse.
pub open spec fn cooled_heat(h: u64, c: u64) -> u64 {
    if h > c {
        (h - c) as u64
    } else {
        0
    }
}

pub open spec fn has_key(e: Seq<(u64, u64)>, s: u64) -> bool {
    exists|i: int| 0 <= i < e.len() && #[trigger] e[i].0 == s
}

/// The value stored under `s`, or zero where there is none.
pub open spec fn lookup(e: Seq<(u64, u64)>, s: u64) -> u64 {
    if has_key(e, s) {
        e[choose|i: int| 0 <= i < e.len() && #[trigger] e[i].0 == s].1
    } else {
        0
    }
}

pub open spec fn entries_wf(e: Seq<(u64, u64)>) -> bool {
    &&& forall|i: int, j: int|
        0 <= i < e.len() && 0 <= j < e.len() && #[trigger] e[i].0 == #[trigger] e[j].0 ==> i == j
    &&& forall|i: int| 0 <= i < e.len() ==> 0 < #[trigger] e[i].1 <= HEAT_CAP_PER_SECTOR
}

pub proof fn lemma_lookup_at(e: Seq<(u64, u64)>, i: int)
    requires
        entries_wf(e),
        0 <= i < e.len(),
    ensures
        lookup(e, e[i].0) == e[i].1,
{
    let s = e[i].0;
    assert(has_key(e, s));
    let j = choose|j: int| 0 <= j < e.len() && #[trigger] e[j].0 == s;
    assert(e[j].0 == e[i].0);
}

pub proof fn lemma_lookup_absent(e: Seq<(u64, u64)>, s: u64)
    requires
        entries_wf(e),
    ensures
        lookup(e, s) <= HEAT_CAP_PER_SECTOR,
        lookup(e, s) == 0 <==> !has_key(e, s),
{
    if has_key(e, s) {
        let j = choose|j: int| 0 <= j < e.len() && #[trigger] e[j].0 == s;
        assert(0 < e[j].1);
    }
}

pub proof fn lemma_push(e: Seq<(u64, u64)>, s: u64, v: u64)
    requires
        entries_wf(e),
        !has_key(e, s),
        0 < v <= HEAT_CAP_PER_SECTOR,
    ensures
        entries_wf(e.push((s, v))),
        forall|t: u64| #[trigger]
            lookup(e.push((s, v)), t) == if t == s {
                v
            } else {
                lookup(e, t)
            },
{
    let f = e.push((s, v));
    assert forall|i: int, j: int|
        0 <= i < f.len() && 0 <= j < f.len() && #[trigger] f[i].0 == #[trigger] f[j].0 implies i
        == j by {
        if i < e.len() && j == e.len() {
            assert(e[i].0 == s);
        }
        if j < e.len() && i == e.len() {
            assert(e[j].0 == s);
        }
    }
    assert forall|t: u64| #[trigger]
        lookup(f, t) == if t == s {
            v
        } else {
            lookup(e, t)
        } by {
        if t == s {
            lemma_lookup_at(f, e.len() as int);
        } else if has_key(e, t) {
            let j = choose|j: int| 0 <= j < e.len() && #[trigger] e[j].0 == t;
            lemma_lookup_at(e, j);
            lemma_lookup_at(f, j);
        } else {
            if has_key(f, t) {
                let j = choose|j: int| 0 <= j < f.len() && #[trigger] f[j].0 == t;
                assert(e[j].0 == t);
            }
        }
    }
}

pub proof fn lemma_update(e: Seq<(u64, u64)>, i: int, v: u64)
    requires
        entries_wf(e),
        0 <= i < e.len(),
        0 < v <= HEAT_CAP_PER_SECTOR,
    ensures
        entries_wf(e.update(i, (e[i].0, v))),
        forall|t: u64| #[trigger]
            lookup(e.update(i, (e[i].0, v)), t) == if t == e[i].0 {
                v
            } else {
                lookup(e, t)
            },
{
    let s = e[i].0;
    let f = e.update(i, (s, v));
    assert forall|a: int, b: int|
        0 <= a < f.len() && 0 <= b < f.len() && #[trigger] f[a].0 == #[trigger] f[b].0 implies a
        == b by {
        assert(e[a].0 == e[b].0);
    }
    assert forall|t: u64| #[trigger]
        lookup(f, t) == if t == s {
            v
        } else {
            lookup(e, t)
        } by {
        if t == s {
            lemma_lookup_at(f, i);
        } else if has_key(e, t) {
            let j = choose|j: int| 0 <= j < e.len() && #[trigger] e[j].0 == t;
            lemma_lookup_at(e, j);
            lemma_lookup_at(f, j);
        } else {
            if has_key(f, t) {
                let j = choose|j: int| 0 <= j < f.len() && #[trigger] f[j].0 == t;
                assert(e[j].0 == t);
            }
        }
    }
}

/// Heat of heap sectors; a sector absent from the list has heat zero.
///
/// The entries are kept in a vector, each sector at most once: cooling walks
/// every entry, lowers its heat and drops those that reach zero, a mutable
/// walk and a filter that vstd gives `BTreeMap` no specification for.
pub struct HeatMap {
    entries: Vec<(u64, u64)>,
}

impl HeatMap {
    pub closed spec fn wf(self) -> bool {
        entries_wf(self.entries@)
    }

    /// The heat of sector `s`.
    pub closed spec fn heat(self, s: u64) -> u64 {
        lookup(self.entries@, s)
    }

    pub proof fn lemma_heat_bound(self, s: u64)
        requires
            self.wf(),
        ensures
            self.heat(s) <= HEAT_CAP_PER_SECTOR,
    {
        lemma_lookup_absent(self.entries@, s);
    }

    pub fn new() -> (res: HeatMap)
        ensures
            res.wf(),
            forall|s: u64| #[trigger] res.heat(s) == 0,
    {
        HeatMap { entries: Vec::new() }
    }

    fn find(&self, s: u64) -> (res: Option<usize>)
        ensures
            match res {
                Some(i) => i < self.entries@.len() && self.entries@[i as int].0 == s,
                None => !has_key(self.entries@, s),
            },
    {
        let mut i: usize = 0;
        while i < self.entries.len()
            invariant
                i <= self.entries@.len(),
                forall|j: int| 0 <= j < i ==> #[trigger] self.entries@[j].0 != s,
            decreases self.entries@.len() - i,
        {
            if self.entries[i].0 == s {
                return Some(i);
            }
            i = i + 1;
        }
        None
    }

    pub fn get(&self, s: u64) -> (res: u64)
        requires
            self.wf(),
        ensures
            res == self.heat(s),
    {
        match self.find(s) {
            Some(i) => {
                proof {
                    lemma_lookup_at(self.entries@, i as int);
                }
                self.entries[i].1
            },
            None => 0,
        }
    }

    /// One more access to sector `s`.
    pub fn bump(&mut self, s: u64)
        requires
            old(self).wf(),
        ensures
            final(self).wf(),
            forall|t: u64| #[trigger]
                final(self).heat(t) == if t == s {
                    bumped_heat(old(self).heat(t))
                } else {
                    old(self).heat(t)
                },
    {
        proof {
            lemma_lookup_absent(self.entries@, s);
        }
        match self.find(s) {
            Some(i) => {
                proof {
                    lemma_lookup_at(self.entries@, i as int);
                }
                let cur = self.entries[i].1;
                let new_heat = if cur + HEAT_INCREASE_PER_ACCESS < HEAT_CAP_PER_SECTOR {
                    cur + HEAT_INCREASE_PER_ACCESS
                } else {
                    HEAT_CAP_PER_SECTOR
                };
                proof {
                    lemma_update(self.entries@, i as int, new_heat);
                }
                self.entries.set(i, (s, new_heat));
            },
            None => {
                proof {
                    lemma_push(self.entries@, s, HEAT_INCREASE_PER_ACCESS);
                }
                self.entries.push((s, HEAT_INCREASE_PER_ACCESS));
            },
        }
    }

    /// Forgets the heat of every sector in `lo..hi`.
    pub fn clear_range(&mut self, lo: u64, hi: u64)
        requires
            old(self).wf(),
        ensures
            final(self).wf(),
            forall|t: u64| #[trigger]
                final(self).heat(t) == if lo <= t < hi {
                    0
                } else {
                    old(self).heat(t)
                },
    {
        let ghost old_e = self.entries@;
        let mut kept: Vec<(u64, u64)> = Vec::new();
        let mut i: usize = 0;
        while i < self.entries.len()
            invariant
                self.entries@ == old_e,
                entries_wf(old_e),
                i <= old_e.len(),
                entries_wf(kept@),
                forall|t: u64| #[trigger]
                    lookup(kept@, t) == if has_key(old_e.subrange(0, i as int), t) && !(lo <= t
                        < hi) {
                        lookup(old_e, t)
                    } else {
                        0
                    },
            decreases old_e.len() - i,
        {
            let (s, h) = self.entries[i];
            proof {
                lemma_lookup_at(old_e, i as int);
                lemma_prefix_step(old_e, i as int);
            }
            if !(lo <= s && s < hi) {
                proof {
                    lemma_lookup_absent(kept@, s);
                    lemma_push(kept@, s, h);
                }
                kept.push((s, h));
            }
            i = i + 1;
        }
        proof {
            assert(old_e.subrange(0, old_e.len() as int) =~= old_e);
            assert forall|t: u64| #[trigger]
                lookup(kept@, t) == if lo <= t < hi {
                    0
                } else {
                    lookup(old_e, t)
                } by {
                lemma_lookup_absent(old_e, t);
            }
        }
        self.entries = kept;
    }

    /// Lets `c` units of cost elapse: every sector not in `exclude` cools by `c`.
    pub fn cool(&mut self, c: u64, exclude: Option<&[u64]>)
        requires
            old(self).wf(),
        ensures
            final(self).wf(),
            forall|t: u64| #[trigger]
                final(self).heat(t) == if excluded(exclude, t) {
                    old(self).heat(t)
                } else {
                    cooled_heat(old(self).heat(t), c)
                },
    {
        let ghost old_e = self.entries@;
        let mut kept: Vec<(u64, u64)> = Vec::new();
        let mut i: usize = 0;
        while i < self.entries.len()
            invariant
                self.entries@ == old_e,
                entries_wf(old_e),
                i <= old_e.len(),
                entries_wf(kept@),
                forall|t: u64| #[trigger]
                    lookup(kept@, t) == if has_key(old_e.subrange(0, i as int), t) {
                        if excluded(exclude, t) {
                            lookup(old_e, t)
                        } else {
                            cooled_heat(lookup(old_e, t), c)
                        }
                    } else {
                        0
                    },
            decreases old_e.len() - i,
        {
            let (s, h) = self.entries[i];
            proof {
                lemma_lookup_at(old_e, i as int);
                lemma_prefix_step(old_e, i as int);
                lemma_lookup_absent(kept@, s);
            }
            let skip = is_excluded(exclude, s);
            let new_heat = if skip {
                h
            } else if h > c {
                h - c
            } else {
                0
            };
            if new_heat > 0 {
                proof {
                    lemma_push(kept@, s, new_heat);
                }
                kept.push((s, new_heat));
            }
            i = i + 1;
        }
        proof {
            assert(old_e.subrange(0, old_e.len() as int) =~= old_e);
            assert forall|t: u64| #[trigger]
                lookup(kept@, t) == if excluded(exclude, t) {
                    lookup(old_e, t)
                } else {
                    cooled_heat(lookup(old_e, t), c)
                } by {
                lemma_lookup_absent(old_e, t);
            }
        }
        self.entries = kept;
    }
}

proof fn lemma_prefix_step(e: Seq<(u64, u64)>, i: int)
    requires
        0 <= i < e.len(),
    ensures
        forall|t: u64| #[trigger]
            has_key(e.subrange(0, i + 1), t) == (has_key(e.subrange(0, i), t) || e[i].0 == t),
{
    assert forall|t: u64| #[trigger]
        has_key(e.subrange(0, i + 1), t) == (has_key(e.subrange(0, i), t) || e[i].0 == t) by {
        let p = e.subrange(0, i);
        let q = e.subrange(0, i + 1);
        if has_key(q, t) {
            let j = choose|j: int| 0 <= j < q.len() && #[trigger] q[j].0 == t;
            if j < i {
                assert(p[j].0 == t);
            }
        }
        if has_key(p, t) {
            let j = choose|j: int| 0 <= j < p.len() && #[trigger] p[j].0 == t;
            assert(q[j].0 == t);
        }
        if e[i].0 == t {
            assert(q[i].0 == t);
        }
    }
}

/// Whether sector `t` is in the excluded list.
pub open spec fn excluded(exclude: Option<&[u64]>, t: u64) -> bool {
    match exclude {
        Some(list) => list@.contains(t),
        None => false,
    }
}

fn is_excluded(exclude: Option<&[u64]>, t: u64) -> (res: bool)
    ensures
        res == excluded(exclude, t),
{
    match exclude {
        Some(list) => {
            let mut i: usize = 0;
            while i < list.len()
                invariant
                    exclude == Some(list),
                    i <= list@.len(),
                    forall|j: int| 0 <= j < i ==> list@[j] != t,
                decreases list@.len() - i,
            {
                if list[i] == t {
                    assert(list@[i as int] == t);
                    assert(list@.contains(t));
                    return true;
                }
                i = i + 1;
            }
            false
        },
        None => false,
    }
}

} // verus!
