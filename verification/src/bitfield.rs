//! A compact set of sector numbers, kept as a strictly increasing vector.
//!
//! Stands in for the chain's wire-format bit field: the
//! scheduler only needs a sorted set with insertion, counted access and
//! positional slicing, so that is what is verified here.

use vstd::prelude::*;

verus! {

/// True when `s` is strictly increasing (and therefore duplicate-free).
pub open spec fn sorted(s: Seq<u64>) -> bool {
    forall|i: int, j: int| 0 <= i < j < s.len() ==> s[i] < s[j]
}

/// `s` with `v` inserted at its sorted position; `s` unchanged when `v` is
/// already present.
pub open spec fn seq_insert(s: Seq<u64>, v: u64) -> Seq<u64>
    decreases s.len(),
{
    if s.len() == 0 {
        seq![v]
    } else if v < s[0] {
        seq![v] + s
    } else if v == s[0] {
        s
    } else {
        seq![s[0]] + seq_insert(s.drop_first(), v)
    }
}

/// `s` with every element of `nums` inserted, in order.
pub open spec fn seq_insert_all(s: Seq<u64>, nums: Seq<u64>) -> Seq<u64>
    decreases nums.len(),
{
    if nums.len() == 0 {
        s
    } else {
        seq_insert_all(seq_insert(s, nums[0]), nums.drop_first())
    }
}

/// Inserting keeps the sequence sorted and adds exactly the membership of `v`.
pub proof fn lemma_seq_insert(s: Seq<u64>, v: u64)
    requires
        sorted(s),
    ensures
        sorted(seq_insert(s, v)),
        forall|x: u64| seq_insert(s, v).contains(x) <==> s.contains(x) || x == v,
        s.contains(v) ==> seq_insert(s, v) == s,
        !s.contains(v) ==> seq_insert(s, v).len() == s.len() + 1,
    decreases s.len(),
{
    if s.len() == 0 {
        assert forall|x: u64| seq_insert(s, v).contains(x) <==> s.contains(x) || x == v by {
            assert(seq_insert(s, v)[0] == v);
        }
    } else if v < s[0] {
        let r = seq![v] + s;
        assert forall|x: u64| r.contains(x) <==> s.contains(x) || x == v by {
            if r.contains(x) {
                let i = choose|i: int| 0 <= i < r.len() && r[i] == x;
                if i > 0 {
                    assert(s[i - 1] == x);
                }
            }
            if s.contains(x) {
                let i = choose|i: int| 0 <= i < s.len() && s[i] == x;
                assert(r[i + 1] == x);
            }
            if x == v {
                assert(r[0] == x);
            }
        }
        assert(!s.contains(v));
    } else if v == s[0] {
        assert(s.contains(v)) by {
            assert(s[0] == v);
        }
    } else {
        let t = s.drop_first();
        assert(sorted(t)) by {
            assert(forall|i: int, j: int|
                0 <= i < j < t.len() ==> t[i] == s[i + 1] && t[j] == s[j + 1]);
        }
        lemma_seq_insert(t, v);
        let r = seq![s[0]] + seq_insert(t, v);
        assert(seq_insert(s, v) == r);
        assert forall|x: u64| r.contains(x) <==> s.contains(x) || x == v by {
            if r.contains(x) {
                let i = choose|i: int| 0 <= i < r.len() && r[i] == x;
                if i == 0 {
                    assert(s[0] == x);
                } else {
                    assert(seq_insert(t, v)[i - 1] == x);
                    assert(seq_insert(t, v).contains(x));
                    if t.contains(x) {
                        let j = choose|j: int| 0 <= j < t.len() && t[j] == x;
                        assert(s[j + 1] == x);
                    }
                }
            }
            if s.contains(x) {
                let i = choose|i: int| 0 <= i < s.len() && s[i] == x;
                if i == 0 {
                    assert(r[0] == x);
                } else {
                    assert(t[i - 1] == x);
                    assert(t.contains(x));
                    assert(seq_insert(t, v).contains(x));
                    let j = choose|j: int| 0 <= j < seq_insert(t, v).len()
                        && seq_insert(t, v)[j] == x;
                    assert(r[j + 1] == x);
                }
            }
            if x == v {
                assert(seq_insert(t, v).contains(x));
                let j = choose|j: int| 0 <= j < seq_insert(t, v).len()
                    && seq_insert(t, v)[j] == x;
                assert(r[j + 1] == x);
            }
        }
        assert(sorted(r)) by {
            assert(forall|j: int| 0 < j < r.len() ==> r[j] == seq_insert(t, v)[j - 1]);
            assert forall|j: int| 0 < j < r.len() implies r[0] < #[trigger] r[j] by {
                assert(seq_insert(t, v).contains(seq_insert(t, v)[j - 1]));
                let x = seq_insert(t, v)[j - 1];
                assert(t.contains(x) || x == v);
                if t.contains(x) {
                    let k = choose|k: int| 0 <= k < t.len() && t[k] == x;
                    assert(s[k + 1] == x);
                    assert(s[0] < x);
                }
            }
        }
        if s.contains(v) {
            assert(t.contains(v)) by {
                let i = choose|i: int| 0 <= i < s.len() && s[i] == v;
                assert(i != 0);
                assert(t[i - 1] == v);
            }
            assert(seq_insert(s, v) =~= s);
        } else {
            assert(!t.contains(v)) by {
                if t.contains(v) {
                    let j = choose|j: int| 0 <= j < t.len() && t[j] == v;
                    assert(s[j + 1] == v);
                }
            }
        }
    }
}

/// A set of sector numbers.
#[derive(Clone, Debug, PartialEq, Eq)]
pub struct BitField {
    pub bits: Vec<u64>,
}

impl View for BitField {
    type V = Seq<u64>;

    open spec fn view(&self) -> Seq<u64> {
        self.bits@
    }
}

impl BitField {
    /// Well-formed: the underlying vector is strictly increasing.
    pub open spec fn wf(&self) -> bool {
        sorted(self@)
    }

    /// The empty set.
    pub fn new() -> (r: BitField)
        ensures
            r@ == Seq::<u64>::empty(),
            r.wf(),
    {
        BitField { bits: Vec::new() }
    }

    /// The set holding exactly the numbers of `nums` (in any order, with
    /// duplicates collapsed).
    pub fn new_from_set(nums: &[u64]) -> (r: BitField)
        ensures
            r.wf(),
            forall|x: u64| r@.contains(x) <==> nums@.contains(x),
    {
        let mut r = BitField::new();
        let mut i: usize = 0;
        while i < nums.len()
            invariant
                i <= nums.len(),
                r.wf(),
                forall|x: u64| r@.contains(x)
                    <==> exists|k: int| 0 <= k < i && #[trigger] nums@[k] == x,
            decreases nums.len() - i,
        {
            let ghost prev = r@;
            r.insert(nums[i]);
            proof {
                let v = nums@[i as int];
                lemma_seq_insert(prev, v);
                assert forall|x: u64| r@.contains(x)
                    <==> exists|k: int| 0 <= k < i + 1 && #[trigger] nums@[k] == x by {
                    assert(r@ == seq_insert(prev, v));
                    assert(seq_insert(prev, v).contains(x) <==> prev.contains(x) || x == v);
                    if r@.contains(x) {
                        if !prev.contains(x) {
                            assert(nums@[i as int] == x);
                        }
                    }
                    if exists|k: int| 0 <= k < i + 1 && #[trigger] nums@[k] == x {
                        let k = choose|k: int| 0 <= k < i + 1 && #[trigger] nums@[k] == x;
                        if k == i {
                            assert(x == v);
                        } else {
                            assert(prev.contains(x));
                        }
                    }
                }
            }
            i = i + 1;
        }
        proof {
            assert forall|x: u64| r@.contains(x) <==> nums@.contains(x) by {
                if nums@.contains(x) {
                    let k = choose|k: int| 0 <= k < nums@.len() && nums@[k] == x;
                    assert(nums@[k] == x);
                }
            }
        }
        r
    }

    /// Number of sector numbers in the set.
    pub fn len(&self) -> (r: usize)
        ensures
            r == self@.len(),
    {
        self.bits.len()
    }

    /// Adds `v` to the set.
    pub fn insert(&mut self, v: u64)
        requires
            old(self).wf(),
        ensures
            final(self)@ == seq_insert(old(self)@, v),
            final(self).wf(),
    {
        let ghost s = self@;
        let mut i: usize = 0;
        while i < self.bits.len() && self.bits[i] < v
            invariant
                self@ == s,
                sorted(s),
                i <= s.len(),
                forall|k: int| 0 <= k < i ==> s[k] < v,
            decreases self.bits.len() - i,
        {
            i = i + 1;
        }
        if i < self.bits.len() && self.bits[i] == v {
            proof {
                lemma_seq_insert_position(s, v, i as int);
            }
        } else {
            self.bits.insert(i, v);
            proof {
                lemma_seq_insert_position(s, v, i as int);
                lemma_seq_insert(s, v);
            }
        }
    }

    /// The numbers at positions `[start, start + count)` of the sorted order.
    pub fn range(&self, start: usize, count: usize) -> (r: BitField)
        requires
            self.wf(),
            start + count <= self@.len(),
        ensures
            r@ == self@.subrange(start as int, start + count),
            r.wf(),
    {
        let mut bits: Vec<u64> = Vec::new();
        let mut k: usize = 0;
        while k < count
            invariant
                k <= count,
                start + count <= self.bits.len(),
                bits@ == self@.subrange(start as int, start + k),
            decreases count - k,
        {
            bits.push(self.bits[start + k]);
            proof {
                assert(bits@ =~= self@.subrange(start as int, start + k + 1));
            }
            k = k + 1;
        }
        let r = BitField { bits };
        proof {
            assert(sorted(r@)) by {
                assert(forall|i: int| 0 <= i < r@.len() ==> r@[i] == self@[start + i]);
            }
        }
        r
    }

    /// Whether `v` is in the set.
    pub fn contains(&self, v: u64) -> (r: bool)
        ensures
            r == self@.contains(v),
    {
        let mut i: usize = 0;
        while i < self.bits.len()
            invariant
                i <= self@.len(),
                forall|k: int| 0 <= k < i ==> self@[k] != v,
            decreases self@.len() - i,
        {
            if self.bits[i] == v {
                return true;
            }
            i = i + 1;
        }
        proof {
            assert(!self@.contains(v)) by {
                if self@.contains(v) {
                    let j = choose|j: int| 0 <= j < self@.len() && self@[j] == v;
                }
            }
        }
        false
    }

    /// All numbers in ascending order, provided the set holds at most `max`
    /// of them.
    pub fn all(&self, max: usize) -> (r: Option<Vec<u64>>)
        ensures
            r is Some <==> self@.len() <= max,
            r matches Some(v) ==> v@ == self@,
    {
        if self.bits.len() <= max {
            Some(self.bits.clone())
        } else {
            None
        }
    }
}

/// Where the scan of a sorted sequence stops, the recursive insertion acts:
/// either the value sits at `pos` already, or it belongs exactly there.
proof fn lemma_seq_insert_position(s: Seq<u64>, v: u64, pos: int)
    requires
        sorted(s),
        0 <= pos <= s.len(),
        forall|k: int| 0 <= k < pos ==> s[k] < v,
        pos < s.len() ==> s[pos] >= v,
    ensures
        pos < s.len() && s[pos] == v ==> seq_insert(s, v) == s,
        !(pos < s.len() && s[pos] == v) ==> seq_insert(s, v) == s.insert(pos, v),
    decreases s.len(),
{
    if s.len() == 0 {
        assert(seq_insert(s, v) =~= s.insert(0, v));
    } else if pos == 0 {
        if s[0] == v {
        } else {
            assert(v < s[0]);
            assert(seq_insert(s, v) =~= s.insert(0, v));
        }
    } else {
        let t = s.drop_first();
        assert(sorted(t)) by {
            assert(forall|i: int, j: int|
                0 <= i < j < t.len() ==> t[i] == s[i + 1] && t[j] == s[j + 1]);
        }
        assert(s[0] < v);
        assert(forall|k: int| 0 <= k < pos - 1 ==> t[k] == s[k + 1] && t[k] < v);
        assert(pos - 1 < t.len() ==> t[pos - 1] == s[pos] && t[pos - 1] >= v);
        lemma_seq_insert_position(t, v, pos - 1);
        if pos < s.len() && s[pos] == v {
            assert(t[pos - 1] == v);
            assert(seq_insert(s, v) =~= s);
        } else {
            assert(seq_insert(s, v) =~= s.insert(pos, v)) by {
                assert(seq_insert(t, v) == t.insert(pos - 1, v));
                assert(seq_insert(s, v) == seq![s[0]] + t.insert(pos - 1, v));
            }
        }
    }
}

} // verus!
