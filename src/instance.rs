use vstd::prelude::*;
use vstd::arithmetic::div_mod::{
    lemma_fundamental_div_mod, lemma_fundamental_div_mod_converse, lemma_mod_pos_bound,
};

verus! {

/// The tag that follows `t`; the count wraps to zero after `usize::MAX`.
pub open spec fn tag_after(t: usize) -> usize {
    if t == usize::MAX { 0 } else { (t + 1) as usize }
}

/// The tag handed out `k` issues after `t`.
pub open spec fn tag_after_n(t: usize, k: nat) -> usize
    decreases k,
{
    if k == 0 { t } else { tag_after(tag_after_n(t, (k - 1) as nat)) }
}

/// Issuing counts modulo the number of `usize` values.
pub proof fn lemma_tag_after_n(t: usize, k: nat)
    ensures
        tag_after_n(t, k) as int == (t + k) % (usize::MAX + 1),
    decreases k,
{
    if k > 0 {
        lemma_tag_after_n(t, (k - 1) as nat);
        let m: int = usize::MAX + 1;
        let x: int = t + k - 1;
        let q: int = x / m;
        let r: int = x % m;
        lemma_fundamental_div_mod(x, m);
        lemma_mod_pos_bound(x, m);
        let y = tag_after_n(t, (k - 1) as nat);
        if r + 1 < m {
            lemma_fundamental_div_mod_converse(x + 1, m, q, r + 1);
        } else {
            assert((q + 1) * m == q * m + m) by (nonlinear_arith);
            lemma_fundamental_div_mod_converse(x + 1, m, q + 1, 0);
        }
    } else {
        lemma_fundamental_div_mod_converse(t as int, usize::MAX + 1, 0, t as int);
    }
}

/// Arenas made from one counter get pairwise distinct tags as long as fewer
/// than `usize::MAX + 1` arenas lie between them: the tags issued `j` and
/// `k` issues after `t` differ.
pub proof fn law_distinct_tags(t: usize, j: nat, k: nat)
    requires
        j < k,
        k - j <= usize::MAX,
    ensures
        tag_after_n(t, j) != tag_after_n(t, k),
{
    lemma_tag_after_n(t, j);
    lemma_tag_after_n(t, k);
    let m: int = usize::MAX + 1;
    lemma_fundamental_div_mod(t + j, m);
    lemma_fundamental_div_mod(t + k, m);
    lemma_mod_pos_bound(t + j, m);
    lemma_mod_pos_bound(t + k, m);
    let d: int = (t + k) / m - (t + j) / m;
    if (t + j) % m == (t + k) % m {
        assert(d * m == k - j) by (nonlinear_arith)
            requires
                t + j == m * ((t + j) / m) + (t + j) % m,
                t + k == m * ((t + k) / m) + (t + k) % m,
                (t + j) % m == (t + k) % m,
                d == (t + k) / m - (t + j) / m,
        ;
        assert(false) by (nonlinear_arith)
            requires
                d * m == k - j,
                0 < k - j < m,
        ;
    }
}

/// A monotonically increasing source of arena tags. Arenas made from one
/// counter carry distinct tags until the count wraps.
pub struct InstanceCounter {
    next: usize,
}

impl InstanceCounter {
    /// The tag that the next arena made from this counter receives.
    pub closed spec fn next_tag(&self) -> usize {
        self.next
    }

    pub fn new() -> (r: InstanceCounter)
        ensures
            r.next_tag() == 0,
    {
        InstanceCounter { next: 0 }
    }

    /// Hands out the current tag and advances the counter.
    pub fn issue(&mut self) -> (r: usize)
        ensures
            r == old(self).next_tag(),
            final(self).next_tag() == tag_after(old(self).next_tag()),
    {
        let t = self.next;
        self.next = if t == usize::MAX { 0 } else { t + 1 };
        t
    }
}

} // verus!
