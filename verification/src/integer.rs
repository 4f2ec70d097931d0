use vstd::prelude::*;

verus! {

/// The radix of one limb: the magnitude of an [`Integer`] is written in base 2^64,
/// least significant limb first.
#[verifier::inline]
pub open spec fn limb_radix() -> int {
    0x1_0000_0000_0000_0000int
}

/// The limb `s[i]`, or 0 past the end of `s`.
pub open spec fn limb_or_zero(s: Seq<u64>, i: nat) -> nat {
    if i < s.len() {
        s[i as int] as nat
    } else {
        0
    }
}

/// The number that the limbs `s[i..]` stand for.
pub open spec fn magnitude_from(s: Seq<u64>, i: nat) -> nat
    decreases s.len() - i,
{
    if i >= s.len() {
        0
    } else {
        (s[i as int] as nat) + (limb_radix() * magnitude_from(s, i + 1)) as nat
    }
}

/// The number that all the limbs of `s` stand for.
pub open spec fn magnitude(s: Seq<u64>) -> nat {
    magnitude_from(s, 0)
}

/// One limb of positional notation: the value from `i` on is the limb at `i`
/// plus one radix times the value from `i + 1` on.
pub proof fn lemma_magnitude_step(s: Seq<u64>, i: nat)
    ensures
        magnitude_from(s, i) == limb_or_zero(s, i) + limb_radix() * magnitude_from(s, i + 1),
{
    if i >= s.len() {
        assert(magnitude_from(s, i + 1) == 0);
    }
}

/// Two limb sequences that agree from `i` on (reading missing limbs as 0)
/// stand for the same number from `i` on.
pub proof fn lemma_magnitude_agree(a: Seq<u64>, b: Seq<u64>, i: nat)
    requires
        forall|j: nat| j >= i ==> #[trigger] limb_or_zero(a, j) == limb_or_zero(b, j),
    ensures
        magnitude_from(a, i) == magnitude_from(b, i),
    decreases (if a.len() > b.len() { a.len() } else { b.len() }) - i,
{
    if i >= a.len() && i >= b.len() {
    } else {
        lemma_magnitude_agree(a, b, i + 1);
        lemma_magnitude_step(a, i);
        lemma_magnitude_step(b, i);
        assert(limb_or_zero(a, i) == limb_or_zero(b, i));
    }
}

/// A strict inequality between the values from `i` on carries down to every
/// lower starting limb `j`, whatever the limbs below `i` are.
pub proof fn lemma_magnitude_less_below(a: Seq<u64>, b: Seq<u64>, i: nat, j: nat)
    requires
        j <= i,
        magnitude_from(a, i) < magnitude_from(b, i),
    ensures
        magnitude_from(a, j) < magnitude_from(b, j),
    decreases i - j,
{
    if j < i {
        lemma_magnitude_less_below(a, b, i, j + 1);
        lemma_magnitude_step(a, j);
        lemma_magnitude_step(b, j);
        assert(limb_or_zero(a, j) < limb_radix());
    }
}

/// A nonzero value from `i` on makes the value from every lower `j` nonzero.
pub proof fn lemma_magnitude_positive_below(s: Seq<u64>, i: nat, j: nat)
    requires
        j <= i,
        magnitude_from(s, i) > 0,
    ensures
        magnitude_from(s, j) > 0,
{
    let e = Seq::<u64>::empty();
    assert(magnitude_from(e, i) == 0);
    lemma_magnitude_less_below(e, s, i, j);
}

/// A single limb stands for itself.
pub proof fn lemma_magnitude_single(s: Seq<u64>)
    requires
        s.len() == 1,
    ensures
        magnitude(s) == s[0] as nat,
{
    lemma_magnitude_step(s, 0);
    assert(magnitude_from(s, 1) == 0);
}

/// Limbs whose last limb is nonzero stand for a positive number, and for at least
/// one radix when there are two limbs or more.
pub proof fn lemma_magnitude_top_limb(s: Seq<u64>)
    requires
        s.len() > 0,
        s[s.len() - 1] != 0,
    ensures
        magnitude(s) > 0,
        s.len() >= 2 ==> magnitude(s) >= limb_radix(),
{
    let top = (s.len() - 1) as nat;
    lemma_magnitude_step(s, top);
    lemma_magnitude_positive_below(s, top, 0);
    if s.len() >= 2 {
        lemma_magnitude_positive_below(s, top, 1);
        lemma_magnitude_step(s, 0);
    }
}

/// Compares the numbers that two limb vectors stand for: -1, 0 or 1 as the first is
/// below, equal to or above the second.
pub fn compare_magnitudes(a: &Vec<u64>, b: &Vec<u64>) -> (r: i8)
    ensures
        (r == -1) <==> magnitude(a@) < magnitude(b@),
        (r == 0) <==> magnitude(a@) == magnitude(b@),
        (r == 1) <==> magnitude(a@) > magnitude(b@),
{
    let n: usize = if a.len() > b.len() {
        a.len()
    } else {
        b.len()
    };
    let mut i: usize = n;
    proof {
        assert(magnitude_from(a@, n as nat) == 0);
        assert(magnitude_from(b@, n as nat) == 0);
    }
    while i > 0
        invariant
            i <= n,
            n >= a.len(),
            n >= b.len(),
            magnitude_from(a@, i as nat) == magnitude_from(b@, i as nat),
        decreases i,
    {
        i = i - 1;
        let la: u64 = if i < a.len() {
            a[i]
        } else {
            0
        };
        let lb: u64 = if i < b.len() {
            b[i]
        } else {
            0
        };
        proof {
            lemma_magnitude_step(a@, i as nat);
            lemma_magnitude_step(b@, i as nat);
            assert(limb_or_zero(a@, i as nat) == la);
            assert(limb_or_zero(b@, i as nat) == lb);
        }
        if la < lb {
            proof {
                lemma_magnitude_less_below(a@, b@, i as nat, 0);
            }
            return -1;
        }
        if la > lb {
            proof {
                lemma_magnitude_less_below(b@, a@, i as nat, 0);
            }
            return 1;
        }
    }
    0
}

/// A signed integer of any size: a sign and the base-2^64 limbs of its magnitude,
/// least significant first. The representation is canonical: no zero top limb, and
/// zero is never negative, so two values are equal exactly when their fields are.
#[derive(Debug, PartialEq, Eq)]
pub struct Integer {
    negative: bool,
    limbs: Vec<u64>,
}

/// A sign and limbs in canonical form.
pub open spec fn canonical_parts(negative: bool, limbs: Seq<u64>) -> bool {
    &&& limbs.len() == 0 || limbs[limbs.len() - 1] != 0
    &&& negative ==> limbs.len() > 0
}

/// The number that a sign and limbs stand for.
pub open spec fn signed_value(negative: bool, limbs: Seq<u64>) -> int {
    if negative {
        -(magnitude(limbs) as int)
    } else {
        magnitude(limbs) as int
    }
}

impl View for Integer {
    type V = int;

    closed spec fn view(&self) -> int {
        signed_value(self.negative, self.limbs@)
    }
}

impl Clone for Integer {
    fn clone(&self) -> (r: Self)
        ensures
            r@ == self@,
    {
        proof {
            use_type_invariant(self);
        }
        let limbs = self.limbs.clone();
        proof {
            assert(limbs@ =~= self.limbs@);
        }
        Integer { negative: self.negative, limbs }
    }
}

impl Integer {
    #[verifier::type_invariant]
    spec fn is_canonical(self) -> bool {
        canonical_parts(self.negative, self.limbs@)
    }

    /// The integer with the given sign and magnitude limbs (least significant first).
    /// Any limbs are accepted; zero top limbs and a negative sign on zero are dropped.
    pub fn from_parts(negative: bool, limbs: Vec<u64>) -> (r: Integer)
        ensures
            r@ == signed_value(negative, limbs@),
    {
        let mut limbs = limbs;
        let ghost given = limbs@;
        while limbs.len() > 0 && limbs[limbs.len() - 1] == 0
            invariant
                magnitude(limbs@) == magnitude(given),
            decreases limbs.len(),
        {
            let ghost before = limbs@;
            limbs.pop();
            proof {
                assert forall|j: nat| j >= 0 implies #[trigger] limb_or_zero(limbs@, j)
                    == limb_or_zero(before, j) by {}
                lemma_magnitude_agree(limbs@, before, 0);
            }
        }
        let neg = negative && limbs.len() > 0;
        Integer { negative: neg, limbs }
    }

    /// The sign and the canonical magnitude limbs (least significant first).
    pub fn to_parts(&self) -> (r: (bool, Vec<u64>))
        ensures
            signed_value(r.0, r.1@) == self@,
            canonical_parts(r.0, r.1@),
    {
        proof {
            use_type_invariant(self);
        }
        let limbs = self.limbs.clone();
        proof {
            assert(limbs@ =~= self.limbs@);
        }
        (self.negative, limbs)
    }

    /// The integer equal to `v`.
    pub fn from_u64(v: u64) -> (r: Integer)
        ensures
            r@ == v as int,
    {
        if v == 0 {
            Integer { negative: false, limbs: Vec::new() }
        } else {
            let limbs = vec![v];
            proof {
                lemma_magnitude_single(limbs@);
            }
            Integer { negative: false, limbs }
        }
    }

    /// The integer equal to `v`.
    pub fn from_i64(v: i64) -> (r: Integer)
        ensures
            r@ == v as int,
    {
        if v >= 0 {
            Integer::from_u64(v as u64)
        } else {
            let m: u64 = (0i128 - (v as i128)) as u64;
            let limbs = vec![m];
            proof {
                lemma_magnitude_single(limbs@);
            }
            Integer { negative: true, limbs }
        }
    }

    /// The integer equal to `v`.
    pub fn from_usize(v: usize) -> (r: Integer)
        ensures
            r@ == v as int,
    {
        Integer::from_u64(v as u64)
    }

    /// The integer equal to `v`.
    pub fn from_i32(v: i32) -> (r: Integer)
        ensures
            r@ == v as int,
    {
        Integer::from_i64(v as i64)
    }

    /// Compares two integers: -1, 0 or 1 as `self` is below, equal to or above `other`.
    pub fn compare(&self, other: &Integer) -> (r: i8)
        ensures
            (r == -1) <==> self@ < other@,
            (r == 0) <==> self@ == other@,
            (r == 1) <==> self@ > other@,
    {
        proof {
            use_type_invariant(self);
            use_type_invariant(other);
            if self.negative {
                lemma_magnitude_top_limb(self.limbs@);
            }
            if other.negative {
                lemma_magnitude_top_limb(other.limbs@);
            }
        }
        let c = compare_magnitudes(&self.limbs, &other.limbs);
        if !self.negative && !other.negative {
            c
        } else if self.negative && other.negative {
            0 - c
        } else if self.negative {
            -1
        } else {
            1
        }
    }

    /// Whether `self` and `other` are the same number.
    pub fn equals(&self, other: &Integer) -> (r: bool)
        ensures
            r == (self@ == other@),
    {
        self.compare(other) == 0
    }

    /// Whether `self` is greater than or equal to `other`.
    pub fn greater_or_equal(&self, other: &Integer) -> (r: bool)
        ensures
            r == (self@ >= other@),
    {
        self.compare(other) != -1
    }

    /// Whether `self` is strictly greater than `other`.
    pub fn greater_than(&self, other: &Integer) -> (r: bool)
        ensures
            r == (self@ > other@),
    {
        self.compare(other) == 1
    }

    /// Whether `self` is below 0.
    pub fn is_negative(&self) -> (r: bool)
        ensures
            r == (self@ < 0),
    {
        proof {
            use_type_invariant(self);
            if self.negative {
                lemma_magnitude_top_limb(self.limbs@);
            }
        }
        self.negative
    }

    /// Whether `self` is above 0.
    pub fn is_positive(&self) -> (r: bool)
        ensures
            r == (self@ > 0),
    {
        proof {
            use_type_invariant(self);
            if self.limbs.len() > 0 {
                lemma_magnitude_top_limb(self.limbs@);
            } else {
                assert(magnitude(self.limbs@) == 0);
            }
        }
        !self.negative && self.limbs.len() > 0
    }

    /// `self` as a `usize`, where it lies between 0 and `usize::MAX`.
    pub fn to_usize(&self) -> (r: Option<usize>)
        ensures
            r == (if 0 <= self@ <= usize::MAX {
                Some(self@ as usize)
            } else {
                None::<usize>
            }),
    {
        proof {
            use_type_invariant(self);
            if self.limbs.len() > 0 {
                lemma_magnitude_top_limb(self.limbs@);
            } else {
                assert(magnitude(self.limbs@) == 0);
            }
            if self.limbs.len() == 1 {
                lemma_magnitude_single(self.limbs@);
            }
        }
        if self.negative {
            None
        } else if self.limbs.len() == 0 {
            Some(0)
        } else if self.limbs.len() == 1 && self.limbs[0] <= usize::MAX as u64 {
            Some(self.limbs[0] as usize)
        } else {
            None
        }
    }

    /// `self` as an `i32`, where it lies between `i32::MIN` and `i32::MAX`.
    pub fn to_i32(&self) -> (r: Option<i32>)
        ensures
            r == (if i32::MIN <= self@ <= i32::MAX {
                Some(self@ as i32)
            } else {
                None::<i32>
            }),
    {
        proof {
            use_type_invariant(self);
            if self.limbs.len() > 0 {
                lemma_magnitude_top_limb(self.limbs@);
            } else {
                assert(magnitude(self.limbs@) == 0);
            }
            if self.limbs.len() == 1 {
                lemma_magnitude_single(self.limbs@);
            }
        }
        if self.limbs.len() == 0 {
            Some(0)
        } else if self.limbs.len() == 1 {
            let m = self.limbs[0];
            if !self.negative && m <= 0x7fff_ffff {
                Some(m as i32)
            } else if self.negative && m <= 0x8000_0000 {
                Some((0i64 - (m as i64)) as i32)
            } else {
                None
            }
        } else {
            None
        }
    }
}

} // verus!
