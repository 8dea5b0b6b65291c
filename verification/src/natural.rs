//! Exact arithmetic for scores and thresholds.
//!
//! Similarities are compared with thresholds as fractions, by
//! cross-multiplication. The products may exceed a machine word, so they are
//! computed on [`Natural`], a number of any size.

use vstd::prelude::*;

verus! {

/// One more than the largest limb.
pub open spec fn base() -> nat {
    0x1_0000_0000
}

/// The number whose limbs, least significant first, are `s`.
pub open spec fn limbs_value(s: Seq<u32>) -> nat
    decreases s.len(),
{
    if s.len() == 0 {
        0
    } else {
        s[0] as nat + base() * limbs_value(s.skip(1))
    }
}

/// A natural number of any size.
#[derive(Debug)]
pub struct Natural {
    limbs: Vec<u32>,
}

impl View for Natural {
    type V = nat;

    closed spec fn view(&self) -> nat {
        limbs_value(self.limbs@)
    }
}

proof fn lemma_front(low: u32, rest: Seq<u32>)
    ensures
        limbs_value(rest.insert(0, low)) == low as nat + base() * limbs_value(rest),
{
    assert(rest.insert(0, low).skip(1) =~= rest);
}

proof fn lemma_skip(s: Seq<u32>, i: int)
    requires
        0 <= i <= s.len(),
    ensures
        i < s.len() ==> limbs_value(s.skip(i)) == s[i] as nat + base() * limbs_value(s.skip(i + 1)),
        i == s.len() ==> limbs_value(s.skip(i)) == 0,
{
    if i < s.len() {
        assert(s.skip(i).skip(1) =~= s.skip(i + 1));
    }
}

fn limb_at(s: &Vec<u32>, i: usize) -> (l: u32)
    ensures
        l == if i < s.len() { s@[i as int] } else { 0 },
{
    if i < s.len() {
        s[i]
    } else {
        0
    }
}

/// The value of the limbs from `i` on.
spec fn tail_value(s: Seq<u32>, i: int) -> nat {
    if i < s.len() { limbs_value(s.skip(i)) } else { 0 }
}

proof fn lemma_tail(s: Seq<u32>, i: int)
    requires
        0 <= i,
    ensures
        tail_value(s, i) == (if i < s.len() { s[i] as nat } else { 0 }) + base() * tail_value(
            s,
            i + 1,
        ),
{
    if i < s.len() {
        lemma_skip(s, i);
        lemma_skip(s, i + 1);
    }
}

fn limbs_of(n: u128) -> (v: Vec<u32>)
    ensures
        limbs_value(v@) == n,
    decreases n,
{
    if n == 0 {
        Vec::new()
    } else {
        let mut v: Vec<u32> = limbs_of(n / 0x1_0000_0000);
        let low: u32 = (n % 0x1_0000_0000) as u32;
        proof {
            lemma_front(low, v@);
        }
        v.insert(0, low);
        v
    }
}

fn add_from(a: &Vec<u32>, b: &Vec<u32>, i: usize, carry: u32) -> (v: Vec<u32>)
    requires
        carry <= 1,
        i <= a.len() || i <= b.len(),
    ensures
        limbs_value(v@) == tail_value(a@, i as int) + tail_value(b@, i as int) + carry,
    decreases a.len() + b.len() - i,
{
    if i >= a.len() && i >= b.len() {
        let mut v: Vec<u32> = Vec::new();
        if carry > 0 {
            proof {
                lemma_front(carry, v@);
                assert(v@.push(carry) =~= v@.insert(0, carry));
            }
            v.push(carry);
        }
        v
    } else {
        let sum: u64 = limb_at(a, i) as u64 + limb_at(b, i) as u64 + carry as u64;
        let mut v: Vec<u32> = add_from(a, b, i + 1, (sum / 0x1_0000_0000) as u32);
        let low: u32 = (sum % 0x1_0000_0000) as u32;
        proof {
            lemma_tail(a@, i as int);
            lemma_tail(b@, i as int);
            lemma_front(low, v@);
        }
        v.insert(0, low);
        v
    }
}

fn scale_from(a: &Vec<u32>, m: u32, i: usize, carry: u32) -> (v: Vec<u32>)
    requires
        i <= a.len(),
    ensures
        limbs_value(v@) == tail_value(a@, i as int) * m + carry,
    decreases a.len() - i,
{
    if i == a.len() {
        let mut v: Vec<u32> = Vec::new();
        proof {
            lemma_front(carry, v@);
            assert(v@.push(carry) =~= v@.insert(0, carry));
        }
        v.push(carry);
        v
    } else {
        let limb: u32 = a[i];
        assert(limb * m <= 0xffff_ffff * 0xffff_ffff) by (nonlinear_arith)
            requires
                0 <= limb <= 0xffff_ffff,
                0 <= m <= 0xffff_ffff,
        ;
        let sum: u64 = limb as u64 * m as u64 + carry as u64;
        let mut v: Vec<u32> = scale_from(a, m, i + 1, (sum / 0x1_0000_0000) as u32);
        let low: u32 = (sum % 0x1_0000_0000) as u32;
        proof {
            lemma_tail(a@, i as int);
            lemma_front(low, v@);
            let rest = tail_value(a@, i + 1);
            assert((limb + base() * rest) * m == limb * m + base() * (rest * m)) by (nonlinear_arith);
            let high = (sum / 0x1_0000_0000) as nat;
            assert(base() * (rest * m + high) == base() * (rest * m) + base() * high)
                by (nonlinear_arith);
        }
        v.insert(0, low);
        v
    }
}

fn mul_from(a: &Vec<u32>, b: &Vec<u32>, j: usize) -> (v: Vec<u32>)
    requires
        j <= b.len(),
    ensures
        limbs_value(v@) == limbs_value(a@) * tail_value(b@, j as int),
    decreases b.len() - j,
{
    if j == b.len() {
        let v: Vec<u32> = Vec::new();
        assert(limbs_value(a@) * 0 == 0);
        v
    } else {
        let mut rest: Vec<u32> = mul_from(a, b, j + 1);
        proof {
            lemma_front(0, rest@);
        }
        let ghost tail = tail_value(b@, j + 1);
        rest.insert(0, 0);
        let row: Vec<u32> = scale_from(a, b[j], 0, 0);
        proof {
            lemma_tail(b@, j as int);
            assert(a@.skip(0) =~= a@);
            assert(tail_value(a@, 0) == limbs_value(a@));
            let limb = b@[j as int] as nat;
            let av = limbs_value(a@);
            assert(av * (limb + base() * tail) == av * limb + base() * (av * tail))
                by (nonlinear_arith);
            assert(tail_value(row@, 0) == limbs_value(row@)) by {
                assert(row@.skip(0) =~= row@);
            }
            assert(tail_value(rest@, 0) == limbs_value(rest@)) by {
                assert(rest@.skip(0) =~= rest@);
            }
        }
        add_from(&row, &rest, 0, 0)
    }
}

fn sub_from(a: &Vec<u32>, b: &Vec<u32>, i: usize, borrow: u32) -> (v: Vec<u32>)
    requires
        borrow <= 1,
        i <= a.len(),
        tail_value(a@, i as int) >= tail_value(b@, i as int) + borrow,
    ensures
        limbs_value(v@) == tail_value(a@, i as int) - tail_value(b@, i as int) - borrow,
    decreases a.len() - i,
{
    proof {
        lemma_tail(a@, i as int);
        lemma_tail(b@, i as int);
    }
    if i == a.len() {
        Vec::new()
    } else {
        let x: u64 = a[i] as u64;
        let y: u64 = limb_at(b, i) as u64 + borrow as u64;
        let enough: bool = x >= y;
        let low: u32 = if enough { (x - y) as u32 } else { (x + 0x1_0000_0000 - y) as u32 };
        let mut v: Vec<u32> = sub_from(a, b, i + 1, if enough { 0 } else { 1 });
        proof {
            lemma_front(low, v@);
        }
        v.insert(0, low);
        v
    }
}

/// `1`, `0` or `-1` as `a` is greater than, equal to or less than `b`, from limb `i` on.
fn order_from(a: &Vec<u32>, b: &Vec<u32>, i: usize) -> (r: i8)
    requires
        i <= a.len() || i <= b.len(),
    ensures
        r == 1 <==> tail_value(a@, i as int) > tail_value(b@, i as int),
        r == 0 <==> tail_value(a@, i as int) == tail_value(b@, i as int),
        -1 <= r <= 1,
    decreases a.len() + b.len() - i,
{
    if i >= a.len() && i >= b.len() {
        0
    } else {
        let high: i8 = order_from(a, b, i + 1);
        let x: u32 = limb_at(a, i);
        let y: u32 = limb_at(b, i);
        proof {
            lemma_tail(a@, i as int);
            lemma_tail(b@, i as int);
        }
        if high != 0 {
            high
        } else if x > y {
            1
        } else if x == y {
            0
        } else {
            -1
        }
    }
}

impl Clone for Natural {
    fn clone(&self) -> (r: Self)
        ensures
            r@ == self@,
    {
        Natural { limbs: self.limbs.clone() }
    }
}

impl Natural {
    /// The number `n`.
    pub fn new(n: u128) -> (r: Self)
        ensures
            r@ == n,
    {
        Natural { limbs: limbs_of(n) }
    }

    /// The sum of two numbers.
    pub fn plus(&self, other: &Natural) -> (r: Self)
        ensures
            r@ == self@ + other@,
    {
        proof {
            assert(self.limbs@.skip(0) =~= self.limbs@);
            assert(other.limbs@.skip(0) =~= other.limbs@);
        }
        Natural { limbs: add_from(&self.limbs, &other.limbs, 0, 0) }
    }

    /// The difference of two numbers, the second not greater than the first.
    pub fn minus(&self, other: &Natural) -> (r: Self)
        requires
            self@ >= other@,
        ensures
            r@ == self@ - other@,
    {
        proof {
            assert(self.limbs@.skip(0) =~= self.limbs@);
            assert(other.limbs@.skip(0) =~= other.limbs@);
        }
        Natural { limbs: sub_from(&self.limbs, &other.limbs, 0, 0) }
    }

    /// The product of two numbers.
    pub fn times(&self, other: &Natural) -> (r: Self)
        ensures
            r@ == self@ * other@,
    {
        proof {
            assert(other.limbs@.skip(0) =~= other.limbs@);
        }
        Natural { limbs: mul_from(&self.limbs, &other.limbs, 0) }
    }

    /// The limbs of the number, base two to the 32nd, least significant first.
    pub fn limbs(&self) -> (r: &Vec<u32>)
        ensures
            limbs_value(r@) == self@,
    {
        &self.limbs
    }

    /// Whether this number is at least `other`.
    pub fn at_least(&self, other: &Natural) -> (b: bool)
        ensures
            b == (self@ >= other@),
    {
        proof {
            assert(self.limbs@.skip(0) =~= self.limbs@);
            assert(other.limbs@.skip(0) =~= other.limbs@);
        }
        order_from(&self.limbs, &other.limbs, 0) >= 0
    }
}

/// A fraction `num / den`.
#[derive(Debug, Clone, Copy, PartialEq, Eq, Structural)]
pub struct Ratio {
    pub num: u128,
    pub den: u128,
}

impl Ratio {
    /// `self >= other` as fractions, by cross-multiplication.
    pub open spec fn spec_at_least(self, other: Ratio) -> bool {
        self.num * other.den >= other.num * self.den
    }

    /// The fraction `num / den`.
    pub fn new(num: u128, den: u128) -> (r: Self)
        ensures
            r == (Ratio { num, den }),
    {
        Ratio { num, den }
    }

    /// Whether this fraction is at least `other`.
    pub fn at_least(&self, other: &Ratio) -> (b: bool)
        ensures
            b == self.spec_at_least(*other),
    {
        let lhs: Natural = Natural::new(self.num).times(&Natural::new(other.den));
        let rhs: Natural = Natural::new(other.num).times(&Natural::new(self.den));
        lhs.at_least(&rhs)
    }
}

} // verus!
