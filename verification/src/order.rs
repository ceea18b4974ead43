//! The natural order of identifiers.
//!
//! Identifiers are compared through their UTF-8 bytes. In the natural order
//! a run of decimal digits counts as the number it denotes, so that `ep2`
//! comes before `ep10`.

use vstd::prelude::*;
use vstd::utf8::encode_utf8;

verus! {

/// The outcome of a three-way comparison.
#[derive(Clone, Copy, Debug, PartialEq, Eq, Structural)]
pub enum Order {
    Less,
    Equal,
    Greater,
}

/// `a` and `b` hold the same bytes at every index below `k`.
pub open spec fn agree_below(a: Seq<u8>, b: Seq<u8>, k: int) -> bool {
    &&& 0 <= k <= a.len()
    &&& k <= b.len()
    &&& forall|n: int| 0 <= n < k ==> a[n] == b[n]
}

/// Whether `s` begins with the bytes of `prefix`.
pub fn has_prefix(s: &[u8], prefix: &[u8]) -> (yes: bool)
    ensures
        yes == prefix@.is_prefix_of(s@),
{
    if prefix.len() > s.len() {
        return false;
    }
    let mut i: usize = 0;
    while i < prefix.len()
        invariant
            prefix@.len() <= s@.len(),
            i <= prefix@.len(),
            forall|n: int| 0 <= n < i ==> prefix@[n] == s@[n],
        decreases prefix.len() - i,
    {
        if prefix[i] != s[i] {
            assert(s@.subrange(0, prefix@.len() as int)[i as int] != prefix@[i as int]);
            return false;
        }
        i += 1;
    }
    assert(s@.subrange(0, prefix@.len() as int) =~= prefix@);
    true
}

/// Whether `b` is an ASCII decimal digit.
pub open spec fn is_digit(b: u8) -> bool {
    0x30 <= b <= 0x39
}

/// The value of a decimal digit; zero for any other byte.
pub open spec fn digit_value(b: u8) -> nat {
    if is_digit(b) {
        (b - 0x30) as nat
    } else {
        0
    }
}

/// The number that a string of decimal digits denotes.
pub open spec fn decimal_value(s: Seq<u8>) -> nat
    decreases s.len(),
{
    if s.len() == 0 {
        0
    } else {
        decimal_value(s.drop_last()) * 10 + digit_value(s.last())
    }
}

/// Where the run of digits that starts at index `i` of `s` ends: the first
/// index from `i` on that holds no digit, or the length of `s`.
pub open spec fn run_end(s: Seq<u8>, i: int) -> int
    decreases s.len() - i,
{
    if 0 <= i < s.len() && is_digit(s[i]) {
        run_end(s, i + 1)
    } else {
        i
    }
}

/// A run of digits ends within the string, and past its first digit.
pub proof fn lemma_run_end_bounds(s: Seq<u8>, i: int)
    requires
        0 <= i <= s.len(),
    ensures
        i <= run_end(s, i) <= s.len(),
        i < s.len() && is_digit(s[i]) ==> i < run_end(s, i),
        digits_between(s, i, run_end(s, i)),
        run_end(s, i) == s.len() || !is_digit(s[run_end(s, i)]),
    decreases s.len() - i,
{
    if i < s.len() && is_digit(s[i]) {
        lemma_run_end_bounds(s, i + 1);
    }
}

/// The natural order of `a` from index `i` on against `b` from index `j` on.
///
/// Where both hold a digit, the two runs of digits are compared as numbers;
/// if the numbers are equal the shorter run, the one with fewer leading
/// zeros, comes first. Otherwise the two bytes are compared. The first
/// difference decides, and a string that ends first comes first.
pub open spec fn natural_order_from(a: Seq<u8>, i: int, b: Seq<u8>, j: int) -> Order
    decreases a.len() - i,
{
    if i < 0 || j < 0 {
        Order::Equal
    } else if i >= a.len() {
        if j >= b.len() {
            Order::Equal
        } else {
            Order::Less
        }
    } else if j >= b.len() {
        Order::Greater
    } else if is_digit(a[i]) && is_digit(b[j]) {
        let ie = run_end(a, i);
        let je = run_end(b, j);
        let x = decimal_value(a.subrange(i, ie));
        let y = decimal_value(b.subrange(j, je));
        if x < y {
            Order::Less
        } else if x > y {
            Order::Greater
        } else if ie - i < je - j {
            Order::Less
        } else if ie - i > je - j {
            Order::Greater
        } else {
            proof {
                lemma_run_end_bounds(a, i);
            }
            natural_order_from(a, ie, b, je)
        }
    } else if a[i] < b[j] {
        Order::Less
    } else if a[i] > b[j] {
        Order::Greater
    } else {
        natural_order_from(a, i + 1, b, j + 1)
    }
}

/// The natural order of two byte strings.
pub open spec fn natural_order(a: Seq<u8>, b: Seq<u8>) -> Order {
    natural_order_from(a, 0, b, 0)
}

/// Every byte of `s` from `i` up to `e` is a digit.
pub open spec fn digits_between(s: Seq<u8>, i: int, e: int) -> bool {
    &&& 0 <= i <= e <= s.len()
    &&& forall|n: int| i <= n < e ==> is_digit(#[trigger] s[n])
}

spec fn pow10(k: nat) -> nat
    decreases k,
{
    if k == 0 {
        1
    } else {
        10 * pow10((k - 1) as nat)
    }
}

proof fn lemma_pow10_monotone(k: nat, m: nat)
    requires
        k <= m,
    ensures
        pow10(k) <= pow10(m),
    decreases m,
{
    if k < m {
        lemma_pow10_monotone(k, (m - 1) as nat);
    }
}

/// A run of digits ends at `e` when digits lead up to `e` and none stands at `e`.
proof fn lemma_run_end(s: Seq<u8>, i: int, e: int)
    requires
        digits_between(s, i, e),
        e == s.len() || !is_digit(s[e]),
    ensures
        run_end(s, i) == e,
    decreases e - i,
{
    if i < e {
        lemma_run_end(s, i + 1, e);
    }
}

/// Leading zeros do not change the number.
proof fn lemma_leading_zeros(s: Seq<u8>, z: int)
    requires
        0 <= z <= s.len(),
        forall|n: int| 0 <= n < z ==> s[n] == 0x30,
    ensures
        decimal_value(s) == decimal_value(s.subrange(z, s.len() as int)),
    decreases s.len(),
{
    let tail = s.subrange(z, s.len() as int);
    if z == s.len() {
        if s.len() > 0 {
            lemma_leading_zeros(s.drop_last(), z - 1);
            assert(s.drop_last().subrange(z - 1, s.len() - 1).len() == 0);
        }
    } else {
        lemma_leading_zeros(s.drop_last(), z);
        assert(tail.drop_last() =~= s.drop_last().subrange(z, s.len() - 1));
        assert(tail.last() == s.last());
    }
}

/// A string of `n` digits denotes a number below `10^n`, and one of at least
/// `10^(n-1)` if it does not start with a zero.
proof fn lemma_value_bounds(s: Seq<u8>)
    requires
        digits_between(s, 0, s.len() as int),
    ensures
        decimal_value(s) < pow10(s.len()),
        s.len() > 0 && s[0] != 0x30 ==> decimal_value(s) >= pow10((s.len() - 1) as nat),
    decreases s.len(),
{
    if s.len() > 0 {
        let init = s.drop_last();
        assert(is_digit(s[s.len() - 1]));
        lemma_value_bounds(init);
        if s.len() > 1 {
            assert(init[0] == s[0]);
        }
    }
}

/// Of two strings of digits of one length, the one with the smaller digit at
/// the first difference denotes the smaller number.
proof fn lemma_first_difference(s: Seq<u8>, t: Seq<u8>, p: int)
    requires
        s.len() == t.len(),
        digits_between(s, 0, s.len() as int),
        digits_between(t, 0, t.len() as int),
        agree_below(s, t, p),
        p < s.len(),
        s[p] < t[p],
    ensures
        decimal_value(s) < decimal_value(t),
    decreases s.len(),
{
    let n = s.len() - 1;
    assert(is_digit(s[n]) && is_digit(t[n]));
    if p == n {
        assert(s.drop_last() =~= t.drop_last());
    } else {
        assert(s.drop_last()[p] == s[p] && t.drop_last()[p] == t[p]);
        lemma_first_difference(s.drop_last(), t.drop_last(), p);
    }
}

/// How two numbers stand to each other.
pub open spec fn order_of(x: nat, y: nat) -> Order {
    if x < y {
        Order::Less
    } else if x > y {
        Order::Greater
    } else {
        Order::Equal
    }
}

/// Finds the end of the run of digits that starts at `i`.
fn digit_run_end(s: &[u8], i: usize) -> (e: usize)
    requires
        i <= s@.len(),
    ensures
        e == run_end(s@, i as int),
        i <= e <= s@.len(),
        digits_between(s@, i as int, e as int),
{
    let mut e: usize = i;
    while e < s.len() && s[e] >= 0x30 && s[e] <= 0x39
        invariant
            digits_between(s@, i as int, e as int),
        decreases s.len() - e,
    {
        e += 1;
    }
    proof {
        lemma_run_end(s@, i as int, e as int);
    }
    e
}

/// Finds the first digit of the run from `i` to `e` that is not a zero.
fn skip_zeros(s: &[u8], i: usize, e: usize) -> (z: usize)
    requires
        i <= e <= s@.len(),
    ensures
        i <= z <= e,
        forall|n: int| i <= n < z ==> s@[n] == 0x30,
        z == e || s@[z as int] != 0x30,
{
    let mut z: usize = i;
    while z < e && s[z] == 0x30
        invariant
            i <= z <= e <= s@.len(),
            forall|n: int| i <= n < z ==> s@[n] == 0x30,
        decreases e - z,
    {
        z += 1;
    }
    z
}

/// Compares the numbers that two runs of digits denote, however long the
/// runs are: without their leading zeros the longer one is the greater, and
/// two of one length compare digit by digit.
fn compare_runs(a: &[u8], i: usize, ie: usize, b: &[u8], j: usize, je: usize) -> (o: Order)
    requires
        digits_between(a@, i as int, ie as int),
        digits_between(b@, j as int, je as int),
    ensures
        o == order_of(
            decimal_value(a@.subrange(i as int, ie as int)),
            decimal_value(b@.subrange(j as int, je as int)),
        ),
{
    let iz = skip_zeros(a, i, ie);
    let jz = skip_zeros(b, j, je);
    let ghost sa = a@.subrange(i as int, ie as int);
    let ghost sb = b@.subrange(j as int, je as int);
    let ghost ta = a@.subrange(iz as int, ie as int);
    let ghost tb = b@.subrange(jz as int, je as int);
    proof {
        lemma_leading_zeros(sa, iz - i);
        lemma_leading_zeros(sb, jz - j);
        assert(sa.subrange(iz - i, sa.len() as int) =~= ta);
        assert(sb.subrange(jz - j, sb.len() as int) =~= tb);
        lemma_value_bounds(ta);
        lemma_value_bounds(tb);
    }
    let la: usize = ie - iz;
    let lb: usize = je - jz;
    if la < lb {
        proof {
            lemma_pow10_monotone(la as nat, (lb - 1) as nat);
        }
        return Order::Less;
    }
    if la > lb {
        proof {
            lemma_pow10_monotone(lb as nat, (la - 1) as nat);
        }
        return Order::Greater;
    }
    let mut k: usize = 0;
    while k < la
        invariant
            la == lb,
            la == ie - iz,
            lb == je - jz,
            iz <= ie <= a@.len(),
            jz <= je <= b@.len(),
            ta == a@.subrange(iz as int, ie as int),
            tb == b@.subrange(jz as int, je as int),
            decimal_value(a@.subrange(i as int, ie as int)) == decimal_value(ta),
            decimal_value(b@.subrange(j as int, je as int)) == decimal_value(tb),
            digits_between(ta, 0, ta.len() as int),
            digits_between(tb, 0, tb.len() as int),
            k <= la,
            agree_below(ta, tb, k as int),
        decreases la - k,
    {
        let x: u8 = a[iz + k];
        let y: u8 = b[jz + k];
        if x < y {
            proof {
                lemma_first_difference(ta, tb, k as int);
            }
            return Order::Less;
        }
        if x > y {
            proof {
                lemma_first_difference(tb, ta, k as int);
            }
            return Order::Greater;
        }
        k += 1;
    }
    assert(ta =~= tb);
    Order::Equal
}

/// Compares two byte strings in the natural order.
pub fn human_order_bytes(a: &[u8], b: &[u8]) -> (o: Order)
    ensures
        o == natural_order(a@, b@),
{
    let mut i: usize = 0;
    let mut j: usize = 0;
    loop
        invariant
            i <= a@.len(),
            j <= b@.len(),
            natural_order(a@, b@) == natural_order_from(a@, i as int, b@, j as int),
        decreases a@.len() - i,
    {
        if i >= a.len() {
            if j >= b.len() {
                return Order::Equal;
            }
            return Order::Less;
        }
        if j >= b.len() {
            return Order::Greater;
        }
        let x: u8 = a[i];
        let y: u8 = b[j];
        if x >= 0x30 && x <= 0x39 && y >= 0x30 && y <= 0x39 {
            let ie = digit_run_end(a, i);
            let je = digit_run_end(b, j);
            proof {
                lemma_run_end_bounds(a@, i as int);
            }
            match compare_runs(a, i, ie, b, j, je) {
                Order::Less => {
                    return Order::Less;
                },
                Order::Greater => {
                    return Order::Greater;
                },
                Order::Equal => {},
            }
            if ie - i < je - j {
                return Order::Less;
            }
            if ie - i > je - j {
                return Order::Greater;
            }
            i = ie;
            j = je;
        } else if x < y {
            return Order::Less;
        } else if x > y {
            return Order::Greater;
        } else {
            i += 1;
            j += 1;
        }
    }
}

/// Compares two strings in the natural order of their UTF-8 bytes.
pub fn human_order(l: &str, r: &str) -> (o: Order)
    ensures
        o == natural_order(encode_utf8(l@), encode_utf8(r@)),
{
    human_order_bytes(l.as_bytes(), r.as_bytes())
}

impl Order {
    /// The outcome with the two sides exchanged.
    pub open spec fn flipped(self) -> Order {
        match self {
            Order::Less => Order::Greater,
            Order::Equal => Order::Equal,
            Order::Greater => Order::Less,
        }
    }
}

/// Two strings of digits of one length that denote one number are the same.
proof fn lemma_same_number(s: Seq<u8>, t: Seq<u8>)
    requires
        s.len() == t.len(),
        digits_between(s, 0, s.len() as int),
        digits_between(t, 0, t.len() as int),
        decimal_value(s) == decimal_value(t),
    ensures
        s == t,
    decreases s.len(),
{
    if s.len() > 0 {
        let n = s.len() - 1;
        assert(is_digit(s[n]) && is_digit(t[n]));
        assert forall|k: int| 0 <= k < n implies is_digit(#[trigger] s.drop_last()[k]) && is_digit(
            t.drop_last()[k],
        ) by {
            assert(is_digit(s[k]) && is_digit(t[k]));
        }
        lemma_same_number(s.drop_last(), t.drop_last());
        assert(s =~= s.drop_last().push(s[n]));
        assert(t =~= t.drop_last().push(t[n]));
    } else {
        assert(s =~= t);
    }
}

/// Exchanging the two sides exchanges `Less` and `Greater`.
pub proof fn lemma_natural_order_flip_from(a: Seq<u8>, i: int, b: Seq<u8>, j: int)
    requires
        0 <= i <= a.len(),
        0 <= j <= b.len(),
    ensures
        natural_order_from(b, j, a, i) == natural_order_from(a, i, b, j).flipped(),
    decreases a.len() - i,
{
    if i < a.len() && j < b.len() {
        if is_digit(a[i]) && is_digit(b[j]) {
            lemma_run_end_bounds(a, i);
            lemma_run_end_bounds(b, j);
            lemma_natural_order_flip_from(a, run_end(a, i), b, run_end(b, j));
        } else if a[i] == b[j] {
            lemma_natural_order_flip_from(a, i + 1, b, j + 1);
        }
    }
}

/// Two strings that compare equal from some point on are the same from
/// there on.
pub proof fn lemma_natural_order_equal_from(a: Seq<u8>, i: int, b: Seq<u8>, j: int)
    requires
        0 <= i <= a.len(),
        0 <= j <= b.len(),
        natural_order_from(a, i, b, j) == Order::Equal,
    ensures
        a.skip(i) == b.skip(j),
    decreases a.len() - i,
{
    if i < a.len() && j < b.len() {
        if is_digit(a[i]) && is_digit(b[j]) {
            let ie = run_end(a, i);
            let je = run_end(b, j);
            lemma_run_end_bounds(a, i);
            lemma_run_end_bounds(b, j);
            lemma_natural_order_equal_from(a, ie, b, je);
            lemma_same_number(a.subrange(i, ie), b.subrange(j, je));
            assert(a.skip(i) =~= a.subrange(i, ie) + a.skip(ie));
            assert(b.skip(j) =~= b.subrange(j, je) + b.skip(je));
        } else {
            lemma_natural_order_equal_from(a, i + 1, b, j + 1);
            assert(a.skip(i) =~= seq![a[i]] + a.skip(i + 1));
            assert(b.skip(j) =~= seq![b[j]] + b.skip(j + 1));
        }
    } else {
        assert(a.skip(i) =~= b.skip(j));
    }
}

/// A string compares equal to itself from any point on.
pub proof fn lemma_natural_order_reflexive_from(a: Seq<u8>, i: int)
    requires
        0 <= i <= a.len(),
    ensures
        natural_order_from(a, i, a, i) == Order::Equal,
    decreases a.len() - i,
{
    if i < a.len() {
        if is_digit(a[i]) {
            lemma_run_end_bounds(a, i);
            lemma_natural_order_reflexive_from(a, run_end(a, i));
        } else {
            lemma_natural_order_reflexive_from(a, i + 1);
        }
    }
}

/// The natural order is transitive from any three points on, also where a
/// step may be an equality: what is not after the middle, which is not
/// after the last, is not after the last, and is before it if one of the
/// steps is strict.
pub proof fn lemma_natural_order_transitive_from(
    a: Seq<u8>,
    i: int,
    b: Seq<u8>,
    j: int,
    c: Seq<u8>,
    k: int,
)
    requires
        0 <= i <= a.len(),
        0 <= j <= b.len(),
        0 <= k <= c.len(),
        natural_order_from(a, i, b, j) != Order::Greater,
        natural_order_from(b, j, c, k) != Order::Greater,
    ensures
        natural_order_from(a, i, c, k) != Order::Greater,
        natural_order_from(a, i, b, j) == Order::Less || natural_order_from(b, j, c, k)
            == Order::Less ==> natural_order_from(a, i, c, k) == Order::Less,
    decreases a.len() - i,
{
    if i < a.len() && j < b.len() && k < c.len() {
        let x = a[i];
        let y = b[j];
        let z = c[k];
        if is_digit(x) && is_digit(y) && is_digit(z) {
            lemma_run_end_bounds(a, i);
            lemma_run_end_bounds(b, j);
            lemma_run_end_bounds(c, k);
            let ie = run_end(a, i);
            let je = run_end(b, j);
            let ke = run_end(c, k);
            if decimal_value(a.subrange(i, ie)) == decimal_value(b.subrange(j, je))
                && decimal_value(b.subrange(j, je)) == decimal_value(c.subrange(k, ke)) && ie - i
                == je - j && je - j == ke - k {
                lemma_natural_order_transitive_from(a, ie, b, je, c, ke);
            }
        } else if x == y && y == z {
            lemma_natural_order_transitive_from(a, i + 1, b, j + 1, c, k + 1);
        }
    }
}

/// The natural order is a total order: comparing a string with itself gives
/// `Equal`, only a string compared with itself does, exchanging the sides
/// exchanges `Less` and `Greater`, and the order is transitive.
pub proof fn lemma_natural_order_total(a: Seq<u8>, b: Seq<u8>, c: Seq<u8>)
    ensures
        natural_order(a, a) == Order::Equal,
        natural_order(a, b) == Order::Equal ==> a == b,
        natural_order(b, a) == natural_order(a, b).flipped(),
        natural_order(a, b) != Order::Greater && natural_order(b, c) != Order::Greater
            ==> natural_order(a, c) != Order::Greater,
        natural_order(a, b) == Order::Less && natural_order(b, c) != Order::Greater
            ==> natural_order(a, c) == Order::Less,
        natural_order(a, b) != Order::Greater && natural_order(b, c) == Order::Less
            ==> natural_order(a, c) == Order::Less,
{
    lemma_natural_order_reflexive_from(a, 0);
    lemma_natural_order_flip_from(a, 0, b, 0);
    if natural_order(a, b) == Order::Equal {
        lemma_natural_order_equal_from(a, 0, b, 0);
        assert(a.skip(0) =~= a);
        assert(b.skip(0) =~= b);
    }
    if natural_order(a, b) != Order::Greater && natural_order(b, c) != Order::Greater {
        lemma_natural_order_transitive_from(a, 0, b, 0, c, 0);
    }
}

} // verus!
