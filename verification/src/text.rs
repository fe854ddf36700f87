//! Decimal digit sequences and small string helpers shared by the version
//! parser, the resolver and the streaming progress decoder.

use vstd::prelude::*;

verus! {

/// Every element is a digit value, `0` through `9`.
pub open spec fn is_digit_seq(s: Seq<u8>) -> bool {
    forall|i: int| 0 <= i < s.len() ==> s[i] < 10
}

/// Numeric value of a big-endian sequence of digit values.
pub open spec fn dec_val(s: Seq<u8>) -> int
    decreases s.len(),
{
    if s.len() == 0 {
        0
    } else {
        dec_val(s.drop_last()) * 10 + s.last()
    }
}

pub open spec fn pow10(n: nat) -> int
    decreases n,
{
    if n == 0 {
        1
    } else {
        10 * pow10((n - 1) as nat)
    }
}

pub proof fn lemma_pow10_pos(n: nat)
    ensures
        pow10(n) >= 1,
    decreases n,
{
    if n > 0 {
        lemma_pow10_pos((n - 1) as nat);
    }
}

pub proof fn lemma_pow10_mono(m: nat, n: nat)
    requires
        m <= n,
    ensures
        pow10(m) <= pow10(n),
    decreases n,
{
    if m < n {
        lemma_pow10_mono(m, (n - 1) as nat);
        lemma_pow10_pos((n - 1) as nat);
    }
}

pub proof fn lemma_dec_val_nonneg(s: Seq<u8>)
    ensures
        dec_val(s) >= 0,
    decreases s.len(),
{
    if s.len() > 0 {
        lemma_dec_val_nonneg(s.drop_last());
    }
}

/// A digit sequence is worth less than `10^len`.
pub proof fn lemma_dec_val_upper(s: Seq<u8>)
    requires
        is_digit_seq(s),
    ensures
        dec_val(s) < pow10(s.len()),
    decreases s.len(),
{
    if s.len() > 0 {
        lemma_dec_val_upper(s.drop_last());
    }
}

/// A digit sequence with a nonzero leading digit is worth at least
/// `10^(len-1)`.
pub proof fn lemma_dec_val_lower(s: Seq<u8>)
    requires
        is_digit_seq(s),
        s.len() > 0,
        s[0] != 0,
    ensures
        dec_val(s) >= pow10((s.len() - 1) as nat),
    decreases s.len(),
{
    if s.len() > 1 {
        let d = s.drop_last();
        assert(d[0] == s[0]);
        lemma_dec_val_lower(d);
        lemma_dec_val_nonneg(d);
        assert(pow10((s.len() - 1) as nat) == 10 * pow10((s.len() - 2) as nat));
        assert(dec_val(d) * 10 >= pow10((s.len() - 2) as nat) * 10);
        assert(dec_val(s) == dec_val(d) * 10 + s.last());
    } else {
        assert(dec_val(s) == dec_val(s.drop_last()) * 10 + s.last());
        assert(s.drop_last() =~= Seq::<u8>::empty());
        assert(dec_val(Seq::<u8>::empty()) == 0);
    }
}

/// Extending a digit sequence to the right never lowers its value.
pub proof fn lemma_dec_val_prefix_le(s: Seq<u8>, i: int)
    requires
        0 <= i <= s.len(),
    ensures
        dec_val(s.take(i)) <= dec_val(s),
    decreases s.len(),
{
    if i < s.len() {
        assert(s.drop_last().take(i) =~= s.take(i));
        lemma_dec_val_prefix_le(s.drop_last(), i);
        lemma_dec_val_nonneg(s.drop_last());
    } else {
        assert(s.take(i) =~= s);
    }
}

/// Leading zeros do not change the value.
pub proof fn lemma_dec_val_skip_zeros(s: Seq<u8>, k: int)
    requires
        0 <= k <= s.len(),
        forall|i: int| 0 <= i < k ==> s[i] == 0,
    ensures
        dec_val(s.skip(k)) == dec_val(s),
    decreases s.len(),
{
    if k == s.len() {
        lemma_dec_val_all_zero(s);
    } else if s.len() > 0 {
        assert(s.skip(k).drop_last() =~= s.drop_last().skip(k));
        assert(s.skip(k).last() == s.last());
        lemma_dec_val_skip_zeros(s.drop_last(), k);
    }
}

pub proof fn lemma_dec_val_all_zero(s: Seq<u8>)
    requires
        forall|i: int| 0 <= i < s.len() ==> s[i] == 0,
    ensures
        dec_val(s) == 0,
    decreases s.len(),
{
    if s.len() > 0 {
        lemma_dec_val_all_zero(s.drop_last());
    }
}

/// Splitting a digit sequence at `k` splits its value positionally.
pub proof fn lemma_dec_val_split(s: Seq<u8>, k: int)
    requires
        0 <= k <= s.len(),
    ensures
        dec_val(s) == dec_val(s.take(k)) * pow10((s.len() - k) as nat) + dec_val(s.skip(k)),
    decreases s.len(),
{
    if k == s.len() {
        assert(s.take(k) =~= s);
        assert(s.skip(k) =~= Seq::<u8>::empty());
    } else {
        let d = s.drop_last();
        assert(d.take(k) =~= s.take(k));
        assert(s.skip(k).drop_last() =~= d.skip(k));
        assert(s.skip(k).last() == s.last());
        lemma_dec_val_split(d, k);
        let a = dec_val(s.take(k));
        let p = pow10((d.len() - k) as nat);
        assert(dec_val(s) == (a * p + dec_val(d.skip(k))) * 10 + s.last());
        assert((a * p + dec_val(d.skip(k))) * 10 == a * p * 10 + dec_val(d.skip(k)) * 10)
            by (nonlinear_arith);
        assert(a * p * 10 == a * (10 * p)) by (nonlinear_arith);
        assert(pow10((s.len() - k) as nat) == 10 * p);
    }
}

/// Compare two digit sequences numerically.
pub fn digits_gt(a: &Vec<u8>, b: &Vec<u8>) -> (r: bool)
    requires
        is_digit_seq(a@),
        is_digit_seq(b@),
    ensures
        r == (dec_val(a@) > dec_val(b@)),
{
    let sa = skip_zeros(a);
    let sb = skip_zeros(b);
    let la = a.len() - sa;
    let lb = b.len() - sb;
    proof {
        lemma_dec_val_skip_zeros(a@, sa as int);
        lemma_dec_val_skip_zeros(b@, sb as int);
    }
    if la != lb {
        proof {
            let xa = a@.skip(sa as int);
            let xb = b@.skip(sb as int);
            if la > lb {
                lemma_dec_val_lower(xa);
                lemma_dec_val_upper(xb);
                lemma_pow10_mono(xb.len(), (xa.len() - 1) as nat);
            } else {
                lemma_dec_val_lower(xb);
                lemma_dec_val_upper(xa);
                lemma_pow10_mono(xa.len(), (xb.len() - 1) as nat);
            }
        }
        la > lb
    } else {
        let mut i: usize = 0;
        let ghost xa = a@.skip(sa as int);
        let ghost xb = b@.skip(sb as int);
        while i < la
            invariant
                0 <= i <= la,
                la == lb,
                sa + la == a.len(),
                sb + lb == b.len(),
                is_digit_seq(a@),
                is_digit_seq(b@),
                xa == a@.skip(sa as int),
                xb == b@.skip(sb as int),
                dec_val(xa) == dec_val(a@),
                dec_val(xb) == dec_val(b@),
                xa.take(i as int) =~= xb.take(i as int),
            decreases la - i,
        {
            let da = a[sa + i];
            let db = b[sb + i];
            if da != db {
                proof {
                    assert(is_digit_seq(xa)) by {
                        assert(forall|j: int| 0 <= j < xa.len() ==> xa[j] == a@[sa + j] && #[trigger] xa[j] < 10);
                    }
                    assert(is_digit_seq(xb)) by {
                        assert(forall|j: int| 0 <= j < xb.len() ==> xb[j] == b@[sb + j] && #[trigger] xb[j] < 10);
                    }
                    assert(xa[i as int] == da);
                    assert(xb[i as int] == db);
                    lemma_digits_first_diff(xa, xb, i as int);
                }
                return da > db;
            }
            i += 1;
        }
        proof {
            assert(xa =~= xa.take(la as int));
            assert(xb =~= xb.take(lb as int));
        }
        false
    }
}

/// If two equal-length digit sequences agree before `k` and differ at `k`,
/// the one with the larger digit at `k` is numerically larger.
proof fn lemma_digits_first_diff(a: Seq<u8>, b: Seq<u8>, k: int)
    requires
        is_digit_seq(a),
        is_digit_seq(b),
        a.len() == b.len(),
        0 <= k < a.len(),
        a.take(k) == b.take(k),
        a[k] != b[k],
    ensures
        (dec_val(a) > dec_val(b)) == (a[k] > b[k]),
{
    lemma_dec_val_split(a, k);
    lemma_dec_val_split(b, k);
    let ta = a.skip(k);
    let tb = b.skip(k);
    lemma_dec_val_split(ta, 1);
    lemma_dec_val_split(tb, 1);
    assert(dec_val(ta.take(1)) == a[k]) by {
        assert(dec_val(ta.take(1)) == dec_val(ta.take(1).drop_last()) * 10 + ta.take(1).last());
        assert(ta.take(1).drop_last() =~= Seq::<u8>::empty());
        assert(dec_val(Seq::<u8>::empty()) == 0);
        assert(ta.take(1).last() == a[k]);
    }
    assert(dec_val(tb.take(1)) == b[k]) by {
        assert(dec_val(tb.take(1)) == dec_val(tb.take(1).drop_last()) * 10 + tb.take(1).last());
        assert(tb.take(1).drop_last() =~= Seq::<u8>::empty());
        assert(dec_val(Seq::<u8>::empty()) == 0);
        assert(tb.take(1).last() == b[k]);
    }
    let p = pow10((ta.len() - 1) as nat);
    assert(ta.skip(1) =~= a.skip(k + 1));
    assert(tb.skip(1) =~= b.skip(k + 1));
    lemma_dec_val_upper(ta.skip(1));
    lemma_dec_val_upper(tb.skip(1));
    lemma_dec_val_nonneg(ta.skip(1));
    lemma_dec_val_nonneg(tb.skip(1));
    assert(pow10((a.len() - k) as nat) == 10 * pow10((a.len() - k - 1) as nat));
    lemma_pow10_pos((a.len() - k - 1) as nat);
    if a[k] > b[k] {
        assert(a[k] * p >= b[k] * p + p) by (nonlinear_arith)
            requires a[k] >= b[k] + 1 && p >= 1;
    } else {
        assert(b[k] * p >= a[k] * p + p) by (nonlinear_arith)
            requires b[k] >= a[k] + 1 && p >= 1;
    }
}

/// Index of the first nonzero digit (or the length if all are zero).
fn skip_zeros(v: &Vec<u8>) -> (k: usize)
    ensures
        0 <= k <= v.len(),
        forall|i: int| 0 <= i < k ==> v@[i] == 0,
        k < v.len() ==> v@[k as int] != 0,
{
    let mut k: usize = 0;
    while k < v.len() && v[k] == 0
        invariant
            0 <= k <= v.len(),
            forall|i: int| 0 <= i < k ==> v@[i] == 0,
        decreases v.len() - k,
    {
        k += 1;
    }
    k
}

/// Whether two string slices hold the same characters.
pub fn str_eq(a: &str, b: &str) -> (r: bool)
    ensures
        r == (a@ == b@),
{
    let la = a.unicode_len();
    let lb = b.unicode_len();
    if la != lb {
        return false;
    }
    let mut i: usize = 0;
    while i < la
        invariant
            0 <= i <= la,
            la == a@.len(),
            la == b@.len(),
            forall|j: int| 0 <= j < i ==> a@[j] == b@[j],
        decreases la - i,
    {
        if a.get_char(i) != b.get_char(i) {
            return false;
        }
        i += 1;
    }
    proof {
        assert(a@ =~= b@);
    }
    true
}

/// The decimal digit character for a value `0` through `9`.
pub open spec fn digit_char(d: nat) -> char {
    if d == 0 {
        '0'
    } else if d == 1 {
        '1'
    } else if d == 2 {
        '2'
    } else if d == 3 {
        '3'
    } else if d == 4 {
        '4'
    } else if d == 5 {
        '5'
    } else if d == 6 {
        '6'
    } else if d == 7 {
        '7'
    } else if d == 8 {
        '8'
    } else {
        '9'
    }
}

/// Decimal rendering of a natural number, most significant digit first.
pub open spec fn dec_chars(n: nat) -> Seq<char>
    decreases n,
{
    if n < 10 {
        seq![digit_char(n)]
    } else {
        dec_chars(n / 10).push(digit_char(n % 10))
    }
}

fn digit_str(d: u16) -> (r: String)
    requires
        d < 10,
    ensures
        r@ == seq![digit_char(d as nat)],
{
    if d == 0 {
        proof { reveal_strlit("0"); }
        let r = String::from_str("0");
        proof { assert(r@ =~= seq![digit_char(0)]); }
        r
    } else if d == 1 {
        proof { reveal_strlit("1"); }
        let r = String::from_str("1");
        proof { assert(r@ =~= seq![digit_char(1)]); }
        r
    } else if d == 2 {
        proof { reveal_strlit("2"); }
        let r = String::from_str("2");
        proof { assert(r@ =~= seq![digit_char(2)]); }
        r
    } else if d == 3 {
        proof { reveal_strlit("3"); }
        let r = String::from_str("3");
        proof { assert(r@ =~= seq![digit_char(3)]); }
        r
    } else if d == 4 {
        proof { reveal_strlit("4"); }
        let r = String::from_str("4");
        proof { assert(r@ =~= seq![digit_char(4)]); }
        r
    } else if d == 5 {
        proof { reveal_strlit("5"); }
        let r = String::from_str("5");
        proof { assert(r@ =~= seq![digit_char(5)]); }
        r
    } else if d == 6 {
        proof { reveal_strlit("6"); }
        let r = String::from_str("6");
        proof { assert(r@ =~= seq![digit_char(6)]); }
        r
    } else if d == 7 {
        proof { reveal_strlit("7"); }
        let r = String::from_str("7");
        proof { assert(r@ =~= seq![digit_char(7)]); }
        r
    } else if d == 8 {
        proof { reveal_strlit("8"); }
        let r = String::from_str("8");
        proof { assert(r@ =~= seq![digit_char(8)]); }
        r
    } else {
        proof { reveal_strlit("9"); }
        let r = String::from_str("9");
        proof { assert(r@ =~= seq![digit_char(9)]); }
        r
    }
}

/// Decimal rendering of a `u16`.
pub fn u16_to_string(n: u16) -> (r: String)
    ensures
        r@ == dec_chars(n as nat),
    decreases n,
{
    if n < 10 {
        digit_str(n)
    } else {
        let mut r = u16_to_string(n / 10);
        let d = digit_str(n % 10);
        r.append(d.as_str());
        proof {
            assert(r@ =~= dec_chars((n / 10) as nat).push(digit_char((n % 10) as nat)));
        }
        r
    }
}

} // verus!
