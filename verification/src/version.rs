//! Model-id version suffixes.
//!
//! A model id may embed a trailing `:<version>` integer suffix
//! (`model-x:3` has version `3`). Ids without such a suffix, or with a
//! suffix that is not a well-formed `i32`, count as version `-1`.

use vstd::prelude::*;
use crate::text::{dec_val, lemma_dec_val_nonneg, lemma_dec_val_prefix_le};

verus! {

pub open spec fn is_dec_digit(c: char) -> bool {
    '0' <= c && c <= '9'
}

pub open spec fn all_dec_digits(s: Seq<char>) -> bool {
    forall|i: int| 0 <= i < s.len() ==> is_dec_digit(s[i])
}

/// Digit values of a sequence of decimal digit characters.
pub open spec fn digit_vals(s: Seq<char>) -> Seq<u8> {
    Seq::new(s.len(), |i: int| (s[i] as int - 48) as u8)
}

/// Numeric value of a sequence of decimal digit characters.
pub open spec fn digits_int(s: Seq<char>) -> int {
    dec_val(digit_vals(s))
}

/// The value `<chars>.parse::<i32>()` would succeed with: an optional
/// sign, then one or more decimal digits, with the result in `i32` range.
pub open spec fn parsed_i32(s: Seq<char>) -> Option<int> {
    let signed = s.len() > 0 && (s[0] == '-' || s[0] == '+');
    let neg = s.len() > 0 && s[0] == '-';
    let ds = if signed {
        s.skip(1)
    } else {
        s
    };
    if ds.len() > 0 && all_dec_digits(ds) {
        let v = if neg {
            -digits_int(ds)
        } else {
            digits_int(ds)
        };
        if i32::MIN <= v <= i32::MAX {
            Some(v)
        } else {
            None
        }
    } else {
        None
    }
}

/// The characters after the last `:`, or the whole string if it has none.
pub open spec fn tail_after_last_colon(s: Seq<char>) -> Seq<char>
    decreases s.len(),
{
    if s.len() == 0 {
        Seq::empty()
    } else if s.last() == ':' {
        Seq::empty()
    } else {
        tail_after_last_colon(s.drop_last()).push(s.last())
    }
}

/// Numeric version embedded in a model id: the characters after the last
/// `:`, parsed as an `i32`. An id without a colon-suffix, or with a
/// suffix that does not parse, contributes `-1` and never outranks a real
/// version.
pub open spec fn version_of(s: Seq<char>) -> int {
    if !has_colon(s) {
        -1
    } else {
        match parsed_i32(tail_after_last_colon(s)) {
            Some(v) => v,
            None => -1,
        }
    }
}

pub open spec fn has_colon(s: Seq<char>) -> bool {
    exists|i: int| 0 <= i < s.len() && s[i] == ':'
}

/// The characters before the first `:`, or the whole string if it has none.
pub open spec fn head_before_first_colon(s: Seq<char>) -> Seq<char>
    decreases s.len(),
{
    if s.len() == 0 {
        Seq::empty()
    } else if s[0] == ':' {
        Seq::empty()
    } else {
        seq![s[0]] + head_before_first_colon(s.drop_first())
    }
}

/// `id` is `key` followed by `:` and at least zero more characters.
pub open spec fn has_version_prefix(id: Seq<char>, key: Seq<char>) -> bool {
    id.len() > key.len() && id.take(key.len() as int) == key && id[key.len() as int] == ':'
}

proof fn lemma_tail_after_last_colon_skip(s: Seq<char>, j: int)
    requires
        0 <= j <= s.len(),
        forall|i: int| j <= i < s.len() ==> s[i] != ':',
        j > 0 ==> s[j - 1] == ':',
    ensures
        tail_after_last_colon(s) == s.skip(j),
    decreases s.len(),
{
    if s.len() == 0 {
        assert(s.skip(j) =~= Seq::<char>::empty());
    } else if j == s.len() {
        assert(s.last() == ':');
        assert(s.skip(j) =~= Seq::<char>::empty());
    } else {
        assert(s.last() != ':');
        lemma_tail_after_last_colon_skip(s.drop_last(), j);
        assert(s.skip(j) =~= s.drop_last().skip(j).push(s.last()));
    }
}

proof fn lemma_head_before_first_colon_take(s: Seq<char>, k: int)
    requires
        0 <= k <= s.len(),
        forall|i: int| 0 <= i < k ==> s[i] != ':',
        k < s.len() ==> s[k] == ':',
    ensures
        head_before_first_colon(s) == s.take(k),
    decreases s.len(),
{
    if k == 0 {
        assert(s.take(0) =~= Seq::<char>::empty());
    } else {
        assert(s[0] != ':');
        let d = s.drop_first();
        lemma_head_before_first_colon_take(d, k - 1);
        assert(seq![s[0]] + d.take(k - 1) =~= s.take(k));
    }
}

/// Numeric version of an id: the characters after the last `:`, parsed as
/// an `i32`; `-1` for an id without a colon-suffix, or with a suffix that
/// does not parse.
pub fn get_version(model_id: &str) -> (v: i32)
    ensures
        v as int == version_of(model_id@),
{
    let ghost s = model_id@;
    let n = model_id.unicode_len();
    // Start of the suffix after the last colon.
    let mut j: usize = n;
    while j > 0 && model_id.get_char(j - 1) != ':'
        invariant
            0 <= j <= n,
            s == model_id@,
            n == s.len(),
            forall|i: int| j <= i < n ==> s[i] != ':',
        decreases j,
    {
        j -= 1;
    }
    proof {
        lemma_tail_after_last_colon_skip(s, j as int);
    }
    if j == 0 {
        // An id without a colon-suffix has no version.
        proof {
            assert(!has_colon(s));
        }
        return -1;
    }
    proof {
        assert(s[j - 1] == ':');
        assert(has_colon(s));
    }
    let ghost suffix = s.skip(j as int);
    if j == n {
        // Empty suffix never parses.
        return -1;
    }
    let first = model_id.get_char(j);
    let neg = first == '-';
    let signed = neg || first == '+';
    let start: usize = if signed {
        j + 1
    } else {
        j
    };
    let ghost ds = if signed {
        suffix.skip(1)
    } else {
        suffix
    };
    proof {
        assert(s.skip(j as int + 1) =~= suffix.skip(1));
        assert(ds =~= s.skip(start as int));
    }
    if start == n {
        // A bare sign never parses.
        return -1;
    }
    proof {
        assert(suffix[0] == s[j as int]);
        lemma_dec_val_nonneg(digit_vals(ds));
    }
    let mut acc: u64 = 0;
    let mut i: usize = start;
    while i < n
        invariant
            start <= i <= n,
            start < n,
            s == model_id@,
            n == s.len(),
            ds == s.skip(start as int),
            all_dec_digits(ds.take(i - start)),
            acc == digits_int(ds.take(i - start)),
            acc <= 2147483648,
            !all_dec_digits(ds) ==> version_of(s) == -1,
            digits_int(ds) > 2147483648 ==> version_of(s) == -1,
        decreases n - i,
    {
        let c = model_id.get_char(i);
        if c < '0' || c > '9' {
            proof {
                assert(ds[i - start] == c);
                assert(!all_dec_digits(ds));
            }
            return -1;
        }
        let d: u64 = (c as u64) - 48;
        let acc2: u64 = acc * 10 + d;
        proof {
            let k = i - start;
            assert(digit_vals(ds.take(k + 1)).drop_last() =~= digit_vals(ds.take(k)));
            assert(digit_vals(ds.take(k + 1)).last() == d);
            assert(acc2 == digits_int(ds.take(k + 1)));
        }
        if acc2 > 2147483648 {
            proof {
                let k = i - start;
                assert(digit_vals(ds).take(k + 1) =~= digit_vals(ds.take(k + 1)));
                lemma_dec_val_prefix_le(digit_vals(ds), k + 1);
            }
            return -1;
        }
        acc = acc2;
        i += 1;
    }
    proof {
        assert(ds.take(n - start) =~= ds);
    }
    if neg {
        (-(acc as i64)) as i32
    } else {
        if acc > 2147483647 {
            return -1;
        }
        acc as i32
    }
}

/// Whether an id or alias contains a version separator.
pub fn contains_colon(s: &str) -> (r: bool)
    ensures
        r == has_colon(s@),
{
    let n = s.unicode_len();
    let mut i: usize = 0;
    while i < n
        invariant
            0 <= i <= n,
            n == s@.len(),
            forall|j: int| 0 <= j < i ==> s@[j] != ':',
        decreases n - i,
    {
        if s.get_char(i) == ':' {
            return true;
        }
        i += 1;
    }
    false
}

/// The id or alias with any `:<version>` suffix removed: everything
/// before the first `:`.
pub fn strip_version(s: &str) -> (r: String)
    ensures
        r@ == head_before_first_colon(s@),
{
    let n = s.unicode_len();
    let mut k: usize = 0;
    while k < n && s.get_char(k) != ':'
        invariant
            0 <= k <= n,
            n == s@.len(),
            forall|j: int| 0 <= j < k ==> s@[j] != ':',
        decreases n - k,
    {
        k += 1;
    }
    proof {
        lemma_head_before_first_colon_take(s@, k as int);
    }
    let part = s.substring_char(0, k);
    proof {
        assert(s@.subrange(0, k as int) == s@.take(k as int));
    }
    part.to_owned()
}

/// Whether `id` begins with `key` immediately followed by `:`.
pub fn id_has_version_prefix(id: &str, key: &str) -> (r: bool)
    ensures
        r == has_version_prefix(id@, key@),
{
    let nid = id.unicode_len();
    let nk = key.unicode_len();
    if nid <= nk {
        return false;
    }
    let mut i: usize = 0;
    while i < nk
        invariant
            0 <= i <= nk,
            nid == id@.len(),
            nk == key@.len(),
            nid > nk,
            forall|j: int| 0 <= j < i ==> id@[j] == key@[j],
        decreases nk - i,
    {
        if id.get_char(i) != key.get_char(i) {
            proof {
                assert(id@.take(nk as int)[i as int] != key@[i as int]);
            }
            return false;
        }
        i += 1;
    }
    let r = id.get_char(nk) == ':';
    proof {
        assert(id@.take(nk as int) =~= key@);
    }
    r
}

} // verus!
