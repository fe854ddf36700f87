//! Decoder for the chunked streaming download response.
//!
//! The response body arrives as a sequence of chunks that are either free
//! text holding a percentage progress marker (`"42%"`) or, once the final
//! chunk begins, the pieces of a single JSON object. Once a chunk's
//! trimmed content begins with `{`, every chunk from there on is appended
//! verbatim to an accumulation buffer; other chunks are scanned for a
//! percentage and a progress update is reported only when it is strictly
//! greater than the last one reported.
//!
//! Percentages are decimals (`55`, `33.4`); they are kept as exact digit
//! strings and compared numerically, so no floating point is involved.

use vstd::prelude::*;
use crate::errors::FoundryError;
use crate::text::{dec_val, is_digit_seq, lemma_dec_val_nonneg, lemma_dec_val_prefix_le};

verus! {

/// An exact decimal percentage: integer digits and fractional digits,
/// each stored as digit values `0` through `9`.
#[derive(Debug, PartialEq, Eq)]
pub struct Percent {
    int_digits: Vec<u8>,
    frac_digits: Vec<u8>,
}

pub ghost struct PercentView {
    pub int_digits: Seq<u8>,
    pub frac_digits: Seq<u8>,
}

impl View for Percent {
    type V = PercentView;

    closed spec fn view(&self) -> PercentView {
        PercentView { int_digits: self.int_digits@, frac_digits: self.frac_digits@ }
    }
}

pub open spec fn pct_wf(p: PercentView) -> bool {
    is_digit_seq(p.int_digits) && is_digit_seq(p.frac_digits)
}

/// Digit of a fraction at position `i`, implicitly zero-padded.
pub open spec fn pad_at(s: Seq<u8>, i: int) -> u8 {
    if 0 <= i < s.len() {
        s[i]
    } else {
        0
    }
}

pub open spec fn longer_len(a: Seq<u8>, b: Seq<u8>) -> int {
    if a.len() >= b.len() {
        a.len() as int
    } else {
        b.len() as int
    }
}

/// Whether fraction `a` exceeds fraction `b`, comparing digit by digit
/// from position `i` on with implicit zero padding.
pub open spec fn frac_gt_from(a: Seq<u8>, b: Seq<u8>, i: int) -> bool
    decreases longer_len(a, b) - i,
{
    if i < 0 || i >= longer_len(a, b) {
        false
    } else if pad_at(a, i) != pad_at(b, i) {
        pad_at(a, i) > pad_at(b, i)
    } else {
        frac_gt_from(a, b, i + 1)
    }
}

pub open spec fn frac_gt(a: Seq<u8>, b: Seq<u8>) -> bool {
    frac_gt_from(a, b, 0)
}

/// Numeric order on exact decimal percentages.
pub open spec fn pct_gt(a: PercentView, b: PercentView) -> bool {
    dec_val(a.int_digits) > dec_val(b.int_digits) || (dec_val(a.int_digits) == dec_val(
        b.int_digits,
    ) && frac_gt(a.frac_digits, b.frac_digits))
}

impl Percent {
    /// The percentage zero, the decoder's starting point.
    pub fn zero() -> (r: Percent)
        ensures
            r@.int_digits == Seq::<u8>::empty(),
            r@.frac_digits == Seq::<u8>::empty(),
            pct_wf(r@),
    {
        Percent { int_digits: Vec::new(), frac_digits: Vec::new() }
    }

    /// Whether this percentage is numerically greater than `other`.
    pub fn gt(&self, other: &Percent) -> (r: bool)
        requires
            pct_wf(self@),
            pct_wf(other@),
        ensures
            r == pct_gt(self@, other@),
    {
        if crate::text::digits_gt(&self.int_digits, &other.int_digits) {
            true
        } else if crate::text::digits_gt(&other.int_digits, &self.int_digits) {
            false
        } else {
            frac_gt_exec(&self.frac_digits, &other.frac_digits)
        }
    }

    /// The integer part, saturated to `u64::MAX`: what a progress bar
    /// position is set from.
    pub fn whole_saturated(&self) -> (r: u64)
        requires
            pct_wf(self@),
        ensures
            r as int == if dec_val(self@.int_digits) > u64::MAX as int {
                u64::MAX as int
            } else {
                dec_val(self@.int_digits)
            },
    {
        let ghost ds = self@.int_digits;
        let n = self.int_digits.len();
        let mut acc: u64 = 0;
        let mut i: usize = 0;
        proof {
            lemma_dec_val_nonneg(ds);
        }
        while i < n
            invariant
                0 <= i <= n,
                n == ds.len(),
                ds == self@.int_digits,
                is_digit_seq(ds),
                acc as int == dec_val(ds.take(i as int)),
            decreases n - i,
        {
            let d = self.int_digits[i];
            let wide: u128 = (acc as u128) * 10 + (d as u128);
            proof {
                assert(ds.take(i + 1).drop_last() =~= ds.take(i as int));
                assert(ds.take(i + 1).last() == d);
            }
            if wide > u64::MAX as u128 {
                proof {
                    lemma_dec_val_prefix_le(ds, i + 1);
                }
                return u64::MAX;
            }
            acc = wide as u64;
            i += 1;
        }
        proof {
            assert(ds.take(n as int) =~= ds);
        }
        acc
    }

    /// Copies of the digit values, integer part then fractional part.
    pub fn digits(&self) -> (r: (Vec<u8>, Vec<u8>))
        ensures
            r.0@ == self@.int_digits,
            r.1@ == self@.frac_digits,
    {
        (clone_bytes(&self.int_digits), clone_bytes(&self.frac_digits))
    }
}

impl Clone for Percent {
    fn clone(&self) -> (r: Self)
        ensures
            r@ == self@,
    {
        let r = Percent {
            int_digits: clone_bytes(&self.int_digits),
            frac_digits: clone_bytes(&self.frac_digits),
        };
        proof {
            assert(r@.int_digits =~= self@.int_digits);
        }
        r
    }
}

fn clone_bytes(v: &Vec<u8>) -> (r: Vec<u8>)
    ensures
        r@ == v@,
{
    let mut r: Vec<u8> = Vec::new();
    let mut i: usize = 0;
    while i < v.len()
        invariant
            0 <= i <= v.len(),
            r@ =~= v@.take(i as int),
        decreases v.len() - i,
    {
        r.push(v[i]);
        i += 1;
    }
    proof {
        assert(v@.take(v@.len() as int) =~= v@);
    }
    r
}

fn frac_gt_exec(a: &Vec<u8>, b: &Vec<u8>) -> (r: bool)
    ensures
        r == frac_gt(a@, b@),
{
    let n = if a.len() >= b.len() {
        a.len()
    } else {
        b.len()
    };
    let mut i: usize = 0;
    while i < n
        invariant
            0 <= i <= n,
            n == longer_len(a@, b@),
            frac_gt(a@, b@) == frac_gt_from(a@, b@, i as int),
        decreases n - i,
    {
        let da = if i < a.len() {
            a[i]
        } else {
            0
        };
        let db = if i < b.len() {
            b[i]
        } else {
            0
        };
        if da != db {
            return da > db;
        }
        i += 1;
    }
    false
}

pub open spec fn is_ascii_digit_byte(b: u8) -> bool {
    48 <= b <= 57
}

/// ASCII whitespace, as trimmed from the front of a chunk.
pub open spec fn is_ws_byte(b: u8) -> bool {
    b == 32 || b == 9 || b == 10 || b == 11 || b == 12 || b == 13
}

/// Whether the chunk's content, after leading whitespace, begins with `{`.
pub open spec fn starts_json(s: Seq<u8>) -> bool {
    exists|i: int|
        0 <= i < s.len() && s[i] == 123 && (forall|j: int| 0 <= j < i ==> is_ws_byte(s[j]))
}

/// A `%` at `p` directly preceded by a digit: the anchor of a percentage.
pub open spec fn is_pct_pos(s: Seq<u8>, p: int) -> bool {
    0 < p < s.len() && s[p] == 37 && is_ascii_digit_byte(s[p - 1])
}

/// First percentage anchor at or after `i`, `-1` if there is none.
pub open spec fn first_pct_from(s: Seq<u8>, i: int) -> int
    decreases s.len() - i,
{
    if i < 0 || i >= s.len() {
        -1
    } else if is_pct_pos(s, i) {
        i
    } else {
        first_pct_from(s, i + 1)
    }
}

/// Start of the maximal digit run ending just before `j`.
pub open spec fn run_start(s: Seq<u8>, j: int) -> int
    decreases j,
{
    if j <= 0 {
        0
    } else if is_ascii_digit_byte(s[j - 1]) {
        run_start(s, j - 1)
    } else {
        j
    }
}

/// Digit values of the bytes of `s` in `[a, b)`.
pub open spec fn byte_digits(s: Seq<u8>, a: int, b: int) -> Seq<u8> {
    Seq::new((b - a) as nat, |i: int| (s[a + i] - 48) as u8)
}

/// The percentage anchored at position `p`: the maximal digit run before
/// the `%`, extended over a single `.` to a preceding digit run if there
/// is one.
pub open spec fn percent_at(s: Seq<u8>, p: int) -> PercentView {
    let i1 = run_start(s, p);
    if i1 >= 2 && s[i1 - 1] == 46 && is_ascii_digit_byte(s[i1 - 2]) {
        let i0 = run_start(s, i1 - 1);
        PercentView { int_digits: byte_digits(s, i0, i1 - 1), frac_digits: byte_digits(s, i1, p) }
    } else {
        PercentView { int_digits: byte_digits(s, i1, p), frac_digits: Seq::empty() }
    }
}

/// What scanning a chunk for a percentage yields: the percentage anchored
/// at the first `%` that follows a digit.
pub open spec fn scan_spec(s: Seq<u8>) -> Option<PercentView> {
    let p = first_pct_from(s, 0);
    if p == -1 {
        None
    } else {
        Some(percent_at(s, p))
    }
}

proof fn lemma_first_pct_step(s: Seq<u8>, j: int, i: int)
    requires
        0 <= j <= i <= s.len(),
        forall|m: int| j <= m < i ==> !is_pct_pos(s, m),
    ensures
        first_pct_from(s, j) == first_pct_from(s, i),
    decreases i - j,
{
    if j < i {
        assert(!is_pct_pos(s, j));
        lemma_first_pct_step(s, j + 1, i);
    }
}

proof fn lemma_run_start_at(s: Seq<u8>, p: int, i: int)
    requires
        0 <= i <= p <= s.len(),
        forall|j: int| i <= j < p ==> is_ascii_digit_byte(s[j]),
        i > 0 ==> !is_ascii_digit_byte(s[i - 1]),
    ensures
        run_start(s, p) == i,
    decreases p - i,
{
    if p > i {
        assert(is_ascii_digit_byte(s[p - 1]));
        lemma_run_start_at(s, p - 1, i);
    }
}

/// Scan a chunk for a percentage pattern: digits, optionally `.` and more
/// digits, directly before the first qualifying `%`.
pub fn scan_percent(chunk: &[u8]) -> (r: Option<Percent>)
    ensures
        match r {
            Some(pc) => scan_spec(chunk@) == Some(pc@) && pct_wf(pc@),
            None => scan_spec(chunk@) is None,
        },
{
    let ghost s = chunk@;
    let n = chunk.len();
    // Find the first `%` directly preceded by a digit.
    let mut p: usize = 0;
    while p < n && !(chunk[p] == 37 && p > 0 && chunk[p - 1] >= 48 && chunk[p - 1] <= 57)
        invariant
            0 <= p <= n,
            n == s.len(),
            s == chunk@,
            forall|m: int| 0 <= m < p ==> !is_pct_pos(s, m),
        decreases n - p,
    {
        p += 1;
    }
    if p == n {
        proof {
            lemma_first_pct_step(s, 0, n as int);
        }
        return None;
    }
    proof {
        assert(is_pct_pos(s, p as int));
        lemma_first_pct_step(s, 0, p as int);
    }
    // Maximal digit run ending at `p`.
    let mut i1: usize = p;
    while i1 > 0 && chunk[i1 - 1] >= 48 && chunk[i1 - 1] <= 57
        invariant
            0 <= i1 <= p,
            p < n,
            n == s.len(),
            s == chunk@,
            forall|j: int| i1 <= j < p ==> is_ascii_digit_byte(s[j]),
        decreases i1,
    {
        i1 -= 1;
    }
    proof {
        lemma_run_start_at(s, p as int, i1 as int);
    }
    if i1 >= 2 && chunk[i1 - 1] == 46 && chunk[i1 - 2] >= 48 && chunk[i1 - 2] <= 57 {
        // A fractional part: extend over the dot to the integer digits.
        let mut i0: usize = i1 - 1;
        while i0 > 0 && chunk[i0 - 1] >= 48 && chunk[i0 - 1] <= 57
            invariant
                0 <= i0 <= i1 - 1,
                i1 >= 2,
                i1 - 1 < n,
                n == s.len(),
                s == chunk@,
                forall|j: int| i0 <= j < i1 - 1 ==> is_ascii_digit_byte(s[j]),
            decreases i0,
        {
            i0 -= 1;
        }
        proof {
            lemma_run_start_at(s, i1 as int - 1, i0 as int);
        }
        let ints = collect_digits(chunk, i0, i1 - 1);
        let fracs = collect_digits(chunk, i1, p);
        Some(Percent { int_digits: ints, frac_digits: fracs })
    } else {
        let ints = collect_digits(chunk, i1, p);
        Some(Percent { int_digits: ints, frac_digits: Vec::new() })
    }
}

/// The digit values of the bytes in `[a, b)`.
fn collect_digits(chunk: &[u8], a: usize, b: usize) -> (r: Vec<u8>)
    requires
        a <= b <= chunk@.len(),
        forall|j: int| a <= j < b ==> is_ascii_digit_byte(chunk@[j]),
    ensures
        r@ == byte_digits(chunk@, a as int, b as int),
        is_digit_seq(r@),
{
    let mut r: Vec<u8> = Vec::new();
    let mut i: usize = a;
    while i < b
        invariant
            a <= i <= b,
            b <= chunk@.len(),
            forall|j: int| a <= j < b ==> is_ascii_digit_byte(chunk@[j]),
            r@ =~= byte_digits(chunk@, a as int, i as int),
        decreases b - i,
    {
        r.push(chunk[i] - 48);
        i += 1;
    }
    proof {
        assert(r@ =~= byte_digits(chunk@, a as int, b as int));
    }
    r
}

/// Whether the chunk, after leading ASCII whitespace, begins with `{`.
fn trimmed_starts_brace(chunk: &[u8]) -> (r: bool)
    ensures
        r == starts_json(chunk@),
{
    let n = chunk.len();
    let mut i: usize = 0;
    while i < n && (chunk[i] == 32 || chunk[i] == 9 || chunk[i] == 10 || chunk[i] == 11
        || chunk[i] == 12 || chunk[i] == 13)
        invariant
            0 <= i <= n,
            n == chunk@.len(),
            forall|j: int| 0 <= j < i ==> is_ws_byte(chunk@[j]),
        decreases n - i,
    {
        i += 1;
    }
    if i < n && chunk[i] == 123 {
        proof {
            assert(starts_json(chunk@));
        }
        true
    } else {
        proof {
            if starts_json(chunk@) {
                let w = choose|w: int|
                    0 <= w < chunk@.len() && chunk@[w] == 123 && (forall|j: int|
                        0 <= j < w ==> is_ws_byte(chunk@[j]));
                assert(w >= i);
                if i < chunk@.len() {
                    assert(is_ws_byte(chunk@[i as int]) || chunk@[i as int] == 123);
                }
                assert(false);
            }
        }
        false
    }
}

/// State of one streaming download response while its chunks arrive.
#[derive(Debug)]
pub struct StreamDecoder {
    buffer: Vec<u8>,
    last: Percent,
}

pub ghost struct StreamDecoderView {
    pub buffer: Seq<u8>,
    pub last: PercentView,
}

impl View for StreamDecoder {
    type V = StreamDecoderView;

    closed spec fn view(&self) -> StreamDecoderView {
        StreamDecoderView { buffer: self.buffer@, last: self.last@ }
    }
}

impl StreamDecoder {
    pub open spec fn wf(&self) -> bool {
        pct_wf(self@.last)
    }

    /// A fresh decoder: empty accumulation buffer, last reported progress
    /// zero.
    pub fn new() -> (r: StreamDecoder)
        ensures
            r@.buffer == Seq::<u8>::empty(),
            r@.last.int_digits == Seq::<u8>::empty(),
            r@.last.frac_digits == Seq::<u8>::empty(),
            r.wf(),
    {
        StreamDecoder { buffer: Vec::new(), last: Percent::zero() }
    }

    /// Feed one chunk. Once JSON accumulation has begun — this chunk's
    /// trimmed content starts with `{`, or a prior chunk's did — the chunk
    /// is appended verbatim and no progress is reported. Otherwise the
    /// chunk is scanned for a percentage, and one strictly greater than
    /// the last reported percentage is reported and remembered; smaller or
    /// equal ones are dropped.
    pub fn push_chunk(&mut self, chunk: &[u8]) -> (r: Option<Percent>)
        requires
            old(self).wf(),
        ensures
            final(self).wf(),
            if old(self)@.buffer.len() > 0 || starts_json(chunk@) {
                &&& final(self)@.buffer == old(self)@.buffer + chunk@
                &&& final(self)@.last == old(self)@.last
                &&& r is None
            } else {
                match scan_spec(chunk@) {
                    Some(p) => if pct_gt(p, old(self)@.last) {
                        &&& r matches Some(pc) && pc@ == p
                        &&& final(self)@.last == p
                        &&& final(self)@.buffer == old(self)@.buffer
                    } else {
                        final(self)@ == old(self)@ && r is None
                    },
                    None => final(self)@ == old(self)@ && r is None,
                }
            },
    {
        if self.buffer.len() > 0 || trimmed_starts_brace(chunk) {
            self.buffer.extend_from_slice(chunk);
            proof {
                assert(self@.buffer =~= old(self)@.buffer + chunk@);
            }
            None
        } else {
            match scan_percent(chunk) {
                Some(pc) => {
                    if pc.gt(&self.last) {
                        let out = pc.clone();
                        self.last = pc;
                        Some(out)
                    } else {
                        None
                    }
                },
                None => None,
            }
        }
    }

    /// End of stream: with a success status and a buffer that holds a
    /// complete JSON object (non-empty, ending in `}`), hand the buffer
    /// out; otherwise report what went wrong, echoing the body text on an
    /// HTTP error status.
    pub fn finish(self, status: u16) -> (r: Result<Vec<u8>, FoundryError>)
        ensures
            match r {
                Ok(body) => {
                    &&& 200 <= status < 300
                    &&& self@.buffer.len() > 0
                    &&& self@.buffer.last() == 125
                    &&& body@ == self@.buffer
                },
                Err(e) => match e {
                    FoundryError::HttpStatus(code, body) => {
                        &&& !(200 <= status < 300)
                        &&& code == status
                        &&& body@ == lossy_decoded(self@.buffer)
                    },
                    FoundryError::EmptyBody => {
                        &&& 200 <= status < 300
                        &&& self@.buffer.len() == 0
                    },
                    FoundryError::MalformedBody => {
                        &&& 200 <= status < 300
                        &&& self@.buffer.len() > 0
                        &&& self@.buffer.last() != 125
                    },
                    _ => false,
                },
            },
    {
        if !(200 <= status && status < 300) {
            let text = bytes_to_string_lossy(self.buffer.as_slice());
            return Err(FoundryError::HttpStatus(status, text));
        }
        let n = self.buffer.len();
        if n == 0 {
            return Err(FoundryError::EmptyBody);
        }
        if self.buffer[n - 1] != 125 {
            return Err(FoundryError::MalformedBody);
        }
        Ok(self.buffer)
    }
}

/// What `String::from_utf8_lossy` decodes a byte sequence to: a function
/// of the bytes alone.
pub uninterp spec fn lossy_decoded(bytes: Seq<u8>) -> Seq<char>;

/// Relies on `String::from_utf8_lossy`: decodes UTF-8, replacing invalid
/// sequences; ASCII bytes decode to themselves.
#[verifier::external_body]
pub(crate) fn bytes_to_string_lossy(bytes: &[u8]) -> (r: String)
    ensures
        r@ == lossy_decoded(bytes@),
        (forall|i: int| 0 <= i < bytes@.len() ==> bytes@[i] < 128) ==> (r@.len() == bytes@.len()
            && forall|i: int| 0 <= i < bytes@.len() ==> r@[i] == bytes@[i] as char),
{
    String::from_utf8_lossy(bytes).into_owned()
}

} // verus!
