//! Byte and text helpers shared by the request parser and the response renderer.

use vstd::prelude::*;
use vstd::slice::*;
use vstd::string::*;
use vstd::utf8::*;

verus! {

/// The bytes that a piece of text occupies on the wire.
pub open spec fn bytes_of(text: Seq<char>) -> Seq<u8> {
    encode_utf8(text)
}

/// `pat` occurs in `s` starting at index `i`.
pub open spec fn occurs_at(s: Seq<u8>, pat: Seq<u8>, i: int) -> bool {
    &&& 0 <= i
    &&& i + pat.len() <= s.len()
    &&& s.subrange(i, i + pat.len()) == pat
}

/// `i` is the least index at which `pat` occurs in `s`.
pub open spec fn is_first_occurrence(s: Seq<u8>, pat: Seq<u8>, i: int) -> bool {
    &&& occurs_at(s, pat, i)
    &&& forall|j: int| 0 <= j < i ==> !occurs_at(s, pat, j)
}

/// `pat` occurs somewhere in `s`.
pub open spec fn contains(s: Seq<u8>, pat: Seq<u8>) -> bool {
    exists|i: int| occurs_at(s, pat, i)
}

/// The least index at which `pat` occurs in `s`, or `s.len()` when it occurs nowhere.
pub open spec fn first_occurrence(s: Seq<u8>, pat: Seq<u8>) -> int {
    if contains(s, pat) {
        choose|i: int| is_first_occurrence(s, pat, i)
    } else {
        s.len() as int
    }
}

/// The part of `s` in front of the first occurrence of `pat`; all of `s` when `pat`
/// does not occur.
pub open spec fn before(s: Seq<u8>, pat: Seq<u8>) -> Seq<u8> {
    s.subrange(0, first_occurrence(s, pat))
}

/// The part of `s` behind the first occurrence of `pat`; empty when `pat` does not occur.
pub open spec fn after(s: Seq<u8>, pat: Seq<u8>) -> Seq<u8> {
    if contains(s, pat) {
        s.subrange(first_occurrence(s, pat) + pat.len(), s.len() as int)
    } else {
        Seq::empty()
    }
}

/// An index that is a first occurrence is the one `first_occurrence` names.
pub proof fn lemma_first_occurrence_found(s: Seq<u8>, pat: Seq<u8>, i: int)
    requires
        is_first_occurrence(s, pat, i),
    ensures
        contains(s, pat),
        first_occurrence(s, pat) == i,
{
    let c = choose|c: int| is_first_occurrence(s, pat, c);
    assert(is_first_occurrence(s, pat, c));
    if c < i {
        assert(!occurs_at(s, pat, c));
    } else if i < c {
        assert(!occurs_at(s, pat, i));
    }
}

/// Where `pat` occurs nowhere, `first_occurrence` is the length of `s`.
pub proof fn lemma_first_occurrence_absent(s: Seq<u8>, pat: Seq<u8>)
    requires
        forall|j: int| 0 <= j <= s.len() ==> !occurs_at(s, pat, j),
    ensures
        !contains(s, pat),
        first_occurrence(s, pat) == s.len(),
{
}

/// `first_occurrence` is within `s`, is the least occurrence when there is one,
/// and leaves room for `pat` exactly when `pat` occurs.
pub proof fn lemma_first_occurrence_bounds(s: Seq<u8>, pat: Seq<u8>)
    ensures
        0 <= first_occurrence(s, pat) <= s.len(),
        contains(s, pat) ==> is_first_occurrence(s, pat, first_occurrence(s, pat)),
        !contains(s, pat) ==> first_occurrence(s, pat) == s.len(),
{
    if contains(s, pat) {
        let w = choose|i: int| occurs_at(s, pat, i);
        lemma_least_occurrence(s, pat, w);
    }
}

/// Below any occurrence there is a least one.
proof fn lemma_least_occurrence(s: Seq<u8>, pat: Seq<u8>, w: int)
    requires
        occurs_at(s, pat, w),
    ensures
        exists|i: int| is_first_occurrence(s, pat, i),
    decreases w,
{
    if exists|j: int| 0 <= j < w && occurs_at(s, pat, j) {
        let j = choose|j: int| 0 <= j < w && occurs_at(s, pat, j);
        lemma_least_occurrence(s, pat, j);
    } else {
        assert(is_first_occurrence(s, pat, w));
    }
}

/// Tells whether `pat` occurs in `s` at index `i`.
pub fn matches_at(s: &[u8], pat: &[u8], i: usize) -> (hit: bool)
    ensures
        hit == occurs_at(s@, pat@, i as int),
{
    let n: usize = s.len();
    if i > n || pat.len() > n - i {
        return false;
    }
    let mut k: usize = 0;
    while k < pat.len()
        invariant
            k <= pat@.len(),
            i + pat@.len() <= s@.len(),
            n == s@.len(),
            forall|m: int| 0 <= m < k ==> s@[i + m] == pat@[m],
        decreases pat@.len() - k,
    {
        if s[i + k] != pat[k] {
            assert(s@.subrange(i as int, i + pat@.len())[k as int] != pat@[k as int]);
            return false;
        }
        k += 1;
    }
    assert(s@.subrange(i as int, i + pat@.len()) =~= pat@);
    true
}

/// Finds the first occurrence of `pat` in `s`; returns `s.len()` when there is none.
pub fn find(s: &[u8], pat: &[u8]) -> (at: usize)
    ensures
        at == first_occurrence(s@, pat@),
        contains(s@, pat@) <==> at + pat@.len() <= s@.len(),
{
    if pat.len() > s.len() {
        proof {
            lemma_first_occurrence_absent(s@, pat@);
        }
        return s.len();
    }
    let n: usize = s.len();
    let last: usize = n - pat.len();
    let mut i: usize = 0;
    while i < last
        invariant
            n == s@.len(),
            last == s@.len() - pat@.len(),
            i <= last,
            forall|j: int| 0 <= j < i ==> !occurs_at(s@, pat@, j),
        decreases last - i,
    {
        if matches_at(s, pat, i) {
            proof {
                lemma_first_occurrence_found(s@, pat@, i as int);
            }
            return i;
        }
        i += 1;
    }
    if matches_at(s, pat, last) {
        proof {
            lemma_first_occurrence_found(s@, pat@, last as int);
        }
        return last;
    }
    proof {
        lemma_first_occurrence_absent(s@, pat@);
        if pat@.len() == 0 {
            assert(s@.subrange(last as int, last as int) =~= pat@);
        }
    }
    n
}

/// Compares two byte strings.
pub fn bytes_eq(a: &[u8], b: &[u8]) -> (same: bool)
    ensures
        same == (a@ == b@),
{
    if a.len() != b.len() {
        return false;
    }
    let mut k: usize = 0;
    while k < a.len()
        invariant
            a@.len() == b@.len(),
            k <= a@.len(),
            forall|m: int| 0 <= m < k ==> a@[m] == b@[m],
        decreases a@.len() - k,
    {
        if a[k] != b[k] {
            return false;
        }
        k += 1;
    }
    assert(a@ =~= b@);
    true
}

/// Compares two pieces of text.
pub fn str_eq(a: &str, b: &str) -> (same: bool)
    ensures
        same == (a@ == b@),
{
    proof {
        encode_utf8_decode_utf8(a@);
        encode_utf8_decode_utf8(b@);
    }
    bytes_eq(a.as_bytes(), b.as_bytes())
}

/// In well-formed UTF-8 a character starts at every ASCII byte and right behind it.
pub proof fn lemma_ascii_is_char_boundary(bytes: Seq<u8>, i: int)
    requires
        valid_utf8(bytes),
        0 <= i < bytes.len(),
        bytes[i] < 0x80,
    ensures
        is_char_boundary(bytes, i),
        is_char_boundary(bytes, i + 1),
        valid_utf8(bytes.subrange(i + 1, bytes.len() as int)),
{
    is_char_boundary_iff_not_is_continuation_byte(bytes, i);
    valid_utf8_split(bytes, i);
    let suffix = bytes.subrange(i, bytes.len() as int);
    assert(suffix[0] == bytes[i]);
    assert(is_leading_byte_width_1(suffix[0]));
    let rest = bytes.subrange(i + 1, bytes.len() as int);
    assert(pop_first_scalar(suffix) =~= rest);
    assert(valid_utf8(rest));
    if i + 1 < bytes.len() {
        assert(valid_first_scalar(rest));
        assert(rest[0] == bytes[i + 1]);
        is_char_boundary_iff_not_is_continuation_byte(bytes, i + 1);
    } else {
        is_char_boundary_start_end_of_seq(bytes);
    }
}

/// The character that a decimal digit is written with.
pub open spec fn digit(d: int) -> char {
    "0123456789"@[d]
}

/// The decimal numeral of `n`: no sign, no leading zeros, `"0"` for zero.
pub open spec fn decimal(n: nat) -> Seq<char>
    decreases n,
{
    if n < 10 {
        seq![digit(n as int)]
    } else {
        decimal(n / 10) + seq![digit((n % 10) as int)]
    }
}

/// The one-character text of a decimal digit.
fn digit_str(d: usize) -> (text: &'static str)
    requires
        d < 10,
    ensures
        text@ == seq![digit(d as int)],
{
    proof {
        reveal_strlit("0123456789");
    }
    let text = "0123456789".substring_ascii(d, d + 1);
    assert(text@ =~= seq![digit(d as int)]);
    text
}

/// Appends the decimal numeral of `n` to `out`.
pub fn push_decimal(out: &mut String, n: u64)
    ensures
        final(out)@ == old(out)@ + decimal(n as nat),
    decreases n,
{
    if n >= 10 {
        push_decimal(out, n / 10);
    }
    out.append(digit_str((n % 10) as usize));
    assert(out@ =~= old(out)@ + decimal(n as nat));
}

} // verus!
