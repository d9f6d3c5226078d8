//! Permissive text decoding for the free-text fields of a header.
//!
//! Field bytes are trimmed of ASCII whitespace at both ends and then decoded
//! as UTF-8, substituting the replacement character for invalid sequences
//! rather than failing.

use vstd::prelude::*;
use vstd::utf8::{decode_utf8, valid_utf8};

verus! {

/// The whitespace bytes removed from the ends of a free-text field: space and
/// the ASCII control whitespace (tab through carriage return).
pub open spec fn is_trim_byte(b: u8) -> bool {
    b == 32 || (9 <= b && b <= 13)
}

/// `s` without leading whitespace bytes.
pub open spec fn trim_front(s: Seq<u8>) -> Seq<u8>
    decreases s.len(),
{
    if s.len() > 0 && is_trim_byte(s[0]) {
        trim_front(s.subrange(1, s.len() as int))
    } else {
        s
    }
}

/// `s` without trailing whitespace bytes.
pub open spec fn trim_back(s: Seq<u8>) -> Seq<u8>
    decreases s.len(),
{
    if s.len() > 0 && is_trim_byte(s[s.len() - 1]) {
        trim_back(s.subrange(0, s.len() - 1))
    } else {
        s
    }
}

/// `s` without whitespace bytes at either end.
pub open spec fn trimmed(s: Seq<u8>) -> Seq<u8> {
    trim_back(trim_front(s))
}

/// The characters that a permissive UTF-8 decode of `s` yields: valid
/// sequences decode as themselves, invalid ones become replacement markers.
pub uninterp spec fn lossy_of(s: Seq<u8>) -> Seq<char>;

/// Every byte of `s` is ASCII.
pub open spec fn ascii_seq(s: Seq<u8>) -> bool {
    forall|k: int| 0 <= k < s.len() ==> s[k] < 128
}

/// ASCII bytes read as characters, one for one.
pub open spec fn ascii_chars(s: Seq<u8>) -> Seq<char> {
    s.map_values(|b: u8| b as char)
}

/// Relies on `String::from_utf8_lossy`: it decodes the bytes permissively,
/// replacing invalid UTF-8 sequences with U+FFFD; valid UTF-8 (and so in
/// particular plain ASCII) comes through unchanged.
#[verifier::external_body]
fn lossy_string(bytes: &Vec<u8>) -> (r: String)
    ensures
        r@ == lossy_of(bytes@),
        valid_utf8(bytes@) ==> r@ == decode_utf8(bytes@),
        ascii_seq(bytes@) ==> r@ == ascii_chars(bytes@),
{
    String::from_utf8_lossy(bytes).into_owned()
}

/// Copies `input[lo..hi]` into a fresh vector.
pub fn bytes_range(input: &[u8], lo: usize, hi: usize) -> (r: Vec<u8>)
    requires
        lo <= hi <= input@.len(),
    ensures
        r@ == input@.subrange(lo as int, hi as int),
{
    let mut v: Vec<u8> = Vec::new();
    let mut k: usize = lo;
    while k < hi
        invariant
            lo <= k <= hi <= input@.len(),
            v@ == input@.subrange(lo as int, k as int),
        decreases hi - k,
    {
        v.push(input[k]);
        proof {
            assert(input@.subrange(lo as int, k + 1 as int) =~= input@.subrange(
                lo as int,
                k as int,
            ).push(input@[k as int]));
        }
        k = k + 1;
    }
    v
}

proof fn lemma_trim_front_range(s: Seq<u8>, a: int)
    requires
        0 <= a <= s.len(),
        forall|k: int| 0 <= k < a ==> is_trim_byte(#[trigger] s[k]),
        a == s.len() || !is_trim_byte(s[a]),
    ensures
        trim_front(s) == s.subrange(a, s.len() as int),
    decreases a,
{
    if a == 0 {
        assert(s.subrange(0, s.len() as int) =~= s);
    } else {
        let s1 = s.subrange(1, s.len() as int);
        lemma_trim_front_range(s1, a - 1);
        assert(s1.subrange(a - 1, s1.len() as int) =~= s.subrange(a, s.len() as int));
    }
}

proof fn lemma_trim_back_range(s: Seq<u8>, b: int)
    requires
        0 <= b <= s.len(),
        forall|k: int| b <= k < s.len() ==> is_trim_byte(#[trigger] s[k]),
        b == 0 || !is_trim_byte(s[b - 1]),
    ensures
        trim_back(s) == s.subrange(0, b),
    decreases s.len() - b,
{
    if b == s.len() {
        assert(s.subrange(0, s.len() as int) =~= s);
    } else {
        let s1 = s.subrange(0, s.len() - 1);
        lemma_trim_back_range(s1, b);
        assert(s1.subrange(0, b) =~= s.subrange(0, b));
    }
}

/// Trimming does nothing to a sequence with no whitespace at its ends.
pub proof fn lemma_trimmed_no_ws(s: Seq<u8>)
    requires
        s.len() == 0 || (!is_trim_byte(s[0]) && !is_trim_byte(s[s.len() - 1])),
    ensures
        trimmed(s) == s,
{
    assert(trim_front(s) == s);
    assert(trim_back(s) == s);
}

fn is_trim(b: u8) -> (r: bool)
    ensures
        r == is_trim_byte(b),
{
    b == 32 || (9 <= b && b <= 13)
}

/// The field bytes trimmed of whitespace and decoded permissively.
pub fn trimmed_string(v: &Vec<u8>) -> (r: String)
    ensures
        r@ == lossy_of(trimmed(v@)),
        ascii_seq(trimmed(v@)) ==> r@ == ascii_chars(trimmed(v@)),
{
    let n: usize = v.len();
    let mut a: usize = 0;
    while a < n && is_trim(v[a])
        invariant
            0 <= a <= n == v@.len(),
            forall|k: int| 0 <= k < a ==> is_trim_byte(#[trigger] v@[k]),
        decreases n - a,
    {
        a = a + 1;
    }
    let mut b: usize = n;
    while b > a && is_trim(v[b - 1])
        invariant
            a <= b <= n == v@.len(),
            forall|k: int| b <= k < n ==> is_trim_byte(#[trigger] v@[k]),
        decreases b,
    {
        b = b - 1;
    }
    proof {
        lemma_trim_front_range(v@, a as int);
        let t = v@.subrange(a as int, v@.len() as int);
        lemma_trim_back_range(t, b - a);
        assert(t.subrange(0, b - a) =~= v@.subrange(a as int, b as int));
    }
    let core = bytes_range(v.as_slice(), a, b);
    lossy_string(&core)
}

/// The field bytes decoded permissively, kept as they are.
pub fn plain_string(v: &Vec<u8>) -> (r: String)
    ensures
        r@ == lossy_of(v@),
        ascii_seq(v@) ==> r@ == ascii_chars(v@),
{
    lossy_string(v)
}

} // verus!
