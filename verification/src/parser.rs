//! Token primitives and field parsers for the header grammar.
//!
//! Every parser works on the whole input buffer and a cursor position, and
//! returns the new cursor together with the parsed value, or a [`Failure`]
//! naming the position where and the category why it stopped. Each parser's
//! behaviour is pinned down by a spec-level twin (`spec_...`), so that the two
//! record assemblers compose to a deterministic function of the input bytes.

use vstd::prelude::*;

use crate::Database;
use crate::ProteinExistence;
use crate::error::Failure;
use crate::error::FailureKind;
use crate::error::mal;
use crate::text::bytes_range;

verus! {

/// `>`
pub const CHEVRON_BYTE: u8 = 62;

/// `|`
pub const PIPE_BYTE: u8 = 124;

/// `_`
pub const UNDERSCORE_BYTE: u8 = 95;

/// `-`
pub const HYPHEN_BYTE: u8 = 45;

/// `.`
pub const DOT_BYTE: u8 = 46;

/// `=`
pub const EQUALS_BYTE: u8 = 61;

/// `E`
pub const UC_E: u8 = 69;

/// `G`
pub const UC_G: u8 = 71;

/// `N`
pub const UC_N: u8 = 78;

/// `O`
pub const UC_O: u8 = 79;

/// `P`
pub const UC_P: u8 = 80;

/// `Q`
pub const UC_Q: u8 = 81;

/// `S`
pub const UC_S: u8 = 83;

/// `V`
pub const UC_V: u8 = 86;

/// `X`
pub const UC_X: u8 = 88;

/// `p`
pub const LC_P: u8 = 112;

/// `r`
pub const LC_R: u8 = 114;

/// `s`
pub const LC_S: u8 = 115;

/// `t`
pub const LC_T: u8 = 116;

// ---------------------------------------------------------------------------
// Byte classes
// ---------------------------------------------------------------------------

/// ASCII digit `0`..`9`.
pub open spec fn is_digit_byte(b: u8) -> bool {
    48 <= b && b <= 57
}

/// ASCII upper-case letter `A`..`Z`.
pub open spec fn is_upper_byte(b: u8) -> bool {
    65 <= b && b <= 90
}

/// ASCII lower-case letter `a`..`z`.
pub open spec fn is_lower_byte(b: u8) -> bool {
    97 <= b && b <= 122
}

/// ASCII letter or digit.
pub open spec fn is_alnum_byte(b: u8) -> bool {
    is_digit_byte(b) || is_upper_byte(b) || is_lower_byte(b)
}

/// Space or tab, the separators between header fields.
pub open spec fn is_space_byte(b: u8) -> bool {
    b == 32 || b == 9
}

/// A byte accepted in a gene name read without a ` PE=` sentinel.
pub open spec fn is_gene_byte(b: u8) -> bool {
    is_alnum_byte(b) || b == HYPHEN_BYTE || b == UNDERSCORE_BYTE || b == DOT_BYTE
}

fn is_digit_b(b: u8) -> (r: bool)
    ensures
        r == is_digit_byte(b),
{
    48 <= b && b <= 57
}

fn is_alnum_b(b: u8) -> (r: bool)
    ensures
        r == is_alnum_byte(b),
{
    (48 <= b && b <= 57) || (65 <= b && b <= 90) || (97 <= b && b <= 122)
}

fn is_space_b(b: u8) -> (r: bool)
    ensures
        r == is_space_byte(b),
{
    b == 32 || b == 9
}

fn is_gene_b(b: u8) -> (r: bool)
    ensures
        r == is_gene_byte(b),
{
    is_alnum_b(b) || b == HYPHEN_BYTE || b == UNDERSCORE_BYTE || b == DOT_BYTE
}

// ---------------------------------------------------------------------------
// Byte runs
// ---------------------------------------------------------------------------

/// Length of the run of space/tab bytes starting at `i`.
pub open spec fn space_run(s: Seq<u8>, i: int) -> int
    decreases s.len() - i,
{
    if i < 0 || i >= s.len() || !is_space_byte(s[i]) {
        0
    } else {
        1 + space_run(s, i + 1)
    }
}

/// Length of the run of digit bytes starting at `i`.
pub open spec fn digit_run(s: Seq<u8>, i: int) -> int
    decreases s.len() - i,
{
    if i < 0 || i >= s.len() || !is_digit_byte(s[i]) {
        0
    } else {
        1 + digit_run(s, i + 1)
    }
}

/// Length of the run of alphanumeric bytes starting at `i`.
pub open spec fn alnum_run(s: Seq<u8>, i: int) -> int
    decreases s.len() - i,
{
    if i < 0 || i >= s.len() || !is_alnum_byte(s[i]) {
        0
    } else {
        1 + alnum_run(s, i + 1)
    }
}

/// Length of the run of gene-name bytes starting at `i`.
pub open spec fn gene_run(s: Seq<u8>, i: int) -> int
    decreases s.len() - i,
{
    if i < 0 || i >= s.len() || !is_gene_byte(s[i]) {
        0
    } else {
        1 + gene_run(s, i + 1)
    }
}

proof fn lemma_space_run_nonneg(s: Seq<u8>, i: int)
    ensures
        space_run(s, i) >= 0,
    decreases s.len() - i,
{
    if !(i < 0 || i >= s.len() || !is_space_byte(s[i])) {
        lemma_space_run_nonneg(s, i + 1);
    }
}

proof fn lemma_space_run(s: Seq<u8>, i: int, n: int)
    requires
        0 <= i,
        0 <= n,
        i + n <= s.len(),
        forall|k: int| i <= k < i + n ==> is_space_byte(#[trigger] s[k]),
        i + n == s.len() || !is_space_byte(s[i + n]),
    ensures
        space_run(s, i) == n,
    decreases n,
{
    if n > 0 {
        lemma_space_run(s, i + 1, n - 1);
    }
}

proof fn lemma_digit_run(s: Seq<u8>, i: int, n: int)
    requires
        0 <= i,
        0 <= n,
        i + n <= s.len(),
        forall|k: int| i <= k < i + n ==> is_digit_byte(#[trigger] s[k]),
        i + n == s.len() || !is_digit_byte(s[i + n]),
    ensures
        digit_run(s, i) == n,
    decreases n,
{
    if n > 0 {
        lemma_digit_run(s, i + 1, n - 1);
    }
}

proof fn lemma_alnum_run(s: Seq<u8>, i: int, n: int)
    requires
        0 <= i,
        0 <= n,
        i + n <= s.len(),
        forall|k: int| i <= k < i + n ==> is_alnum_byte(#[trigger] s[k]),
        i + n == s.len() || !is_alnum_byte(s[i + n]),
    ensures
        alnum_run(s, i) == n,
    decreases n,
{
    if n > 0 {
        lemma_alnum_run(s, i + 1, n - 1);
    }
}

proof fn lemma_gene_run(s: Seq<u8>, i: int, n: int)
    requires
        0 <= i,
        0 <= n,
        i + n <= s.len(),
        forall|k: int| i <= k < i + n ==> is_gene_byte(#[trigger] s[k]),
        i + n == s.len() || !is_gene_byte(s[i + n]),
    ensures
        gene_run(s, i) == n,
    decreases n,
{
    if n > 0 {
        lemma_gene_run(s, i + 1, n - 1);
    }
}

/// The bytes inside a digit run are digits.
pub proof fn lemma_digit_run_bytes(s: Seq<u8>, i: int)
    requires
        0 <= i <= s.len(),
    ensures
        i + digit_run(s, i) <= s.len(),
        forall|k: int| i <= k < i + digit_run(s, i) ==> is_digit_byte(#[trigger] s[k]),
    decreases s.len() - i,
{
    if !(i >= s.len() || !is_digit_byte(s[i])) {
        lemma_digit_run_bytes(s, i + 1);
    }
}

/// The bytes inside an alphanumeric run are alphanumeric.
pub proof fn lemma_alnum_run_bytes(s: Seq<u8>, i: int)
    requires
        0 <= i <= s.len(),
    ensures
        i + alnum_run(s, i) <= s.len(),
        forall|k: int| i <= k < i + alnum_run(s, i) ==> is_alnum_byte(#[trigger] s[k]),
    decreases s.len() - i,
{
    if !(i >= s.len() || !is_alnum_byte(s[i])) {
        lemma_alnum_run_bytes(s, i + 1);
    }
}

fn scan_space(input: &[u8], pos: usize) -> (r: usize)
    requires
        pos <= input@.len(),
    ensures
        pos <= r <= input@.len(),
        r == pos + space_run(input@, pos as int),
{
    let n: usize = input.len();
    let mut j: usize = pos;
    while j < n && is_space_b(input[j])
        invariant
            pos <= j <= n == input@.len(),
            forall|k: int| pos <= k < j ==> is_space_byte(#[trigger] input@[k]),
        decreases n - j,
    {
        j = j + 1;
    }
    proof {
        lemma_space_run(input@, pos as int, j - pos);
    }
    j
}

fn scan_digits(input: &[u8], pos: usize) -> (r: usize)
    requires
        pos <= input@.len(),
    ensures
        pos <= r <= input@.len(),
        r == pos + digit_run(input@, pos as int),
{
    let n: usize = input.len();
    let mut j: usize = pos;
    while j < n && is_digit_b(input[j])
        invariant
            pos <= j <= n == input@.len(),
            forall|k: int| pos <= k < j ==> is_digit_byte(#[trigger] input@[k]),
        decreases n - j,
    {
        j = j + 1;
    }
    proof {
        lemma_digit_run(input@, pos as int, j - pos);
    }
    j
}

fn scan_alnum(input: &[u8], pos: usize) -> (r: usize)
    requires
        pos <= input@.len(),
    ensures
        pos <= r <= input@.len(),
        r == pos + alnum_run(input@, pos as int),
{
    let n: usize = input.len();
    let mut j: usize = pos;
    while j < n && is_alnum_b(input[j])
        invariant
            pos <= j <= n == input@.len(),
            forall|k: int| pos <= k < j ==> is_alnum_byte(#[trigger] input@[k]),
        decreases n - j,
    {
        j = j + 1;
    }
    proof {
        lemma_alnum_run(input@, pos as int, j - pos);
    }
    j
}

fn scan_gene(input: &[u8], pos: usize) -> (r: usize)
    requires
        pos <= input@.len(),
    ensures
        pos <= r <= input@.len(),
        r == pos + gene_run(input@, pos as int),
{
    let n: usize = input.len();
    let mut j: usize = pos;
    while j < n && is_gene_b(input[j])
        invariant
            pos <= j <= n == input@.len(),
            forall|k: int| pos <= k < j ==> is_gene_byte(#[trigger] input@[k]),
        decreases n - j,
    {
        j = j + 1;
    }
    proof {
        lemma_gene_run(input@, pos as int, j - pos);
    }
    j
}

// ---------------------------------------------------------------------------
// Tags and sentinels
// ---------------------------------------------------------------------------

/// The three-byte tag `<b1><b2>=` stands at position `i`.
pub open spec fn tag3_at(s: Seq<u8>, i: int, b1: u8, b2: u8) -> bool {
    0 <= i && i + 3 <= s.len() && s[i] == b1 && s[i + 1] == b2 && s[i + 2] == EQUALS_BYTE
}

/// The four-byte sentinel ` <b1><b2>=` stands at position `j`.
pub open spec fn sentinel_at(s: Seq<u8>, j: int, b1: u8, b2: u8) -> bool {
    0 <= j && j + 4 <= s.len() && s[j] == 32 && s[j + 1] == b1 && s[j + 2] == b2 && s[j + 3]
        == EQUALS_BYTE
}

/// Position of the first occurrence of the sentinel ` <b1><b2>=` at or after
/// `i`, or `-1` if it never occurs.
pub open spec fn find_sentinel(s: Seq<u8>, i: int, b1: u8, b2: u8) -> int
    decreases s.len() - i,
{
    if i < 0 || i + 4 > s.len() {
        -1
    } else if sentinel_at(s, i, b1, b2) {
        i
    } else {
        find_sentinel(s, i + 1, b1, b2)
    }
}

proof fn lemma_find_sentinel_found(s: Seq<u8>, i: int, j: int, b1: u8, b2: u8)
    requires
        0 <= i <= j,
        sentinel_at(s, j, b1, b2),
        forall|k: int| i <= k < j ==> !sentinel_at(s, k, b1, b2),
    ensures
        find_sentinel(s, i, b1, b2) == j,
    decreases j - i,
{
    if i < j {
        lemma_find_sentinel_found(s, i + 1, j, b1, b2);
    }
}

proof fn lemma_find_sentinel_none(s: Seq<u8>, i: int, b1: u8, b2: u8)
    requires
        0 <= i,
        forall|k: int| i <= k < s.len() ==> !sentinel_at(s, k, b1, b2),
    ensures
        find_sentinel(s, i, b1, b2) == -1,
    decreases s.len() - i,
{
    if i + 4 <= s.len() {
        lemma_find_sentinel_none(s, i + 1, b1, b2);
    }
}

fn tag3_check(input: &[u8], pos: usize, b1: u8, b2: u8) -> (r: bool)
    requires
        pos <= input@.len(),
    ensures
        r == tag3_at(input@, pos as int, b1, b2),
{
    input.len() - pos >= 3 && input[pos] == b1 && input[pos + 1] == b2 && input[pos + 2]
        == EQUALS_BYTE
}

fn find_sentinel_exec(input: &[u8], pos: usize, b1: u8, b2: u8) -> (r: Option<usize>)
    requires
        pos <= input@.len(),
    ensures
        match r {
            Some(j) => pos <= j && j + 4 <= input@.len() && j == find_sentinel(
                input@,
                pos as int,
                b1,
                b2,
            ),
            None => find_sentinel(input@, pos as int, b1, b2) == -1,
        },
{
    let n: usize = input.len();
    let mut j: usize = pos;
    while n - j >= 4
        invariant
            pos <= j <= n == input@.len(),
            forall|k: int| pos <= k < j ==> !sentinel_at(input@, k, b1, b2),
        decreases n - j,
    {
        if input[j] == 32 && input[j + 1] == b1 && input[j + 2] == b2 && input[j + 3]
            == EQUALS_BYTE {
            proof {
                lemma_find_sentinel_found(input@, pos as int, j as int, b1, b2);
            }
            return Some(j);
        }
        j = j + 1;
    }
    proof {
        lemma_find_sentinel_none(input@, pos as int, b1, b2);
    }
    None
}

// ---------------------------------------------------------------------------
// Result views
// ---------------------------------------------------------------------------

/// View of a position-only parse result.
pub open spec fn pos_res(r: Result<usize, Failure>) -> Result<int, Failure> {
    match r {
        Ok(j) => Ok(j as int),
        Err(f) => Err(f),
    }
}

/// View of a position-and-bytes parse result.
pub open spec fn bytes_res(r: Result<(usize, Vec<u8>), Failure>) -> Result<(int, Seq<u8>), Failure> {
    match r {
        Ok((j, v)) => Ok((j as int, v@)),
        Err(f) => Err(f),
    }
}

/// View of the database parse result.
pub open spec fn db_res(r: Result<(usize, Database), Failure>) -> Result<(int, Database), Failure> {
    match r {
        Ok((j, d)) => Ok((j as int, d)),
        Err(f) => Err(f),
    }
}

/// View of the existence parse result.
pub open spec fn pe_res(r: Result<(usize, ProteinExistence), Failure>) -> Result<
    (int, ProteinExistence),
    Failure,
> {
    match r {
        Ok((j, p)) => Ok((j as int, p)),
        Err(f) => Err(f),
    }
}

/// View of the isoform-identifier parse result.
pub open spec fn iso_res(r: Result<(usize, Vec<u8>, Vec<u8>), Failure>) -> Result<
    (int, Seq<u8>, Seq<u8>),
    Failure,
> {
    match r {
        Ok((j, id, iso)) => Ok((j as int, id@, iso@)),
        Err(f) => Err(f),
    }
}

/// View of the optional-gene-name result.
pub open spec fn gene_res(r: (usize, Option<Vec<u8>>, Option<Vec<u8>>)) -> (
    int,
    Option<Seq<u8>>,
    Option<Seq<u8>>,
) {
    (
        r.0 as int,
        match r.1 {
            Some(v) => Some(v@),
            None => None,
        },
        match r.2 {
            Some(v) => Some(v@),
            None => None,
        },
    )
}

// ---------------------------------------------------------------------------
// Token primitives
// ---------------------------------------------------------------------------

/// What [`chevron`] returns: one `>` byte consumed, or a tag mismatch.
pub open spec fn spec_chevron(s: Seq<u8>, i: int) -> Result<int, Failure> {
    if 0 <= i && i < s.len() && s[i] == CHEVRON_BYTE {
        Ok(i + 1)
    } else {
        Err(mal(i, FailureKind::TagMismatch))
    }
}

/// Consumes the literal `>`.
pub fn chevron(input: &[u8], pos: usize) -> (r: Result<usize, Failure>)
    requires
        pos <= input@.len(),
    ensures
        pos_res(r) == spec_chevron(input@, pos as int),
        r matches Ok(j) ==> j <= input@.len(),
        r matches Err(Failure::Malformed(at, _)) ==> at <= input@.len(),
{
    if pos < input.len() && input[pos] == CHEVRON_BYTE {
        Ok(pos + 1)
    } else {
        Err(Failure::Malformed(pos, FailureKind::TagMismatch))
    }
}

/// What [`pipe`] returns: one `|` byte consumed, or a tag mismatch.
pub open spec fn spec_pipe(s: Seq<u8>, i: int) -> Result<int, Failure> {
    if 0 <= i && i < s.len() && s[i] == PIPE_BYTE {
        Ok(i + 1)
    } else {
        Err(mal(i, FailureKind::TagMismatch))
    }
}

/// Consumes the literal `|`.
pub fn pipe(input: &[u8], pos: usize) -> (r: Result<usize, Failure>)
    requires
        pos <= input@.len(),
    ensures
        pos_res(r) == spec_pipe(input@, pos as int),
        r matches Ok(j) ==> j <= input@.len(),
        r matches Err(Failure::Malformed(at, _)) ==> at <= input@.len(),
{
    if pos < input.len() && input[pos] == PIPE_BYTE {
        Ok(pos + 1)
    } else {
        Err(Failure::Malformed(pos, FailureKind::TagMismatch))
    }
}

/// What [`space`] returns: the whole run of spaces and tabs, which must not be
/// empty.
pub open spec fn spec_space(s: Seq<u8>, i: int) -> Result<int, Failure> {
    if space_run(s, i) >= 1 {
        Ok(i + space_run(s, i))
    } else {
        Err(mal(i, FailureKind::LengthBound))
    }
}

/// Consumes one or more space or tab bytes.
pub fn space(input: &[u8], pos: usize) -> (r: Result<usize, Failure>)
    requires
        pos <= input@.len(),
    ensures
        pos_res(r) == spec_space(input@, pos as int),
        r matches Ok(j) ==> j <= input@.len(),
        r matches Err(Failure::Malformed(at, _)) ==> at <= input@.len(),
{
    let e = scan_space(input, pos);
    if e > pos {
        Ok(e)
    } else {
        Err(Failure::Malformed(pos, FailureKind::LengthBound))
    }
}

/// What [`db`] returns: `sp` maps to Swiss-Prot, `tr` to TrEMBL, anything
/// else is a tag mismatch.
pub open spec fn spec_db(s: Seq<u8>, i: int) -> Result<(int, Database), Failure> {
    if 0 <= i && i + 2 <= s.len() && s[i] == LC_S && s[i + 1] == LC_P {
        Ok((i + 2, Database::SwissProt))
    } else if 0 <= i && i + 2 <= s.len() && s[i] == LC_T && s[i + 1] == LC_R {
        Ok((i + 2, Database::TrEMBL))
    } else {
        Err(mal(i, FailureKind::TagMismatch))
    }
}

/// Consumes the database tag, `sp` or `tr`.
pub fn db(input: &[u8], pos: usize) -> (r: Result<(usize, Database), Failure>)
    requires
        pos <= input@.len(),
    ensures
        db_res(r) == spec_db(input@, pos as int),
        r matches Ok((j, _)) ==> j <= input@.len(),
        r matches Err(Failure::Malformed(at, _)) ==> at <= input@.len(),
{
    if input.len() - pos >= 2 {
        let b0 = input[pos];
        let b1 = input[pos + 1];
        if b0 == LC_S && b1 == LC_P {
            return Ok((pos + 2, Database::SwissProt));
        }
        if b0 == LC_T && b1 == LC_R {
            return Ok((pos + 2, Database::TrEMBL));
        }
    }
    Err(Failure::Malformed(pos, FailureKind::TagMismatch))
}

// ---------------------------------------------------------------------------
// Accession matcher
// ---------------------------------------------------------------------------

/// A byte that can occur in an accession: upper-case letter or digit.
pub open spec fn is_acc_byte(b: u8) -> bool {
    is_upper_byte(b) || is_digit_byte(b)
}

/// First accession shape at `i`: `[OPQ][0-9][A-Z0-9]{3}[0-9]`, six bytes.
pub open spec fn acc1_at(s: Seq<u8>, i: int) -> bool {
    &&& 0 <= i
    &&& i + 6 <= s.len()
    &&& (s[i] == UC_O || s[i] == UC_P || s[i] == UC_Q)
    &&& is_digit_byte(s[i + 1])
    &&& is_acc_byte(s[i + 2])
    &&& is_acc_byte(s[i + 3])
    &&& is_acc_byte(s[i + 4])
    &&& is_digit_byte(s[i + 5])
}

/// One repeated group of the second accession shape: `[A-Z][A-Z0-9]{2}[0-9]`,
/// four bytes.
pub open spec fn grp_at(s: Seq<u8>, i: int) -> bool {
    &&& 0 <= i
    &&& i + 4 <= s.len()
    &&& is_upper_byte(s[i])
    &&& is_acc_byte(s[i + 1])
    &&& is_acc_byte(s[i + 2])
    &&& is_digit_byte(s[i + 3])
}

/// Second accession shape at `i`: `[A-NR-Z][0-9]` followed by one or two
/// groups; at least one group must be present.
pub open spec fn acc2_at(s: Seq<u8>, i: int) -> bool {
    &&& 0 <= i
    &&& i + 2 <= s.len()
    &&& is_upper_byte(s[i])
    &&& s[i] != UC_O && s[i] != UC_P && s[i] != UC_Q
    &&& is_digit_byte(s[i + 1])
    &&& grp_at(s, i + 2)
}

/// An accession match starts at `i`.
pub open spec fn acc_at(s: Seq<u8>, i: int) -> bool {
    acc1_at(s, i) || acc2_at(s, i)
}

/// Length of the accession match at `i`: the first shape is six bytes; the
/// second takes two groups greedily (ten bytes) when a second group follows,
/// else one (six bytes). The two shapes cannot both start at `i`, their first
/// bytes being disjoint.
pub open spec fn acc_len(s: Seq<u8>, i: int) -> int {
    if acc1_at(s, i) {
        6
    } else if grp_at(s, i + 6) {
        10
    } else {
        6
    }
}

/// Position of the leftmost accession match at or after `i`, or `-1` if the
/// pattern occurs nowhere in the rest of the input.
pub open spec fn find_acc(s: Seq<u8>, i: int) -> int
    decreases s.len() - i,
{
    if i < 0 || i >= s.len() {
        -1
    } else if acc_at(s, i) {
        i
    } else {
        find_acc(s, i + 1)
    }
}

proof fn lemma_find_acc_sound(s: Seq<u8>, i: int)
    requires
        0 <= i,
        find_acc(s, i) >= 0,
    ensures
        i <= find_acc(s, i),
        acc_at(s, find_acc(s, i)),
    decreases s.len() - i,
{
    if i < s.len() && !acc_at(s, i) {
        lemma_find_acc_sound(s, i + 1);
    }
}

proof fn lemma_find_acc_found(s: Seq<u8>, i: int, j: int)
    requires
        0 <= i <= j,
        acc_at(s, j),
        forall|k: int| i <= k < j ==> !acc_at(s, k),
    ensures
        find_acc(s, i) == j,
    decreases j - i,
{
    if i < j {
        lemma_find_acc_found(s, i + 1, j);
    }
}

proof fn lemma_find_acc_none(s: Seq<u8>, i: int)
    requires
        0 <= i,
        forall|k: int| i <= k < s.len() ==> !acc_at(s, k),
    ensures
        find_acc(s, i) == -1,
    decreases s.len() - i,
{
    if i < s.len() {
        lemma_find_acc_none(s, i + 1);
    }
}

/// An accession match is made of upper-case letters and digits throughout.
pub proof fn lemma_acc_bytes(s: Seq<u8>, j: int)
    requires
        acc_at(s, j),
    ensures
        j + acc_len(s, j) <= s.len(),
        forall|k: int| j <= k < j + acc_len(s, j) ==> is_acc_byte(#[trigger] s[k]),
{
}

fn grp_check(input: &[u8], j: usize) -> (r: bool)
    requires
        j <= input@.len(),
    ensures
        r == grp_at(input@, j as int),
{
    input.len() - j >= 4 && (65 <= input[j] && input[j] <= 90) && {
        let b1 = input[j + 1];
        let b2 = input[j + 2];
        let b3 = input[j + 3];
        ((65 <= b1 && b1 <= 90) || (48 <= b1 && b1 <= 57)) && ((65 <= b2 && b2 <= 90) || (48 <= b2
            && b2 <= 57)) && (48 <= b3 && b3 <= 57)
    }
}

fn acc1_check(input: &[u8], j: usize) -> (r: bool)
    requires
        j <= input@.len(),
    ensures
        r == acc1_at(input@, j as int),
{
    input.len() - j >= 6 && (input[j] == UC_O || input[j] == UC_P || input[j] == UC_Q) && {
        let b1 = input[j + 1];
        let b2 = input[j + 2];
        let b3 = input[j + 3];
        let b4 = input[j + 4];
        let b5 = input[j + 5];
        (48 <= b1 && b1 <= 57) && ((65 <= b2 && b2 <= 90) || (48 <= b2 && b2 <= 57)) && ((65 <= b3
            && b3 <= 90) || (48 <= b3 && b3 <= 57)) && ((65 <= b4 && b4 <= 90) || (48 <= b4 && b4
            <= 57)) && (48 <= b5 && b5 <= 57)
    }
}

fn acc2_check(input: &[u8], j: usize) -> (r: bool)
    requires
        j <= input@.len(),
    ensures
        r == acc2_at(input@, j as int),
{
    input.len() - j >= 6 && (65 <= input[j] && input[j] <= 90) && input[j] != UC_O && input[j]
        != UC_P && input[j] != UC_Q && {
        let b1 = input[j + 1];
        (48 <= b1 && b1 <= 57) && grp_check(input, j + 2)
    }
}

/// What [`unique_id`] returns: the leftmost accession match anywhere in the
/// rest of the input, with the cursor moved past it (bytes before the match
/// are skipped); a pattern mismatch if no match exists.
pub open spec fn spec_unique_id(s: Seq<u8>, i: int) -> Result<(int, Seq<u8>), Failure> {
    let j = find_acc(s, i);
    if j >= 0 {
        Ok((j + acc_len(s, j), s.subrange(j, j + acc_len(s, j))))
    } else {
        Err(mal(i, FailureKind::PatternMismatch))
    }
}

/// Finds the accession: the leftmost match of the accession pattern anywhere
/// in the rest of the input, a deliberate tolerance for separators already
/// consumed. The scan is not anchored at the cursor.
pub fn unique_id(input: &[u8], pos: usize) -> (r: Result<(usize, Vec<u8>), Failure>)
    requires
        pos <= input@.len(),
    ensures
        bytes_res(r) == spec_unique_id(input@, pos as int),
        r matches Ok((j, _)) ==> j <= input@.len(),
        r matches Err(Failure::Malformed(at, _)) ==> at <= input@.len(),
{
    let n: usize = input.len();
    let mut j: usize = pos;
    while j < n
        invariant
            pos <= j <= n == input@.len(),
            forall|k: int| pos <= k < j ==> !acc_at(input@, k),
        decreases n - j,
    {
        let a1 = acc1_check(input, j);
        if a1 || acc2_check(input, j) {
            proof {
                lemma_find_acc_found(input@, pos as int, j as int);
            }
            let l: usize = if a1 {
                6
            } else if grp_check(input, j + 6) {
                10
            } else {
                6
            };
            let v = bytes_range(input, j, j + l);
            return Ok((j + l, v));
        }
        j = j + 1;
    }
    proof {
        lemma_find_acc_none(input@, pos as int);
    }
    Err(Failure::Malformed(pos, FailureKind::PatternMismatch))
}

/// The identifier that [`unique_id`] returns is exactly the leftmost match:
/// whatever pattern-like substrings occur after position `j`, a match at `j`
/// with none before it is the one returned, as it stands in the input.
pub proof fn lemma_unique_id_leftmost(s: Seq<u8>, i: int, j: int)
    requires
        0 <= i <= j,
        acc_at(s, j),
        forall|k: int| i <= k < j ==> !acc_at(s, k),
    ensures
        spec_unique_id(s, i) == Ok::<(int, Seq<u8>), Failure>(
            (j + acc_len(s, j), s.subrange(j, j + acc_len(s, j))),
        ),
{
    lemma_find_acc_found(s, i, j);
    lemma_acc_bytes(s, j);
}

// ---------------------------------------------------------------------------
// Field parsers
// ---------------------------------------------------------------------------

/// What [`entry_name`] returns: a 2-12 byte alphanumeric run, an underscore,
/// and a 2-5 byte alphanumeric run, as one string. The left run is taken
/// greedily up to twelve bytes, and the underscore must stand right after it.
pub open spec fn spec_entry_name(s: Seq<u8>, i: int) -> Result<(int, Seq<u8>), Failure> {
    let r1 = alnum_run(s, i);
    if r1 < 2 {
        Err(mal(i, FailureKind::LengthBound))
    } else {
        let p = i + if r1 > 12 {
            12
        } else {
            r1
        };
        if !(p < s.len() && s[p] == UNDERSCORE_BYTE) {
            Err(mal(p, FailureKind::TagMismatch))
        } else {
            let r2 = alnum_run(s, p + 1);
            if r2 < 2 {
                Err(mal(p + 1, FailureKind::LengthBound))
            } else {
                let e = p + 1 + if r2 > 5 {
                    5
                } else {
                    r2
                };
                Ok((e, s.subrange(i, e)))
            }
        }
    }
}

/// Consumes the entry name: protein mnemonic, `_`, species mnemonic.
pub fn entry_name(input: &[u8], pos: usize) -> (r: Result<(usize, Vec<u8>), Failure>)
    requires
        pos <= input@.len(),
    ensures
        bytes_res(r) == spec_entry_name(input@, pos as int),
        r matches Ok((j, _)) ==> j <= input@.len(),
        r matches Err(Failure::Malformed(at, _)) ==> at <= input@.len(),
{
    let e1 = scan_alnum(input, pos);
    if e1 - pos < 2 {
        return Err(Failure::Malformed(pos, FailureKind::LengthBound));
    }
    let p: usize = if e1 - pos > 12 {
        pos + 12
    } else {
        e1
    };
    if !(p < input.len() && input[p] == UNDERSCORE_BYTE) {
        return Err(Failure::Malformed(p, FailureKind::TagMismatch));
    }
    let e2 = scan_alnum(input, p + 1);
    if e2 - (p + 1) < 2 {
        return Err(Failure::Malformed(p + 1, FailureKind::LengthBound));
    }
    let e: usize = if e2 - (p + 1) > 5 {
        p + 1 + 5
    } else {
        e2
    };
    let v = bytes_range(input, pos, e);
    Ok((e, v))
}

/// What [`until_os`] returns: everything before the first ` OS=` sentinel,
/// with the cursor left on the sentinel; the sentinel must occur.
pub open spec fn spec_until_os(s: Seq<u8>, i: int) -> Result<(int, Seq<u8>), Failure> {
    let j = find_sentinel(s, i, UC_O, UC_S);
    if j >= 0 {
        Ok((j, s.subrange(i, j)))
    } else {
        Err(mal(i, FailureKind::MissingSentinel))
    }
}

/// Consumes the protein name: everything up to the ` OS=` sentinel.
pub fn until_os(input: &[u8], pos: usize) -> (r: Result<(usize, Vec<u8>), Failure>)
    requires
        pos <= input@.len(),
    ensures
        bytes_res(r) == spec_until_os(input@, pos as int),
        r matches Ok((j, _)) ==> j <= input@.len(),
        r matches Err(Failure::Malformed(at, _)) ==> at <= input@.len(),
{
    match find_sentinel_exec(input, pos, UC_O, UC_S) {
        Some(j) => {
            let v = bytes_range(input, pos, j);
            Ok((j, v))
        },
        None => Err(Failure::Malformed(pos, FailureKind::MissingSentinel)),
    }
}

/// What [`os_until_ox`] returns: after the literal `OS=`, everything before
/// the first ` OX=` sentinel.
pub open spec fn spec_os_until_ox(s: Seq<u8>, i: int) -> Result<(int, Seq<u8>), Failure> {
    if !tag3_at(s, i, UC_O, UC_S) {
        Err(mal(i, FailureKind::TagMismatch))
    } else {
        let j = find_sentinel(s, i + 3, UC_O, UC_X);
        if j >= 0 {
            Ok((j, s.subrange(i + 3, j)))
        } else {
            Err(mal(i + 3, FailureKind::MissingSentinel))
        }
    }
}

/// Consumes the organism name: the literal `OS=`, then everything up to the
/// ` OX=` sentinel.
pub fn os_until_ox(input: &[u8], pos: usize) -> (r: Result<(usize, Vec<u8>), Failure>)
    requires
        pos <= input@.len(),
    ensures
        bytes_res(r) == spec_os_until_ox(input@, pos as int),
        r matches Ok((j, _)) ==> j <= input@.len(),
        r matches Err(Failure::Malformed(at, _)) ==> at <= input@.len(),
{
    let n: usize = input.len();
    if !tag3_check(input, pos, UC_O, UC_S) {
        return Err(Failure::Malformed(pos, FailureKind::TagMismatch));
    }
    assert(pos + 3 <= n);
    match find_sentinel_exec(input, pos + 3, UC_O, UC_X) {
        Some(j) => {
            let v = bytes_range(input, pos + 3, j);
            Ok((j, v))
        },
        None => Err(Failure::Malformed(pos + 3, FailureKind::MissingSentinel)),
    }
}

/// What [`organism_id`] returns: after the literal `OX=`, a run of one to
/// seven digits, taken greedily.
pub open spec fn spec_organism_id(s: Seq<u8>, i: int) -> Result<(int, Seq<u8>), Failure> {
    if !tag3_at(s, i, UC_O, UC_X) {
        Err(mal(i, FailureKind::TagMismatch))
    } else {
        let r1 = digit_run(s, i + 3);
        if r1 < 1 {
            Err(mal(i + 3, FailureKind::LengthBound))
        } else {
            let e = i + 3 + if r1 > 7 {
                7
            } else {
                r1
            };
            Ok((e, s.subrange(i + 3, e)))
        }
    }
}

/// Consumes the taxonomy identifier: the literal `OX=`, then one to seven
/// digits.
pub fn organism_id(input: &[u8], pos: usize) -> (r: Result<(usize, Vec<u8>), Failure>)
    requires
        pos <= input@.len(),
    ensures
        bytes_res(r) == spec_organism_id(input@, pos as int),
        r matches Ok((j, _)) ==> j <= input@.len(),
        r matches Err(Failure::Malformed(at, _)) ==> at <= input@.len(),
{
    let n: usize = input.len();
    if !tag3_check(input, pos, UC_O, UC_X) {
        return Err(Failure::Malformed(pos, FailureKind::TagMismatch));
    }
    assert(pos + 3 <= n);
    let e1 = scan_digits(input, pos + 3);
    if e1 - (pos + 3) < 1 {
        return Err(Failure::Malformed(pos + 3, FailureKind::LengthBound));
    }
    let e: usize = if e1 - (pos + 3) > 7 {
        pos + 3 + 7
    } else {
        e1
    };
    let v = bytes_range(input, pos + 3, e);
    Ok((e, v))
}

/// What the gene-name sub-parser returns: after the literal `GN=`, either
/// everything before the first ` PE=` sentinel — really anything, gene names
/// are free text when an existence field follows — or, when that sentinel
/// never occurs, a non-empty run of alphanumeric, `-`, `_` or `.` bytes.
pub open spec fn spec_gn(s: Seq<u8>, i: int) -> Result<(int, Seq<u8>), Failure> {
    if !tag3_at(s, i, UC_G, UC_N) {
        Err(mal(i, FailureKind::TagMismatch))
    } else {
        let j = find_sentinel(s, i + 3, UC_P, UC_E);
        if j >= 0 {
            Ok((j, s.subrange(i + 3, j)))
        } else {
            let r1 = gene_run(s, i + 3);
            if r1 >= 1 {
                Ok((i + 3 + r1, s.subrange(i + 3, i + 3 + r1)))
            } else {
                Err(mal(i + 3, FailureKind::LengthBound))
            }
        }
    }
}

fn gn(input: &[u8], pos: usize) -> (r: Result<(usize, Vec<u8>), Failure>)
    requires
        pos <= input@.len(),
    ensures
        bytes_res(r) == spec_gn(input@, pos as int),
        r matches Ok((j, _)) ==> j <= input@.len(),
        r matches Err(Failure::Malformed(at, _)) ==> at <= input@.len(),
{
    let n: usize = input.len();
    if !tag3_check(input, pos, UC_G, UC_N) {
        return Err(Failure::Malformed(pos, FailureKind::TagMismatch));
    }
    assert(pos + 3 <= n);
    match find_sentinel_exec(input, pos + 3, UC_P, UC_E) {
        Some(j) => {
            let v = bytes_range(input, pos + 3, j);
            Ok((j, v))
        },
        None => {
            let e = scan_gene(input, pos + 3);
            if e > pos + 3 {
                let v = bytes_range(input, pos + 3, e);
                Ok((e, v))
            } else {
                Err(Failure::Malformed(pos + 3, FailureKind::LengthBound))
            }
        },
    }
}

/// What [`optional_gene_name`] returns: the gene name if the `GN=` field
/// parses here, else no gene name and no consumption — absence is not an
/// error — followed by an optional run of whitespace.
pub open spec fn spec_opt_gene(s: Seq<u8>, i: int) -> (int, Option<Seq<u8>>, Option<Seq<u8>>) {
    let p1 = match spec_gn(s, i) {
        Ok((j, _)) => j,
        Err(_) => i,
    };
    let g = match spec_gn(s, i) {
        Ok((_, v)) => Some(v),
        Err(_) => None,
    };
    let r1 = space_run(s, p1);
    if r1 >= 1 {
        (p1 + r1, g, Some(s.subrange(p1, p1 + r1)))
    } else {
        (p1, g, None)
    }
}

/// Consumes an optional `GN=` field and optional trailing whitespace; never
/// fails.
pub fn optional_gene_name(input: &[u8], pos: usize) -> (r: (usize, Option<Vec<u8>>, Option<
    Vec<u8>,
>))
    requires
        pos <= input@.len(),
    ensures
        gene_res(r) == spec_opt_gene(input@, pos as int),
        r.0 <= input@.len(),
{
    let (p1, g) = match gn(input, pos) {
        Ok((j, v)) => (j, Some(v)),
        Err(_) => (pos, None),
    };
    let e = scan_space(input, p1);
    if e > p1 {
        let sp = bytes_range(input, p1, e);
        (e, g, Some(sp))
    } else {
        (p1, g, None)
    }
}

/// What [`evidence`] returns: after the literal `PE=`, exactly one digit,
/// mapped to the five existence levels; a digit outside `1..=5` is rejected
/// here, not defaulted.
pub open spec fn spec_evidence(s: Seq<u8>, i: int) -> Result<(int, ProteinExistence), Failure> {
    if !tag3_at(s, i, UC_P, UC_E) {
        Err(mal(i, FailureKind::TagMismatch))
    } else if !(i + 3 < s.len() && is_digit_byte(s[i + 3])) {
        Err(mal(i + 3, FailureKind::LengthBound))
    } else if s[i + 3] == 49 {
        Ok((i + 4, ProteinExistence::ExperimentalEvidenceProtein))
    } else if s[i + 3] == 50 {
        Ok((i + 4, ProteinExistence::ExperimentalEvidenceTranscript))
    } else if s[i + 3] == 51 {
        Ok((i + 4, ProteinExistence::InferredHomology))
    } else if s[i + 3] == 52 {
        Ok((i + 4, ProteinExistence::Predicted))
    } else if s[i + 3] == 53 {
        Ok((i + 4, ProteinExistence::Uncertain))
    } else {
        Err(mal(i + 3, FailureKind::InvalidExistence))
    }
}

/// Consumes the existence level: the literal `PE=`, then one digit in
/// `1..=5`.
pub fn evidence(input: &[u8], pos: usize) -> (r: Result<(usize, ProteinExistence), Failure>)
    requires
        pos <= input@.len(),
    ensures
        pe_res(r) == spec_evidence(input@, pos as int),
        r matches Ok((j, _)) ==> j <= input@.len(),
        r matches Err(Failure::Malformed(at, _)) ==> at <= input@.len(),
{
    let n: usize = input.len();
    if !tag3_check(input, pos, UC_P, UC_E) {
        return Err(Failure::Malformed(pos, FailureKind::TagMismatch));
    }
    assert(pos + 3 <= n);
    if !(pos + 3 < n && is_digit_b(input[pos + 3])) {
        return Err(Failure::Malformed(pos + 3, FailureKind::LengthBound));
    }
    let d = input[pos + 3];
    if d == 49 {
        Ok((pos + 4, ProteinExistence::ExperimentalEvidenceProtein))
    } else if d == 50 {
        Ok((pos + 4, ProteinExistence::ExperimentalEvidenceTranscript))
    } else if d == 51 {
        Ok((pos + 4, ProteinExistence::InferredHomology))
    } else if d == 52 {
        Ok((pos + 4, ProteinExistence::Predicted))
    } else if d == 53 {
        Ok((pos + 4, ProteinExistence::Uncertain))
    } else {
        Err(Failure::Malformed(pos + 3, FailureKind::InvalidExistence))
    }
}

/// What [`version`] returns: after the literal `SV=`, one byte taken
/// verbatim; an input that ends right after the tag is incomplete rather
/// than malformed.
pub open spec fn spec_version(s: Seq<u8>, i: int) -> Result<(int, Seq<u8>), Failure> {
    if !tag3_at(s, i, UC_S, UC_V) {
        Err(mal(i, FailureKind::TagMismatch))
    } else if i + 3 < s.len() {
        Ok((i + 4, s.subrange(i + 3, i + 4)))
    } else {
        Err(Failure::Incomplete)
    }
}

/// Consumes the sequence version: the literal `SV=`, then one byte.
pub fn version(input: &[u8], pos: usize) -> (r: Result<(usize, Vec<u8>), Failure>)
    requires
        pos <= input@.len(),
    ensures
        bytes_res(r) == spec_version(input@, pos as int),
        r matches Ok((j, _)) ==> j <= input@.len(),
        r matches Err(Failure::Malformed(at, _)) ==> at <= input@.len(),
{
    let n: usize = input.len();
    if !tag3_check(input, pos, UC_S, UC_V) {
        return Err(Failure::Malformed(pos, FailureKind::TagMismatch));
    }
    assert(pos + 3 <= n);
    if pos + 3 < n {
        let v = bytes_range(input, pos + 3, pos + 4);
        Ok((pos + 4, v))
    } else {
        Err(Failure::Incomplete)
    }
}

/// What [`iso_id`] returns: an accession, the literal `-`, and one or more
/// digits naming the isoform.
pub open spec fn spec_iso_id(s: Seq<u8>, i: int) -> Result<(int, Seq<u8>, Seq<u8>), Failure> {
    match spec_unique_id(s, i) {
        Err(f) => Err(f),
        Ok((j, id)) => {
            if !(j < s.len() && s[j] == HYPHEN_BYTE) {
                Err(mal(j, FailureKind::TagMismatch))
            } else {
                let r1 = digit_run(s, j + 1);
                if r1 < 1 {
                    Err(mal(j + 1, FailureKind::LengthBound))
                } else {
                    Ok((j + 1 + r1, id, s.subrange(j + 1, j + 1 + r1)))
                }
            }
        },
    }
}

/// Consumes the isoform identifier: accession, `-`, isoform number.
pub fn iso_id(input: &[u8], pos: usize) -> (r: Result<(usize, Vec<u8>, Vec<u8>), Failure>)
    requires
        pos <= input@.len(),
    ensures
        iso_res(r) == spec_iso_id(input@, pos as int),
        r matches Ok((j, _, _)) ==> j <= input@.len(),
        r matches Err(Failure::Malformed(at, _)) ==> at <= input@.len(),
{
    let (j, id) = match unique_id(input, pos) {
        Ok(x) => x,
        Err(f) => {
            return Err(f);
        },
    };
    if !(j < input.len() && input[j] == HYPHEN_BYTE) {
        return Err(Failure::Malformed(j, FailureKind::TagMismatch));
    }
    let e = scan_digits(input, j + 1);
    if e - (j + 1) < 1 {
        return Err(Failure::Malformed(j + 1, FailureKind::LengthBound));
    }
    let v = bytes_range(input, j + 1, e);
    Ok((e, id, v))
}

// ---------------------------------------------------------------------------
// Shape of the parsed values
// ---------------------------------------------------------------------------

/// A successful [`unique_id`] hands back a non-empty string of upper-case
/// letters and digits.
pub proof fn lemma_unique_id_value_bytes(s: Seq<u8>, i: int, e: int, v: Seq<u8>)
    requires
        0 <= i <= s.len(),
        spec_unique_id(s, i) == Ok::<(int, Seq<u8>), Failure>((e, v)),
    ensures
        v.len() > 0,
        forall|k: int|
            0 <= k < v.len() ==> (is_alnum_byte(#[trigger] v[k]) || v[k] == UNDERSCORE_BYTE),
{
    let j = find_acc(s, i);
    lemma_find_acc_sound(s, i);
    lemma_acc_bytes(s, j);
    assert forall|k: int| 0 <= k < v.len() implies (is_alnum_byte(#[trigger] v[k]) || v[k]
        == UNDERSCORE_BYTE) by {
        assert(v[k] == s[j + k]);
        assert(is_acc_byte(s[j + k]));
    }
}

/// A successful [`entry_name`] hands back a non-empty string of alphanumeric
/// bytes and the one underscore.
pub proof fn lemma_entry_name_value_bytes(s: Seq<u8>, i: int, e: int, v: Seq<u8>)
    requires
        0 <= i <= s.len(),
        spec_entry_name(s, i) == Ok::<(int, Seq<u8>), Failure>((e, v)),
    ensures
        v.len() > 0,
        forall|k: int|
            0 <= k < v.len() ==> (is_alnum_byte(#[trigger] v[k]) || v[k] == UNDERSCORE_BYTE),
{
    let r1 = alnum_run(s, i);
    let p = i + if r1 > 12 {
        12int
    } else {
        r1
    };
    lemma_alnum_run_bytes(s, i);
    lemma_alnum_run_bytes(s, p + 1);
    assert forall|k: int| 0 <= k < v.len() implies (is_alnum_byte(#[trigger] v[k]) || v[k]
        == UNDERSCORE_BYTE) by {
        assert(v[k] == s[i + k]);
    }
}

/// A successful [`organism_id`] hands back a non-empty string of digits.
pub proof fn lemma_organism_id_value_bytes(s: Seq<u8>, i: int, e: int, v: Seq<u8>)
    requires
        0 <= i <= s.len(),
        spec_organism_id(s, i) == Ok::<(int, Seq<u8>), Failure>((e, v)),
    ensures
        v.len() > 0,
        forall|k: int|
            0 <= k < v.len() ==> (is_alnum_byte(#[trigger] v[k]) || v[k] == UNDERSCORE_BYTE),
{
    lemma_digit_run_bytes(s, i + 3);
    assert forall|k: int| 0 <= k < v.len() implies (is_alnum_byte(#[trigger] v[k]) || v[k]
        == UNDERSCORE_BYTE) by {
        assert(v[k] == s[i + 3 + k]);
        assert(is_digit_byte(s[i + 3 + k]));
    }
}

/// A successful [`iso_id`] hands back a non-empty accession and a non-empty
/// string of digits.
pub proof fn lemma_iso_id_value_bytes(s: Seq<u8>, i: int, e: int, id: Seq<u8>, iso: Seq<u8>)
    requires
        0 <= i <= s.len(),
        spec_iso_id(s, i) == Ok::<(int, Seq<u8>, Seq<u8>), Failure>((e, id, iso)),
    ensures
        id.len() > 0,
        iso.len() > 0,
        forall|k: int|
            0 <= k < id.len() ==> (is_alnum_byte(#[trigger] id[k]) || id[k] == UNDERSCORE_BYTE),
        forall|k: int|
            0 <= k < iso.len() ==> (is_alnum_byte(#[trigger] iso[k]) || iso[k] == UNDERSCORE_BYTE),
{
    let j0 = find_acc(s, i);
    let j = j0 + acc_len(s, j0);
    lemma_unique_id_value_bytes(s, i, j, s.subrange(j0, j));
    lemma_digit_run_bytes(s, j + 1);
    assert forall|k: int| 0 <= k < iso.len() implies (is_alnum_byte(#[trigger] iso[k]) || iso[k]
        == UNDERSCORE_BYTE) by {
        assert(iso[k] == s[j + 1 + k]);
        assert(is_digit_byte(s[j + 1 + k]));
    }
}

// ---------------------------------------------------------------------------
// Laws of the field grammar
// ---------------------------------------------------------------------------

/// Any string of shape `X_Y`, with `X` alphanumeric of length two to twelve
/// and `Y` alphanumeric of length two to five, is accepted by the entry-name
/// grammar and returned whole.
pub proof fn lemma_entry_name_well_shaped(x: Seq<u8>, y: Seq<u8>)
    requires
        2 <= x.len() <= 12,
        2 <= y.len() <= 5,
        forall|k: int| 0 <= k < x.len() ==> is_alnum_byte(#[trigger] x[k]),
        forall|k: int| 0 <= k < y.len() ==> is_alnum_byte(#[trigger] y[k]),
    ensures
        spec_entry_name(x + seq![UNDERSCORE_BYTE] + y, 0) == Ok::<(int, Seq<u8>), Failure>(
            ((x.len() + 1 + y.len()) as int, x + seq![UNDERSCORE_BYTE] + y),
        ),
{
    let s = x + seq![UNDERSCORE_BYTE] + y;
    let m = x.len() as int;
    assert forall|k: int| 0 <= k < m implies is_alnum_byte(#[trigger] s[k]) by {
        assert(s[k] == x[k]);
    }
    assert(s[m] == UNDERSCORE_BYTE);
    assert(!is_alnum_byte(UNDERSCORE_BYTE));
    lemma_alnum_run(s, 0, m);
    assert forall|k: int| m + 1 <= k < s.len() implies is_alnum_byte(#[trigger] s[k]) by {
        assert(s[k] == y[k - m - 1]);
    }
    lemma_alnum_run(s, m + 1, y.len() as int);
    assert(s.subrange(0, s.len() as int) =~= s);
}

/// A left span shorter than two alphanumeric bytes is refused.
pub proof fn lemma_entry_name_short_left(s: Seq<u8>, i: int)
    requires
        0 <= i <= s.len(),
        alnum_run(s, i) < 2,
    ensures
        spec_entry_name(s, i) is Err,
{
}

/// A left span longer than twelve alphanumeric bytes is refused: the grammar
/// takes exactly twelve and then demands the underscore, which the thirteenth
/// alphanumeric byte cannot be.
pub proof fn lemma_entry_name_long_left(s: Seq<u8>, i: int)
    requires
        0 <= i <= s.len(),
        alnum_run(s, i) > 12,
    ensures
        spec_entry_name(s, i) is Err,
{
    lemma_alnum_run_bytes(s, i);
}

/// A string with no underscore anywhere is refused.
pub proof fn lemma_entry_name_missing_underscore(s: Seq<u8>, i: int)
    requires
        0 <= i <= s.len(),
        forall|k: int| i <= k < s.len() ==> s[k] != UNDERSCORE_BYTE,
    ensures
        spec_entry_name(s, i) is Err,
{
    lemma_alnum_run_bytes(s, i);
}

/// A header with no `GN=` at the gene position yields no gene name, and
/// parsing does not fail there: only the optional whitespace is consumed.
pub proof fn lemma_gene_name_absent(s: Seq<u8>, i: int)
    requires
        !tag3_at(s, i, UC_G, UC_N),
    ensures
        spec_opt_gene(s, i).1 is None,
        spec_opt_gene(s, i).0 == i + space_run(s, i),
{
    lemma_space_run_nonneg(s, i);
}

/// A `GN=` field bounded by the ` PE=` sentinel yields exactly the text
/// between tag and sentinel.
pub proof fn lemma_gene_name_present(s: Seq<u8>, i: int)
    requires
        tag3_at(s, i, UC_G, UC_N),
        find_sentinel(s, i + 3, UC_P, UC_E) >= 0,
    ensures
        spec_opt_gene(s, i).1 == Some(s.subrange(i + 3, find_sentinel(s, i + 3, UC_P, UC_E))),
{
}

} // verus!
