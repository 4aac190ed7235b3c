//! Small text utilities shared by the tokenizer, the escape pass and the
//! parser: byte classes, maximal-run scanning, trimming and number parsing.

use vstd::prelude::*;
use vstd::string::StringSliceAdditionalSpecFns;

verus! {

/// ASCII whitespace as the scanner understands it.
pub open spec fn is_space_byte(b: u8) -> bool {
    b == 32 || b == 9 || b == 10 || b == 13 || b == 11 || b == 12
}

/// ASCII decimal digit.
pub open spec fn is_digit_byte(b: u8) -> bool {
    48 <= b <= 57
}

/// ASCII letter.
pub open spec fn is_alpha_byte(b: u8) -> bool {
    (97 <= b <= 122) || (65 <= b <= 90)
}

/// Word byte: ASCII letter, digit or underscore. Tag names are runs of these.
pub open spec fn is_word_byte(b: u8) -> bool {
    is_alpha_byte(b) || is_digit_byte(b) || b == 95
}

/// The classes of bytes over which the scanners take maximal runs.
#[derive(Clone, Copy, PartialEq, Eq, Structural)]
pub enum ByteClass {
    /// Letters, digits and underscore.
    Word,
    /// ASCII whitespace.
    Space,
    /// ASCII letters only.
    Alpha,
    /// Bytes legal in an unquoted parameter value: no whitespace, no `]`.
    Value,
    /// Any byte but a double quote.
    NonQuote,
    /// Any byte but a line feed.
    NonNewline,
    /// `#`.
    Hash,
    /// `=` or `-`.
    EqDash,
    /// `*` or `_`.
    StarUnder,
    /// A backtick.
    Backtick,
}

/// Whether byte `b` belongs to class `c`.
pub open spec fn in_class(c: ByteClass, b: u8) -> bool {
    match c {
        ByteClass::Word => is_word_byte(b),
        ByteClass::Space => is_space_byte(b),
        ByteClass::Alpha => is_alpha_byte(b),
        ByteClass::Value => !is_space_byte(b) && b != 93,
        ByteClass::NonQuote => b != 34,
        ByteClass::NonNewline => b != 10,
        ByteClass::Hash => b == 35,
        ByteClass::EqDash => b == 61 || b == 45,
        ByteClass::StarUnder => b == 42 || b == 95,
        ByteClass::Backtick => b == 96,
    }
}

/// First index at or after `i` whose byte falls outside class `c` (or the
/// end of `s`): the end of the maximal run of `c`-bytes starting at `i`.
pub open spec fn run_end(s: Seq<u8>, i: int, c: ByteClass) -> int
    decreases s.len() - i,
    when 0 <= i <= s.len()
{
    if i < s.len() && in_class(c, s[i]) {
        run_end(s, i + 1, c)
    } else {
        i
    }
}

/// The run end stays within bounds, every byte of the run is in the class,
/// and the byte at the run end (if any) is not.
pub proof fn lemma_run_end(s: Seq<u8>, i: int, c: ByteClass)
    requires
        0 <= i <= s.len(),
    ensures
        i <= run_end(s, i, c) <= s.len(),
        forall|j: int| i <= j < run_end(s, i, c) ==> in_class(c, s[j]),
        run_end(s, i, c) < s.len() ==> !in_class(c, s[run_end(s, i, c)]),
    decreases s.len() - i,
{
    if i < s.len() && in_class(c, s[i]) {
        lemma_run_end(s, i + 1, c);
    }
}

/// Exec test for membership in a byte class.
pub fn byte_in_class(c: ByteClass, b: u8) -> (r: bool)
    ensures
        r == in_class(c, b),
{
    match c {
        ByteClass::Word => (97 <= b && b <= 122) || (65 <= b && b <= 90) || (48 <= b && b <= 57)
            || b == 95,
        ByteClass::Space => b == 32 || b == 9 || b == 10 || b == 13 || b == 11 || b == 12,
        ByteClass::Alpha => (97 <= b && b <= 122) || (65 <= b && b <= 90),
        ByteClass::Value => !(b == 32 || b == 9 || b == 10 || b == 13 || b == 11 || b == 12)
            && b != 93,
        ByteClass::NonQuote => b != 34,
        ByteClass::NonNewline => b != 10,
        ByteClass::Hash => b == 35,
        ByteClass::EqDash => b == 61 || b == 45,
        ByteClass::StarUnder => b == 42 || b == 95,
        ByteClass::Backtick => b == 96,
    }
}

/// Scans the maximal run of `c`-bytes starting at `i`.
pub fn scan_run(s: &[u8], i: usize, c: ByteClass) -> (r: usize)
    requires
        i <= s@.len(),
    ensures
        r == run_end(s@, i as int, c),
        i <= r <= s@.len(),
{
    let mut j: usize = i;
    while j < s.len() && byte_in_class(c, s[j])
        invariant
            i <= j <= s@.len(),
            run_end(s@, i as int, c) == run_end(s@, j as int, c),
        decreases s@.len() - j,
    {
        j = j + 1;
    }
    j
}

/// Copies `s[a..b]` onto the end of `out`.
pub fn extend_range(out: &mut Vec<u8>, s: &[u8], a: usize, b: usize)
    requires
        a <= b <= s@.len(),
    ensures
        final(out)@ == old(out)@ + s@.subrange(a as int, b as int),
{
    let mut j: usize = a;
    while j < b
        invariant
            a <= j <= b <= s@.len(),
            out@ == old(out)@ + s@.subrange(a as int, j as int),
        decreases b - j,
    {
        out.push(s[j]);
        j = j + 1;
        assert(s@.subrange(a as int, j as int)
            == s@.subrange(a as int, j - 1) + seq![s@[j - 1]]);
    }
    assert(out@ == old(out)@ + s@.subrange(a as int, b as int));
}

/// Copies `s[a..b]` into a fresh vector.
pub fn copy_range(s: &[u8], a: usize, b: usize) -> (r: Vec<u8>)
    requires
        a <= b <= s@.len(),
    ensures
        r@ == s@.subrange(a as int, b as int),
{
    let mut out: Vec<u8> = Vec::new();
    extend_range(&mut out, s, a, b);
    out
}

/// Copies a byte vector.
pub fn clone_bytes(v: &Vec<u8>) -> (r: Vec<u8>)
    ensures
        r@ == v@,
{
    let r = copy_range(v.as_slice(), 0, v.len());
    assert(v@.subrange(0, v@.len() as int) =~= v@);
    r
}

/// The bytes of a string literal, as an owned vector.
pub fn bytes_of(s: &str) -> (r: Vec<u8>)
    ensures
        r@ == s.spec_bytes(),
{
    let b = s.as_bytes();
    let r = copy_range(b, 0, b.len());
    assert(b@.subrange(0, b@.len() as int) =~= b@);
    r
}

/// Whether two byte slices hold the same bytes.
pub fn bytes_eq(a: &[u8], b: &[u8]) -> (r: bool)
    ensures
        r == (a@ == b@),
{
    if a.len() != b.len() {
        assert(a@ != b@);
        return false;
    }
    let mut j: usize = 0;
    while j < a.len()
        invariant
            0 <= j <= a@.len(),
            a@.len() == b@.len(),
            forall|k: int| 0 <= k < j ==> a@[k] == b@[k],
        decreases a@.len() - j,
    {
        if a[j] != b[j] {
            assert(a@ != b@);
            return false;
        }
        j = j + 1;
    }
    assert(a@ =~= b@);
    true
}

/// ASCII lowercasing of one byte.
pub open spec fn lc_byte(b: u8) -> u8 {
    if 65 <= b <= 90 {
        (b + 32) as u8
    } else {
        b
    }
}

/// ASCII lowercasing of a byte string.
pub open spec fn sp_lower(s: Seq<u8>) -> Seq<u8> {
    s.map_values(|b: u8| lc_byte(b))
}

/// Lowercases ASCII letters, leaving all other bytes alone.
pub fn to_lower(v: &[u8]) -> (r: Vec<u8>)
    ensures
        r@ == sp_lower(v@),
{
    let mut out: Vec<u8> = Vec::new();
    let mut j: usize = 0;
    while j < v.len()
        invariant
            0 <= j <= v@.len(),
            out@ =~= sp_lower(v@.take(j as int)),
        decreases v@.len() - j,
    {
        let b = v[j];
        if 65 <= b && b <= 90 {
            out.push(b + 32);
        } else {
            out.push(b);
        }
        j = j + 1;
        assert(out@ =~= sp_lower(v@.take(j as int)));
    }
    assert(v@.take(j as int) =~= v@);
    out
}

/// The numeric value of a digit string, most significant digit first.
pub open spec fn digits_val(v: Seq<u8>) -> int
    decreases v.len(),
{
    if v.len() == 0 {
        0
    } else {
        digits_val(v.drop_last()) * 10 + (v.last() - 48)
    }
}

/// What a decimal string denotes as a `u32`: defined exactly when the string
/// is nonempty, all digits, and its value fits.
pub open spec fn sp_parse_u32(v: Seq<u8>) -> Option<u32> {
    if v.len() >= 1 && (forall|j: int| 0 <= j < v.len() ==> is_digit_byte(v[j]))
        && digits_val(v) <= 0xffff_ffff {
        Some(digits_val(v) as u32)
    } else {
        None
    }
}

proof fn lemma_digits_val_nonneg(v: Seq<u8>)
    requires
        forall|j: int| 0 <= j < v.len() ==> is_digit_byte(v[j]),
    ensures
        digits_val(v) >= 0,
    decreases v.len(),
{
    if v.len() > 0 {
        lemma_digits_val_nonneg(v.drop_last());
    }
}

/// A digit-string prefix never denotes more than the whole string.
proof fn lemma_digits_val_prefix(v: Seq<u8>, k: int)
    requires
        0 <= k <= v.len(),
        forall|j: int| 0 <= j < v.len() ==> is_digit_byte(v[j]),
    ensures
        digits_val(v.take(k)) <= digits_val(v),
    decreases v.len() - k,
{
    if k < v.len() {
        lemma_digits_val_prefix(v, k + 1);
        let w = v.take(k + 1);
        assert(w.drop_last() =~= v.take(k));
        lemma_digits_val_nonneg(v.take(k));
        assert(digits_val(v.take(k)) <= digits_val(v.take(k + 1)));
    } else {
        assert(v.take(k) =~= v);
    }
}

/// Parses a decimal `u32`, rejecting empty strings, non-digits and overflow.
pub fn parse_u32(v: &[u8]) -> (r: Option<u32>)
    ensures
        r == sp_parse_u32(v@),
{
    if v.len() == 0 {
        return None;
    }
    let mut acc: u64 = 0;
    let mut j: usize = 0;
    while j < v.len()
        invariant
            0 <= j <= v@.len(),
            forall|k: int| 0 <= k < j ==> is_digit_byte(v@[k]),
            acc == digits_val(v@.take(j as int)),
            acc <= 0xffff_ffff,
        decreases v@.len() - j,
    {
        let b = v[j];
        if !(48 <= b && b <= 57) {
            return None;
        }
        let d: u64 = (b - 48) as u64;
        let next: u64 = acc * 10 + d;
        assert(v@.take(j + 1).drop_last() =~= v@.take(j as int));
        if next > 0xffff_ffff {
            proof {
                assert(digits_val(v@.take(j + 1)) == next);
                if forall|k: int| 0 <= k < v@.len() ==> is_digit_byte(v@[k]) {
                    lemma_digits_val_prefix(v@, j + 1);
                }
            }
            return None;
        }
        acc = next;
        j = j + 1;
    }
    assert(v@.take(j as int) =~= v@);
    Some(acc as u32)
}

/// Index of the first non-whitespace byte of `s`.
pub open spec fn sp_trim_start(s: Seq<u8>) -> int {
    run_end(s, 0, ByteClass::Space)
}

/// Index just past the last non-whitespace byte of `s[..j]`.
pub open spec fn sp_trim_end(s: Seq<u8>, j: int) -> int
    decreases j,
    when 0 <= j <= s.len()
{
    if j > 0 && is_space_byte(s[j - 1]) {
        sp_trim_end(s, j - 1)
    } else {
        j
    }
}

pub proof fn lemma_trim_end(s: Seq<u8>, j: int)
    requires
        0 <= j <= s.len(),
    ensures
        0 <= sp_trim_end(s, j) <= j,
    decreases j,
{
    if j > 0 && is_space_byte(s[j - 1]) {
        lemma_trim_end(s, j - 1);
    }
}

/// Scans back from `j` over trailing whitespace.
pub fn trim_end_idx(s: &[u8], j: usize) -> (r: usize)
    requires
        j <= s@.len(),
    ensures
        r == sp_trim_end(s@, j as int),
        r <= j,
{
    let mut e: usize = j;
    while e > 0 && byte_in_class(ByteClass::Space, s[e - 1])
        invariant
            0 <= e <= j <= s@.len(),
            sp_trim_end(s@, j as int) == sp_trim_end(s@, e as int),
        decreases e,
    {
        e = e - 1;
    }
    e
}

/// Joins a `Result` with a second one of the same shape, keeping the first
/// error if either fails.
pub trait Zip<T, E>: Sized {
    fn zip(self, other: Result<T, E>) -> Result<(T, T), E>;
}

impl<T, E> Zip<T, E> for Result<T, E> {
    fn zip(self, other: Result<T, E>) -> Result<(T, T), E> {
        match self {
            Ok(x) => match other {
                Ok(y) => Ok((x, y)),
                Err(e) => Err(e),
            },
            Err(e) => Err(e),
        }
    }
}

/// Returns the last valid index of an indexed value, if any.
pub trait LastIndex {
    fn last_index(&self) -> Option<usize>;
}

impl LastIndex for Vec<u8> {
    fn last_index(&self) -> (r: Option<usize>)
        ensures
            r == (if self@.len() == 0 {
                Option::<usize>::None
            } else {
                Some((self@.len() - 1) as usize)
            }),
    {
        if self.len() == 0 {
            None
        } else {
            Some(self.len() - 1)
        }
    }
}

} // verus!
