//! The Markdown-escape pass: backslash-escapes every substring of a raw
//! text that the downstream Markdown renderer would otherwise reinterpret
//! as syntax (headings, setext underlines, emphasis, list markers and
//! blockquotes at line starts, strikethrough, backticks, link brackets,
//! and literal angle-bracket tags).
//!
//! The pass is a single left-to-right sweep: at each position the earliest
//! matching pattern (in a fixed order of preference) is escaped whole and
//! the sweep resumes after it. It is deliberately not idempotent: escaping
//! already-escaped text escapes the markers again.

use vstd::prelude::*;

use crate::util::{
    byte_in_class, extend_range, in_class, is_digit_byte, is_space_byte, lemma_run_end, run_end,
    scan_run, ByteClass,
};

verus! {

/// Largest index `k` with `i <= k < stop` and `s[k] == b`, or `-1`.
pub open spec fn last_byte_before(s: Seq<u8>, b: u8, i: int, stop: int) -> int
    decreases stop,
    when 0 <= i && stop <= s.len()
{
    if stop <= i {
        -1
    } else if s[stop - 1] == b {
        stop - 1
    } else {
        last_byte_before(s, b, i, stop - 1)
    }
}

pub proof fn lemma_last_byte_before(s: Seq<u8>, b: u8, i: int, stop: int)
    requires
        0 <= i,
        stop <= s.len(),
    ensures
        last_byte_before(s, b, i, stop) == -1
            || i <= last_byte_before(s, b, i, stop) < stop,
    decreases stop,
{
    if stop > i && s[stop - 1] != b {
        lemma_last_byte_before(s, b, i, stop - 1);
    }
}

/// Scans backward for the last occurrence of `b` in `s[i..stop]`.
fn find_last_byte(s: &[u8], b: u8, i: usize, stop: usize) -> (r: Option<usize>)
    requires
        i <= stop <= s@.len(),
    ensures
        match r {
            Some(k) => last_byte_before(s@, b, i as int, stop as int) == k as int
                && i <= k < stop,
            None => last_byte_before(s@, b, i as int, stop as int) == -1,
        },
{
    let mut e: usize = stop;
    while e > i
        invariant
            i <= e <= stop <= s@.len(),
            last_byte_before(s@, b, i as int, stop as int)
                == last_byte_before(s@, b, i as int, e as int),
        decreases e,
    {
        if s[e - 1] == b {
            return Some(e - 1);
        }
        e = e - 1;
    }
    None
}

/// Length of the escapable pattern starting at position `i` of `s`, or 0 if
/// no pattern starts there. Patterns are tried in a fixed order; runs are
/// maximal.
pub open spec fn sp_match_len(s: Seq<u8>, i: int) -> int
    recommends
        0 <= i < s.len(),
{
    let b = s[i];
    if b == 35 {
        // `#`: a heading marker, up to six hashes.
        let r = run_end(s, i + 1, ByteClass::Hash);
        if r - i <= 6 { r - i } else { 6 }
    } else if (b == 61 || b == 45) && run_end(s, i + 1, ByteClass::EqDash) - i >= 2 {
        // `==`/`--`: a setext underline of two or more.
        run_end(s, i + 1, ByteClass::EqDash) - i
    } else if b == 42 || b == 95 {
        // `*`/`_`: emphasis markers.
        run_end(s, i + 1, ByteClass::StarUnder) - i
    } else if b == 46 && i > 0 && is_digit_byte(s[i - 1]) {
        // `.` after a digit: an ordered-list dot.
        1
    } else if (b == 45 || b == 43 || b == 62) && (i == 0 || is_space_byte(s[i - 1])) {
        // `-`/`+`/`>` at the start or after whitespace: a list or quote marker.
        1
    } else if b == 126 && i + 1 < s.len() && s[i + 1] == 126 {
        // `~~`: strikethrough.
        2
    } else if b == 96 {
        // Backticks, up to three.
        let r = run_end(s, i + 1, ByteClass::Backtick);
        if r - i <= 3 { r - i } else { 3 }
    } else if b == 33 && i + 1 < s.len() && s[i + 1] == 91 {
        // `![`: an image opener.
        2
    } else if b == 91 {
        // `[`: a link opener.
        1
    } else if b == 60 {
        // `<...>`: a literal tag, greedy to the last `>` on the line.
        let stop = run_end(s, i + 1, ByteClass::NonNewline);
        let k = last_byte_before(s, 62, i + 1, stop);
        if k >= 0 { k - i + 1 } else { 0 }
    } else {
        0
    }
}

pub proof fn lemma_match_len_bounds(s: Seq<u8>, i: int)
    requires
        0 <= i < s.len(),
    ensures
        0 <= sp_match_len(s, i) <= s.len() - i,
{
    lemma_run_end(s, i + 1, ByteClass::Hash);
    lemma_run_end(s, i + 1, ByteClass::EqDash);
    lemma_run_end(s, i + 1, ByteClass::StarUnder);
    lemma_run_end(s, i + 1, ByteClass::Backtick);
    lemma_run_end(s, i + 1, ByteClass::NonNewline);
    lemma_last_byte_before(s, 62, i + 1, run_end(s, i + 1, ByteClass::NonNewline));
}

/// Exec mirror of [`sp_match_len`].
fn match_len(s: &[u8], i: usize) -> (n: usize)
    requires
        i < s@.len(),
    ensures
        n == sp_match_len(s@, i as int),
        n <= s@.len() - i,
{
    proof {
        lemma_match_len_bounds(s@, i as int);
    }
    let b = s[i];
    if b == 35 {
        let r = scan_run(s, i + 1, ByteClass::Hash);
        if r - i <= 6 { r - i } else { 6 }
    } else if (b == 61 || b == 45) && scan_run(s, i + 1, ByteClass::EqDash) - i >= 2 {
        scan_run(s, i + 1, ByteClass::EqDash) - i
    } else if b == 42 || b == 95 {
        scan_run(s, i + 1, ByteClass::StarUnder) - i
    } else if b == 46 && i > 0 && 48 <= s[i - 1] && s[i - 1] <= 57 {
        1
    } else if (b == 45 || b == 43 || b == 62)
        && (i == 0 || byte_in_class(ByteClass::Space, s[i - 1])) {
        1
    } else if b == 126 && i + 1 < s.len() && s[i + 1] == 126 {
        2
    } else if b == 96 {
        let r = scan_run(s, i + 1, ByteClass::Backtick);
        if r - i <= 3 { r - i } else { 3 }
    } else if b == 33 && i + 1 < s.len() && s[i + 1] == 91 {
        2
    } else if b == 91 {
        1
    } else if b == 60 {
        let stop = scan_run(s, i + 1, ByteClass::NonNewline);
        match find_last_byte(s, 62, i + 1, stop) {
            Some(k) => k - i + 1,
            None => 0,
        }
    } else {
        0
    }
}

/// The escaped form of `s[i..]`: a backslash before each pattern found by
/// the left-to-right sweep, everything else copied through.
pub open spec fn sp_escape_from(s: Seq<u8>, i: int) -> Seq<u8>
    decreases s.len() - i,
    when 0 <= i <= s.len()
{
    if i >= s.len() {
        Seq::empty()
    } else {
        let n = sp_match_len(s, i);
        proof {
            lemma_match_len_bounds(s, i);
        }
        if n > 0 {
            seq![92u8] + s.subrange(i, i + n) + sp_escape_from(s, i + n)
        } else {
            seq![s[i]] + sp_escape_from(s, i + 1)
        }
    }
}

/// The Markdown-escaped form of a raw text.
pub open spec fn sp_escape(s: Seq<u8>) -> Seq<u8> {
    sp_escape_from(s, 0)
}

/// Escapes a raw text for insertion into Markdown output. Not idempotent:
/// apply exactly once per raw string, never to already-escaped text.
pub fn escape_markdown(text: &[u8]) -> (r: Vec<u8>)
    ensures
        r@ == sp_escape(text@),
{
    let mut out: Vec<u8> = Vec::new();
    let mut i: usize = 0;
    while i < text.len()
        invariant
            0 <= i <= text@.len(),
            sp_escape(text@) == out@ + sp_escape_from(text@, i as int),
        decreases text@.len() - i,
    {
        let n = match_len(text, i);
        if n > 0 {
            out.push(92);
            extend_range(&mut out, text, i, i + n);
            i = i + n;
        } else {
            out.push(text[i]);
            i = i + 1;
        }
    }
    assert(sp_escape_from(text@, i as int) =~= Seq::<u8>::empty());
    assert(out@ =~= out@ + sp_escape_from(text@, i as int));
    out
}

} // verus!
