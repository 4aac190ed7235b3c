//! The BBCode tokenizer: one lexical pass that splits raw text into a flat
//! stream of fragments — plain-text runs, start tags and end tags.
//!
//! A tag is `[name]`, `[name=value]`, `[name key="quoted"]` or any mix of
//! the latter two, and an end tag is `[/name]`. A `name` is one or more
//! word bytes (ASCII letters, digits, underscore); an unquoted value is one
//! or more bytes that are neither whitespace nor `]`; keys are ASCII
//! letters; quoted values are nonempty and may not contain a quote. Text
//! that fits no tag shape — including stray brackets — is passed through
//! as plain text. The tokenizer validates nothing else: unknown names and
//! bad nesting are the parser's business.
//!
//! Fragments carry both their bytes and their byte range in the input, so
//! the concatenation of every fragment's source text reproduces the input
//! exactly; [`lemma_tokenizer_round_trip`] proves that.

use vstd::prelude::*;

use crate::util::{copy_range, extend_range, in_class, lemma_run_end, run_end, scan_run, ByteClass};

verus! {

// ---------------------------------------------------------------------------
// The shape of a tag match, and where tags match.
// ---------------------------------------------------------------------------

/// A tag match in the model: byte positions of the whole match, the name,
/// and the raw parameter region (for an end tag the parameter region is the
/// name itself).
pub struct TagM {
    pub is_end: bool,
    pub start: int,
    pub end: int,
    pub name_start: int,
    pub name_end: int,
    pub param_start: int,
    pub param_end: int,
}

/// Position just past the `key="value"` pairs starting at `k`, each pair
/// preceded by whitespace; `-1` if a pair begins but is malformed.
pub open spec fn pairs_end(s: Seq<u8>, k: int) -> int
    decreases s.len() - k,
    when 0 <= k <= s.len()
{
    if k < s.len() && in_class(ByteClass::Space, s[k]) {
        let ws = run_end(s, k, ByteClass::Space);
        let ke = run_end(s, ws, ByteClass::Alpha);
        proof {
            lemma_run_end(s, k, ByteClass::Space);
            lemma_run_end(s, ws, ByteClass::Alpha);
        }
        if ke > ws && ke + 1 < s.len() && s[ke] == 61 && s[ke + 1] == 34 {
            let qe = run_end(s, ke + 2, ByteClass::NonQuote);
            proof {
                lemma_run_end(s, ke + 2, ByteClass::NonQuote);
            }
            if qe > ke + 2 && qe < s.len() && s[qe] == 34 {
                pairs_end(s, qe + 1)
            } else {
                -1
            }
        } else {
            -1
        }
    } else {
        k
    }
}

pub proof fn lemma_pairs_end(s: Seq<u8>, k: int)
    requires
        0 <= k <= s.len(),
    ensures
        pairs_end(s, k) == -1 || k <= pairs_end(s, k) <= s.len(),
    decreases s.len() - k,
{
    if k < s.len() && in_class(ByteClass::Space, s[k]) {
        let ws = run_end(s, k, ByteClass::Space);
        let ke = run_end(s, ws, ByteClass::Alpha);
        lemma_run_end(s, k, ByteClass::Space);
        lemma_run_end(s, ws, ByteClass::Alpha);
        if ke > ws && ke + 1 < s.len() && s[ke] == 61 && s[ke + 1] == 34 {
            let qe = run_end(s, ke + 2, ByteClass::NonQuote);
            lemma_run_end(s, ke + 2, ByteClass::NonQuote);
            if qe > ke + 2 && qe < s.len() && s[qe] == 34 {
                lemma_pairs_end(s, qe + 1);
            }
        }
    }
}

/// The start tag matching at position `i`, if any: `[`, a name, an optional
/// `=value`, any number of whitespace-separated `key="value"` pairs, `]`.
pub open spec fn start_tag_at(s: Seq<u8>, i: int) -> Option<TagM> {
    if 0 <= i && i < s.len() && s[i] == 91 {
        let ns = i + 1;
        let ne = run_end(s, ns, ByteClass::Word);
        if ne > ns {
            let av: int = if ne < s.len() && s[ne] == 61 {
                let ve = run_end(s, ne + 1, ByteClass::Value);
                if ve > ne + 1 {
                    ve
                } else {
                    -1
                }
            } else {
                ne
            };
            if av >= 0 {
                let pe = pairs_end(s, av);
                if pe >= 0 && pe < s.len() && s[pe] == 93 {
                    Some(
                        TagM {
                            is_end: false,
                            start: i,
                            end: pe + 1,
                            name_start: ns,
                            name_end: ne,
                            param_start: ns,
                            param_end: pe,
                        },
                    )
                } else {
                    None
                }
            } else {
                None
            }
        } else {
            None
        }
    } else {
        None
    }
}

/// The end tag matching at position `i`, if any: `[/`, a name, `]`.
pub open spec fn end_tag_at(s: Seq<u8>, i: int) -> Option<TagM> {
    if 0 <= i && i + 1 < s.len() && s[i] == 91 && s[i + 1] == 47 {
        let ns = i + 2;
        let ne = run_end(s, ns, ByteClass::Word);
        if ne > ns && ne < s.len() && s[ne] == 93 {
            Some(
                TagM {
                    is_end: true,
                    start: i,
                    end: ne + 1,
                    name_start: ns,
                    name_end: ne,
                    param_start: ns,
                    param_end: ne,
                },
            )
        } else {
            None
        }
    } else {
        None
    }
}

/// The tag (of either kind) matching at position `i`, if any. A start tag
/// needs a word byte after `[` and an end tag a `/`, so the two shapes
/// never overlap.
pub open spec fn tag_match_at(s: Seq<u8>, i: int) -> Option<TagM> {
    if start_tag_at(s, i) is Some {
        start_tag_at(s, i)
    } else {
        end_tag_at(s, i)
    }
}

/// Structural facts about any successful match at `i`.
pub proof fn lemma_tag_match_props(s: Seq<u8>, i: int)
    requires
        tag_match_at(s, i) is Some,
    ensures
        ({
            let m = tag_match_at(s, i)->Some_0;
            &&& m.start == i
            &&& 0 <= i
            &&& i + 3 <= m.end <= s.len()
            &&& s[i] == 91
            &&& s[m.end - 1] == 93
            &&& m.param_end == m.end - 1
            &&& m.name_start <= m.name_end <= m.param_end
            &&& m.name_start < m.name_end
            &&& m.param_start <= m.param_end
            &&& (m.is_end ==> s[i + 1] == 47 && m.name_start == i + 2 && m.param_start
                == m.name_start && m.param_end == m.name_end)
            &&& (!m.is_end ==> m.name_start == i + 1 && m.param_start == i + 1)
        }),
{
    if start_tag_at(s, i) is Some {
        let ns = i + 1;
        let ne = run_end(s, ns, ByteClass::Word);
        lemma_run_end(s, ns, ByteClass::Word);
        let av: int = if ne < s.len() && s[ne] == 61 {
            let ve = run_end(s, ne + 1, ByteClass::Value);
            if ve > ne + 1 {
                ve
            } else {
                -1
            }
        } else {
            ne
        };
        lemma_run_end(s, ne + 1, ByteClass::Value);
        if av >= 0 {
            lemma_pairs_end(s, av);
        }
    } else {
        let ns = i + 2;
        lemma_run_end(s, ns, ByteClass::Word);
    }
}

/// The leftmost tag match at or after `pos`.
pub open spec fn next_tag_from(s: Seq<u8>, pos: int) -> Option<TagM>
    decreases s.len() - pos,
    when 0 <= pos <= s.len()
{
    if pos >= s.len() {
        None
    } else if tag_match_at(s, pos) is Some {
        tag_match_at(s, pos)
    } else {
        next_tag_from(s, pos + 1)
    }
}

pub proof fn lemma_next_tag_from(s: Seq<u8>, pos: int)
    requires
        0 <= pos <= s.len(),
        next_tag_from(s, pos) is Some,
    ensures
        ({
            let m = next_tag_from(s, pos)->Some_0;
            &&& pos <= m.start
            &&& tag_match_at(s, m.start) == Some(m)
            &&& m.start + 3 <= m.end <= s.len()
        }),
    decreases s.len() - pos,
{
    if pos < s.len() {
        if tag_match_at(s, pos) is Some {
            lemma_tag_match_props(s, pos);
        } else {
            lemma_next_tag_from(s, pos + 1);
        }
    }
}

// ---------------------------------------------------------------------------
// Fragments.
// ---------------------------------------------------------------------------

/// Model of a text piece: its bytes and their range in the input.
pub struct TextFragM {
    pub value: Seq<u8>,
    pub start: int,
    pub end: int,
}

/// Model of a start tag: its name and its raw parameter region (which
/// begins with the name itself).
pub struct TagFragM {
    pub name: TextFragM,
    pub param: TextFragM,
}

/// Model of one fragment of the stream.
pub enum FragM {
    Text(TextFragM),
    StartTag(TagFragM),
    EndTag(TextFragM),
}

/// A borrowed-bytes-with-range piece of the input.
#[derive(Clone, Debug, PartialEq, Eq)]
pub struct TextFragment {
    pub value: Vec<u8>,
    pub start: usize,
    pub end: usize,
}

impl View for TextFragment {
    type V = TextFragM;

    open spec fn view(&self) -> TextFragM {
        TextFragM { value: self.value@, start: self.start as int, end: self.end as int }
    }
}

/// A start tag as tokenized: name plus raw parameter region.
#[derive(Clone, Debug, PartialEq, Eq)]
pub struct Tag {
    pub name: TextFragment,
    pub param: TextFragment,
}

impl View for Tag {
    type V = TagFragM;

    open spec fn view(&self) -> TagFragM {
        TagFragM { name: self.name@, param: self.param@ }
    }
}

/// One fragment of the tokenized input.
#[derive(Clone, Debug, PartialEq, Eq)]
pub enum Fragment {
    Text(TextFragment),
    StartTag(Tag),
    EndTag(TextFragment),
}

impl View for Fragment {
    type V = FragM;

    open spec fn view(&self) -> FragM {
        match self {
            Fragment::Text(t) => FragM::Text(t@),
            Fragment::StartTag(t) => FragM::StartTag(t@),
            Fragment::EndTag(t) => FragM::EndTag(t@),
        }
    }
}

impl Fragment {
    /// A plain-text fragment covering `start..end`.
    pub fn new_text(value: Vec<u8>, start: usize, end: usize) -> (r: Self)
        ensures
            r@ == FragM::Text(TextFragM { value: value@, start: start as int, end: end as int }),
    {
        Fragment::Text(TextFragment { value, start, end })
    }

    /// A start tag from its name and raw parameter pieces.
    pub fn new_start_tag_raw(
        name: Vec<u8>,
        name_start: usize,
        name_end: usize,
        param: Vec<u8>,
        param_start: usize,
        param_end: usize,
    ) -> (r: Self)
        ensures
            r@ == FragM::StartTag(
                TagFragM {
                    name: TextFragM {
                        value: name@,
                        start: name_start as int,
                        end: name_end as int,
                    },
                    param: TextFragM {
                        value: param@,
                        start: param_start as int,
                        end: param_end as int,
                    },
                },
            ),
    {
        Fragment::StartTag(
            Tag {
                name: TextFragment { value: name, start: name_start, end: name_end },
                param: TextFragment { value: param, start: param_start, end: param_end },
            },
        )
    }

    /// An end tag from its name piece.
    pub fn new_end_tag_raw(tag: Vec<u8>, start: usize, end: usize) -> (r: Self)
        ensures
            r@ == FragM::EndTag(TextFragM { value: tag@, start: start as int, end: end as int }),
    {
        Fragment::EndTag(TextFragment { value: tag, start, end })
    }

    /// The exact source text this fragment was cut from: for tags that puts
    /// the brackets (and the `/`) back.
    pub fn source_text(&self) -> (r: Vec<u8>)
        ensures
            r@ == frag_src(self@),
    {
        let mut out: Vec<u8> = Vec::new();
        match self {
            Fragment::Text(t) => {
                extend_range(&mut out, t.value.as_slice(), 0, t.value.len());
                assert(out@ =~= frag_src(self@));
            },
            Fragment::StartTag(t) => {
                out.push(91);
                extend_range(&mut out, t.param.value.as_slice(), 0, t.param.value.len());
                out.push(93);
                assert(out@ =~= frag_src(self@));
            },
            Fragment::EndTag(t) => {
                out.push(91);
                out.push(47);
                extend_range(&mut out, t.value.as_slice(), 0, t.value.len());
                out.push(93);
                assert(out@ =~= frag_src(self@));
            },
        }
        out
    }
}

/// The fragment a tag match denotes, with its bytes cut from `s`.
pub open spec fn frag_of_match(s: Seq<u8>, m: TagM) -> FragM {
    if m.is_end {
        FragM::EndTag(
            TextFragM {
                value: s.subrange(m.name_start, m.name_end),
                start: m.name_start,
                end: m.name_end,
            },
        )
    } else {
        FragM::StartTag(
            TagFragM {
                name: TextFragM {
                    value: s.subrange(m.name_start, m.name_end),
                    start: m.name_start,
                    end: m.name_end,
                },
                param: TextFragM {
                    value: s.subrange(m.param_start, m.param_end),
                    start: m.param_start,
                    end: m.param_end,
                },
            },
        )
    }
}

/// The whole fragment sequence of `s[pos..]`: the text run up to the next
/// tag match (suppressed if empty), the tag, and so on; with no match left,
/// one final text run to the end of the input (suppressed if empty).
pub open spec fn toks_from(s: Seq<u8>, pos: int) -> Seq<FragM>
    decreases s.len() - pos,
    when 0 <= pos <= s.len()
{
    if pos >= s.len() {
        Seq::empty()
    } else {
        match next_tag_from(s, pos) {
            None => seq![
                FragM::Text(TextFragM { value: s.subrange(pos, s.len() as int), start: pos, end: s.len() as int }),
            ],
            Some(m) => {
                proof {
                    lemma_next_tag_from(s, pos);
                }
                let tag_frag = seq![frag_of_match(s, m)];
                let head = if m.start > pos {
                    seq![
                        FragM::Text(TextFragM { value: s.subrange(pos, m.start), start: pos, end: m.start }),
                    ] + tag_frag
                } else {
                    tag_frag
                };
                head + toks_from(s, m.end)
            },
        }
    }
}

/// The fragment sequence of the whole input.
pub open spec fn toks(s: Seq<u8>) -> Seq<FragM> {
    toks_from(s, 0)
}

/// A fragment's bytes agree with its byte range.
pub open spec fn frag_wf(f: FragM) -> bool {
    match f {
        FragM::Text(t) => t.start <= t.end && t.value.len() == t.end - t.start,
        FragM::StartTag(t) => t.name.start <= t.name.end && t.name.value.len() == t.name.end
            - t.name.start && t.param.start <= t.param.end && t.param.value.len() == t.param.end
            - t.param.start,
        FragM::EndTag(t) => t.start <= t.end && t.value.len() == t.end - t.start,
    }
}

/// Every fragment the tokenizer yields agrees with its byte range.
pub proof fn lemma_toks_wf(s: Seq<u8>, pos: int)
    requires
        0 <= pos <= s.len(),
    ensures
        forall|i: int| 0 <= i < toks_from(s, pos).len() ==> frag_wf(#[trigger] toks_from(s, pos)[i]),
    decreases s.len() - pos,
{
    if pos < s.len() {
        match next_tag_from(s, pos) {
            None => {},
            Some(m) => {
                lemma_next_tag_from(s, pos);
                lemma_tag_match_props(s, m.start);
                lemma_toks_wf(s, m.end);
                assert(frag_wf(frag_of_match(s, m)));
                let tail = toks_from(s, m.end);
                if m.start > pos {
                    let head = seq![
                        FragM::Text(TextFragM { value: s.subrange(pos, m.start), start: pos, end: m.start }),
                    ] + seq![frag_of_match(s, m)];
                    assert(toks_from(s, pos) == head + tail);
                    assert forall|i: int| 0 <= i < toks_from(s, pos).len() implies frag_wf(
                        #[trigger] toks_from(s, pos)[i],
                    ) by {
                        if i >= 2 {
                            assert(toks_from(s, pos)[i] == tail[i - 2]);
                        }
                    }
                } else {
                    let head = seq![frag_of_match(s, m)];
                    assert(toks_from(s, pos) == head + tail);
                    assert forall|i: int| 0 <= i < toks_from(s, pos).len() implies frag_wf(
                        #[trigger] toks_from(s, pos)[i],
                    ) by {
                        if i >= 1 {
                            assert(toks_from(s, pos)[i] == tail[i - 1]);
                        }
                    }
                }
            },
        }
    }
}

// ---------------------------------------------------------------------------
// Round trip: fragments tile the input exactly.
// ---------------------------------------------------------------------------

/// The source text a fragment was cut from.
pub open spec fn frag_src(f: FragM) -> Seq<u8> {
    match f {
        FragM::Text(t) => t.value,
        FragM::StartTag(t) => seq![91u8] + t.param.value + seq![93u8],
        FragM::EndTag(t) => seq![91u8, 47u8] + t.value + seq![93u8],
    }
}

/// Concatenation of the source texts of a fragment sequence.
pub open spec fn concat_src(fs: Seq<FragM>) -> Seq<u8>
    decreases fs.len(),
{
    if fs.len() == 0 {
        Seq::empty()
    } else {
        frag_src(fs[0]) + concat_src(fs.drop_first())
    }
}

proof fn lemma_concat_src_push_front(f: FragM, fs: Seq<FragM>)
    ensures
        concat_src(seq![f] + fs) == frag_src(f) + concat_src(fs),
{
    let whole = seq![f] + fs;
    assert(whole[0] == f);
    assert(whole.drop_first() =~= fs);
}

proof fn lemma_toks_cover(s: Seq<u8>, pos: int)
    requires
        0 <= pos <= s.len(),
    ensures
        concat_src(toks_from(s, pos)) == s.subrange(pos, s.len() as int),
    decreases s.len() - pos,
{
    if pos >= s.len() {
        assert(s.subrange(pos, s.len() as int) =~= Seq::<u8>::empty());
    } else {
        match next_tag_from(s, pos) {
            None => {
                let t = FragM::Text(
                    TextFragM {
                        value: s.subrange(pos, s.len() as int),
                        start: pos,
                        end: s.len() as int,
                    },
                );
                lemma_concat_src_push_front(t, Seq::empty());
                assert(seq![t] =~= seq![t] + Seq::<FragM>::empty());
                assert(concat_src(toks_from(s, pos)) =~= s.subrange(pos, s.len() as int));
            },
            Some(m) => {
                lemma_next_tag_from(s, pos);
                lemma_tag_match_props(s, m.start);
                lemma_toks_cover(s, m.end);
                let tag_frag = frag_of_match(s, m);
                assert(frag_src(tag_frag) =~= s.subrange(m.start, m.end));
                let tail = toks_from(s, m.end);
                if m.start > pos {
                    let t = FragM::Text(
                        TextFragM { value: s.subrange(pos, m.start), start: pos, end: m.start },
                    );
                    assert(seq![t] + seq![tag_frag] + tail =~= seq![t] + (seq![tag_frag] + tail));
                    lemma_concat_src_push_front(t, seq![tag_frag] + tail);
                    lemma_concat_src_push_front(tag_frag, tail);
                    assert(concat_src(toks_from(s, pos)) =~= s.subrange(pos, s.len() as int));
                } else {
                    lemma_concat_src_push_front(tag_frag, tail);
                    assert(concat_src(toks_from(s, pos)) =~= s.subrange(pos, s.len() as int));
                }
            },
        }
    }
}

/// Tokenizer round trip: concatenating the source text of every emitted
/// fragment, in order, reproduces the input exactly — for every input.
pub proof fn lemma_tokenizer_round_trip(s: Seq<u8>)
    ensures
        concat_src(toks(s)) == s,
{
    lemma_toks_cover(s, 0);
    assert(s.subrange(0, s.len() as int) =~= s);
}

// ---------------------------------------------------------------------------
// The exec matcher.
// ---------------------------------------------------------------------------

/// An exec-side tag match; see [`TagM`] for the meaning of the fields.
#[derive(Clone, Copy, Debug)]
pub struct TagMatch {
    pub is_end: bool,
    pub start: usize,
    pub end: usize,
    pub name_start: usize,
    pub name_end: usize,
    pub param_start: usize,
    pub param_end: usize,
}

impl View for TagMatch {
    type V = TagM;

    open spec fn view(&self) -> TagM {
        TagM {
            is_end: self.is_end,
            start: self.start as int,
            end: self.end as int,
            name_start: self.name_start as int,
            name_end: self.name_end as int,
            param_start: self.param_start as int,
            param_end: self.param_end as int,
        }
    }
}

/// Scans the `key="value"` pairs from `k`; `None` means a malformed pair.
fn scan_pairs(s: &[u8], k: usize) -> (r: Option<usize>)
    requires
        k <= s@.len(),
    ensures
        match r {
            Some(p) => pairs_end(s@, k as int) == p as int && k <= p <= s@.len(),
            None => pairs_end(s@, k as int) == -1,
        },
{
    let mut cur: usize = k;
    loop
        invariant
            k <= cur <= s@.len(),
            pairs_end(s@, k as int) == pairs_end(s@, cur as int),
        decreases s@.len() - cur,
    {
        if !(cur < s.len() && crate::util::byte_in_class(ByteClass::Space, s[cur])) {
            return Some(cur);
        }
        let ws = scan_run(s, cur, ByteClass::Space);
        let ke = scan_run(s, ws, ByteClass::Alpha);
        proof {
            lemma_run_end(s@, cur as int, ByteClass::Space);
            lemma_run_end(s@, ws as int, ByteClass::Alpha);
        }
        if !(ke > ws && ke < s.len() && s[ke] == 61 && ke + 1 < s.len() && s[ke + 1] == 34) {
            return None;
        }
        let qe = scan_run(s, ke + 2, ByteClass::NonQuote);
        if !(qe > ke + 2 && qe < s.len() && s[qe] == 34) {
            return None;
        }
        cur = qe + 1;
    }
}

/// Tries to match a tag of either kind at position `i`.
pub fn match_tag_at(s: &[u8], i: usize) -> (r: Option<TagMatch>)
    requires
        i < s@.len(),
    ensures
        match r {
            Some(m) => tag_match_at(s@, i as int) == Some(m@),
            None => tag_match_at(s@, i as int) is None,
        },
{
    if s[i] != 91 {
        return None;
    }
    // Start tag: `[` name ...
    let ns = i + 1;
    let ne = scan_run(s, ns, ByteClass::Word);
    proof {
        lemma_run_end(s@, ns as int, ByteClass::Word);
    }
    if ne > ns {
        let av: Option<usize> = if ne < s.len() && s[ne] == 61 {
            let ve = scan_run(s, ne + 1, ByteClass::Value);
            if ve > ne + 1 {
                Some(ve)
            } else {
                None
            }
        } else {
            Some(ne)
        };
        match av {
            Some(a) => {
                match scan_pairs(s, a) {
                    Some(pe) => {
                        if pe < s.len() && s[pe] == 93 {
                            return Some(
                                TagMatch {
                                    is_end: false,
                                    start: i,
                                    end: pe + 1,
                                    name_start: ns,
                                    name_end: ne,
                                    param_start: ns,
                                    param_end: pe,
                                },
                            );
                        }
                        return None;
                    },
                    None => {
                        return None;
                    },
                }
            },
            None => {
                return None;
            },
        }
    }
    // End tag: `[/` name `]`.
    if i + 1 < s.len() && s[i + 1] == 47 {
        let es = i + 2;
        let ee = scan_run(s, es, ByteClass::Word);
        proof {
            lemma_run_end(s@, es as int, ByteClass::Word);
        }
        if ee > es && ee < s.len() && s[ee] == 93 {
            return Some(
                TagMatch {
                    is_end: true,
                    start: i,
                    end: ee + 1,
                    name_start: es,
                    name_end: ee,
                    param_start: es,
                    param_end: ee,
                },
            );
        }
    }
    None
}

// ---------------------------------------------------------------------------
// The lazy stream.
// ---------------------------------------------------------------------------

/// A lazy, forward-only, single-pass fragment stream over one input.
pub struct FragmentStream<'t> {
    pub input: &'t [u8],
    pub pos: usize,
    pub pending: Option<TagMatch>,
}

impl<'t> FragmentStream<'t> {
    /// The stream's bookkeeping is consistent with its input.
    pub open spec fn wf(self) -> bool {
        &&& self.pos <= self.input@.len()
        &&& match self.pending {
            Some(m) => tag_match_at(self.input@, m@.start) == Some(m@) && m@.end == self.pos as int,
            None => true,
        }
    }

    /// The fragments the stream has yet to emit.
    pub open spec fn rest(self) -> Seq<FragM> {
        match self.pending {
            Some(m) => seq![frag_of_match(self.input@, m@)] + toks_from(
                self.input@,
                self.pos as int,
            ),
            None => toks_from(self.input@, self.pos as int),
        }
    }

    fn new(input: &'t [u8]) -> (r: Self)
        ensures
            r.wf(),
            r.rest() == toks(input@),
            r.input@ == input@,
    {
        FragmentStream { input, pos: 0, pending: None }
    }

    /// Builds the fragment a stored match denotes, copying its bytes out of
    /// the input.
    fn emit_match(&self, m: TagMatch) -> (r: Fragment)
        requires
            tag_match_at(self.input@, m@.start) == Some(m@),
        ensures
            r@ == frag_of_match(self.input@, m@),
    {
        proof {
            lemma_tag_match_props(self.input@, m@.start);
        }
        if m.is_end {
            let value = copy_range(self.input, m.name_start, m.name_end);
            Fragment::new_end_tag_raw(value, m.name_start, m.name_end)
        } else {
            let name = copy_range(self.input, m.name_start, m.name_end);
            let param = copy_range(self.input, m.param_start, m.param_end);
            Fragment::new_start_tag_raw(
                name,
                m.name_start,
                m.name_end,
                param,
                m.param_start,
                m.param_end,
            )
        }
    }

    /// Emits the next fragment, or `None` at the end of the input.
    pub fn next(&mut self) -> (r: Option<Fragment>)
        requires
            old(self).wf(),
        ensures
            final(self).wf(),
            final(self).input@ == old(self).input@,
            match r {
                Some(f) => old(self).rest() == seq![f@] + final(self).rest(),
                None => old(self).rest() == Seq::<FragM>::empty() && final(self).rest()
                    == Seq::<FragM>::empty(),
            },
    {
        let ghost s = self.input@;
        match self.pending {
            Some(m) => {
                let f = self.emit_match(m);
                self.pending = None;
                return Some(f);
            },
            None => {},
        }
        if self.pos >= self.input.len() {
            return None;
        }
        let start = self.pos;
        let mut i: usize = start;
        loop
            invariant
                start <= i <= s.len(),
                start < s.len(),
                self.pos == start,
                self.pending is None,
                self.input@ == s,
                self.wf(),
                self.input == old(self).input,
                old(self).pos == start,
                old(self).pending is None,
                next_tag_from(s, start as int) == next_tag_from(s, i as int),
            decreases s.len() - i,
        {
            if i >= self.input.len() {
                // No tag left: the rest of the input is one text fragment.
                assert(next_tag_from(s, start as int) is None);
                let value = copy_range(self.input, start, self.input.len());
                let f = Fragment::new_text(value, start, self.input.len());
                self.pos = self.input.len();
                return Some(f);
            }
            match match_tag_at(self.input, i) {
                Some(m) => {
                    proof {
                        lemma_tag_match_props(s, i as int);
                        lemma_next_tag_from(s, start as int);
                    }
                    assert(next_tag_from(s, start as int) == Some(m@));
                    if m.start > start {
                        // Emit the text before the match; hold the match.
                        let value = copy_range(self.input, start, m.start);
                        let f = Fragment::new_text(value, start, m.start);
                        self.pos = m.end;
                        self.pending = Some(m);
                        return Some(f);
                    } else {
                        let f = self.emit_match(m);
                        self.pos = m.end;
                        return Some(f);
                    }
                },
                None => {
                    i = i + 1;
                },
            }
        }
    }
}

/// Opens a fragment stream over `input`.
pub fn split_fragments<'t>(input: &'t [u8]) -> (r: FragmentStream<'t>)
    ensures
        r.wf(),
        r.rest() == toks(input@),
        r.input@ == input@,
{
    FragmentStream::new(input)
}

/// The views of a fragment vector.
pub open spec fn fragments_view(fs: Seq<Fragment>) -> Seq<FragM> {
    fs.map_values(|f: Fragment| f@)
}

/// Tokenizes the whole input eagerly.
pub fn tokenize(input: &[u8]) -> (r: Vec<Fragment>)
    ensures
        fragments_view(r@) == toks(input@),
{
    let mut stream = split_fragments(input);
    let mut out: Vec<Fragment> = Vec::new();
    loop
        invariant
            stream.wf(),
            stream.input@ == input@,
            fragments_view(out@) + stream.rest() == toks(input@),
        decreases stream.rest().len(),
    {
        match stream.next() {
            Some(f) => {
                out.push(f);
                assert(fragments_view(out@) =~= fragments_view(out@.drop_last()) + seq![f@]);
            },
            None => {
                assert(fragments_view(out@) =~= fragments_view(out@) + stream.rest());
                return out;
            },
        }
    }
}

} // verus!
