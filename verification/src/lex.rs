//! Lexical layer: splitting the raw text into lines, a line into
//! whitespace-separated tokens, and a face-vertex descriptor into
//! slash-separated sub-tokens.

use vstd::prelude::*;

verus! {

/// A byte class at which a scan stops.
#[derive(Clone, Copy)]
pub enum Stop {
    /// A line feed.
    Newline,
    /// A space or a horizontal tab.
    Space,
    /// A forward slash.
    Slash,
}

/// Whether byte `b` belongs to the stop class `k`.
pub open spec fn stops(k: Stop, b: u8) -> bool {
    match k {
        Stop::Newline => b == 10,
        Stop::Space => b == 32 || b == 9,
        Stop::Slash => b == 47,
    }
}

/// The number of leading bytes of `t` before the first byte of class `k`
/// (all of `t` when none occurs).
pub open spec fn span_until(k: Stop, t: Seq<u8>) -> nat
    decreases t.len(),
{
    if t.len() == 0 || stops(k, t[0]) {
        0
    } else {
        1 + span_until(k, t.skip(1))
    }
}

/// A span never reaches past the end of the scanned bytes.
pub proof fn lemma_span_until_le(k: Stop, t: Seq<u8>)
    ensures
        span_until(k, t) <= t.len(),
    decreases t.len(),
{
    if t.len() > 0 && !stops(k, t[0]) {
        lemma_span_until_le(k, t.skip(1));
    }
}

/// Characterizes the span: if the first `c` bytes are not of class `k` and
/// byte `c` is (or `t` ends there), the span is exactly `c` long.
proof fn lemma_span_until(k: Stop, t: Seq<u8>, c: int)
    requires
        0 <= c <= t.len(),
        forall|j: int| 0 <= j < c ==> !stops(k, #[trigger] t[j]),
        c == t.len() || stops(k, t[c]),
    ensures
        span_until(k, t) == c,
    decreases c,
{
    if c > 0 {
        lemma_span_until(k, t.skip(1), c - 1);
    }
}

/// Whether byte `b` belongs to the stop class `k`; the executable twin of
/// [`stops`].
fn stops_at(k: Stop, b: u8) -> (r: bool)
    ensures
        r == stops(k, b),
{
    match k {
        Stop::Newline => b == 10,
        Stop::Space => b == 32 || b == 9,
        Stop::Slash => b == 47,
    }
}

/// Scans forward from `from` until a byte of class `k` or the end of `s`,
/// handing back the first position not scanned over.
fn scan_span(k: Stop, s: &[u8], from: usize) -> (r: usize)
    requires
        from <= s@.len(),
    ensures
        from <= r <= s@.len(),
        r - from == span_until(k, s@.skip(from as int)),
        r < s@.len() ==> stops(k, s@[r as int]),
        forall|j: int| from <= j < r ==> !stops(k, #[trigger] s@[j]),
{
    let mut i: usize = from;
    while i < s.len() && !stops_at(k, s[i])
        invariant
            from <= i <= s@.len(),
            forall|j: int| from <= j < i ==> !stops(k, #[trigger] s@[j]),
        decreases s@.len() - i,
    {
        i = i + 1;
    }
    proof {
        let t = s@.skip(from as int);
        assert(forall|j: int| 0 <= j < i - from ==> !stops(k, #[trigger] t[j]));
        lemma_span_until(k, t, i - from);
    }
    i
}

/// `l` without a trailing carriage return, if it has one.
pub open spec fn strip_cr(l: Seq<u8>) -> Seq<u8> {
    if l.len() > 0 && l.last() == 13 {
        l.drop_last()
    } else {
        l
    }
}

/// The lines of the text `t`: the segments between line feeds, each without
/// a trailing carriage return. A line feed at the very end opens one final
/// empty line, which every later stage skips.
pub open spec fn split_lines(t: Seq<u8>) -> Seq<Seq<u8>>
    decreases t.len(),
    via split_lines_decreases
{
    if t.len() == 0 {
        Seq::empty()
    } else {
        let k = span_until(Stop::Newline, t) as int;
        if k == t.len() {
            seq![strip_cr(t)]
        } else {
            seq![strip_cr(t.take(k))] + split_lines(t.skip(k + 1))
        }
    }
}

/// The whitespace-separated tokens of line `l`: the maximal nonempty runs
/// of non-whitespace bytes, in order.
#[via_fn]
proof fn split_lines_decreases(t: Seq<u8>) {
    lemma_span_until_le(Stop::Newline, t);
}

pub open spec fn split_tokens(l: Seq<u8>) -> Seq<Seq<u8>>
    decreases l.len(),
    via split_tokens_decreases
{
    if l.len() == 0 {
        Seq::empty()
    } else if stops(Stop::Space, l[0]) {
        split_tokens(l.skip(1))
    } else {
        let k = span_until(Stop::Space, l) as int;
        seq![l.take(k)] + split_tokens(l.skip(k))
    }
}

/// The slash-separated sub-tokens of descriptor `d`, empty segments kept:
/// the segments between slashes, always at least one.
#[via_fn]
proof fn split_tokens_decreases(l: Seq<u8>) {
    lemma_span_until_le(Stop::Space, l);
}

pub open spec fn split_slash(d: Seq<u8>) -> Seq<Seq<u8>>
    decreases d.len(),
    via split_slash_decreases
{
    let k = span_until(Stop::Slash, d) as int;
    if k == d.len() {
        seq![d]
    } else {
        seq![d.take(k)] + split_slash(d.skip(k + 1))
    }
}

#[via_fn]
proof fn split_slash_decreases(d: Seq<u8>) {
    lemma_span_until_le(Stop::Slash, d);
}

/// The tokens of line `l` after the leading tag token: what the data
/// stages of the loader read.
pub open spec fn rest_tokens(l: Seq<u8>) -> Seq<Seq<u8>> {
    let toks = split_tokens(l);
    if toks.len() == 0 {
        Seq::empty()
    } else {
        toks.skip(1)
    }
}

/// The element-wise views of a sequence of byte vectors.
pub open spec fn views_of(s: Seq<Vec<u8>>) -> Seq<Seq<u8>> {
    s.map_values(|v: Vec<u8>| v@)
}

/// Splits the text into its lines; the executable twin of [`split_lines`].
pub fn split_into_lines(text: &[u8]) -> (lines: Vec<Vec<u8>>)
    ensures
        views_of(lines@) == split_lines(text@),
{
    let mut lines: Vec<Vec<u8>> = Vec::new();
    let mut pos: usize = 0;
    proof {
        assert(text@.skip(0) =~= text@);
        assert(views_of(lines@) =~= Seq::<Seq<u8>>::empty());
    }
    while pos < text.len()
        invariant
            pos <= text@.len(),
            split_lines(text@) == views_of(lines@) + split_lines(text@.skip(pos as int)),
        decreases text@.len() - pos,
    {
        let ghost t = text@.skip(pos as int);
        let k = scan_span(Stop::Newline, text, pos);
        proof {
            lemma_span_until(Stop::Newline, t, k - pos);
        }
        let mut end = k;
        if k > pos && text[k - 1] == 13 {
            end = k - 1;
        }
        let line = vstd::slice::slice_to_vec(vstd::slice::slice_subrange(text, pos, end));
        proof {
            if k - pos == t.len() {
                assert(strip_cr(t) =~= text@.subrange(pos as int, end as int));
            } else {
                assert(t.take(k - pos) =~= text@.subrange(pos as int, k as int));
                assert(strip_cr(t.take(k - pos)) =~= text@.subrange(pos as int, end as int));
                assert(t.skip(k - pos + 1) =~= text@.skip(k + 1));
            }
            assert(views_of(lines@.push(line)) =~= views_of(lines@) + seq![line@]);
        }
        lines.push(line);
        if k == text.len() {
            pos = k;
        } else {
            pos = k + 1;
        }
    }
    proof {
        assert(views_of(lines@) + split_lines(text@.skip(pos as int)) =~= views_of(lines@));
    }
    lines
}

/// Splits a line into its whitespace-separated tokens; the executable twin
/// of [`split_tokens`].
pub fn tokenize(line: &[u8]) -> (toks: Vec<Vec<u8>>)
    ensures
        views_of(toks@) == split_tokens(line@),
{
    let mut toks: Vec<Vec<u8>> = Vec::new();
    let mut pos: usize = 0;
    proof {
        assert(line@.skip(0) =~= line@);
        assert(views_of(toks@) =~= Seq::<Seq<u8>>::empty());
    }
    while pos < line.len()
        invariant
            pos <= line@.len(),
            split_tokens(line@) == views_of(toks@) + split_tokens(line@.skip(pos as int)),
        decreases line@.len() - pos,
    {
        let ghost t = line@.skip(pos as int);
        let b = line[pos];
        if b == 32 || b == 9 {
            proof {
                assert(t.skip(1) =~= line@.skip(pos + 1));
            }
            pos = pos + 1;
        } else {
            let k = scan_span(Stop::Space, line, pos);
            proof {
                lemma_span_until(Stop::Space, t, k - pos);
                assert(t.take(k - pos) =~= line@.subrange(pos as int, k as int));
                assert(t.skip(k - pos) =~= line@.skip(k as int));
            }
            let tok = vstd::slice::slice_to_vec(vstd::slice::slice_subrange(line, pos, k));
            proof {
                assert(views_of(toks@.push(tok)) =~= views_of(toks@) + seq![tok@]);
            }
            toks.push(tok);
            pos = k;
        }
    }
    proof {
        assert(views_of(toks@) + split_tokens(line@.skip(pos as int)) =~= views_of(toks@));
    }
    toks
}

/// Splits a face-vertex descriptor into its slash-separated sub-tokens,
/// empty segments kept; the executable twin of [`split_slash`].
pub fn split_slash_fields(d: &[u8]) -> (segs: Vec<Vec<u8>>)
    ensures
        views_of(segs@) == split_slash(d@),
{
    let mut segs: Vec<Vec<u8>> = Vec::new();
    let mut pos: usize = 0;
    proof {
        assert(d@.skip(0) =~= d@);
        assert(views_of(segs@) =~= Seq::<Seq<u8>>::empty());
    }
    loop
        invariant_except_break
            pos <= d@.len(),
            split_slash(d@) == views_of(segs@) + split_slash(d@.skip(pos as int)),
        ensures
            views_of(segs@) == split_slash(d@),
        decreases d@.len() - pos,
    {
        let ghost t = d@.skip(pos as int);
        let k = scan_span(Stop::Slash, d, pos);
        proof {
            lemma_span_until(Stop::Slash, t, k - pos);
            assert(t.take(k - pos) =~= d@.subrange(pos as int, k as int));
            if k - pos == t.len() {
                assert(t =~= d@.subrange(pos as int, k as int));
            } else {
                assert(t.skip(k - pos + 1) =~= d@.skip(k + 1));
            }
        }
        let seg = vstd::slice::slice_to_vec(vstd::slice::slice_subrange(d, pos, k));
        proof {
            assert(views_of(segs@.push(seg)) =~= views_of(segs@) + seq![seg@]);
        }
        segs.push(seg);
        if k == d.len() {
            break;
        }
        pos = k + 1;
    }
    segs
}

} // verus!
