//! Splits oversized text into bounded chunks for the embedding flow.
//!
//! A chunk never exceeds the configured maximum length, cuts land on
//! sentence or word boundaries when one lies in the tail of the window,
//! and consecutive chunks share about a tenth of the window so that no
//! sentence loses its context. All positions are character positions.

use vstd::arithmetic::div_mod::lemma_div_is_ordered;
use vstd::arithmetic::div_mod::lemma_div_plus_one;
use vstd::prelude::*;
use vstd::string::StrSliceExecFns;
use vstd::string::StringExecFns;

use crate::text::is_space_char;
use crate::text::spec_is_space;

verus! {

/// A sentence-ending character.
pub open spec fn spec_is_terminator(c: char) -> bool {
    c == '.' || c == '!' || c == '?'
}

/// Runtime test for [`spec_is_terminator`].
pub fn is_terminator_char(c: char) -> (r: bool)
    ensures
        r == spec_is_terminator(c),
{
    c == '.' || c == '!' || c == '?'
}

/// How many characters consecutive chunks share: a tenth of the window.
pub open spec fn spec_overlap(max_len: int) -> int {
    max_len / 10
}

/// Where the search for a break begins: the last fifth of the window.
pub open spec fn spec_tail_start(max_pos: int) -> int {
    (max_pos * 8) / 10
}

/// Position of the last sentence terminator in `[lo, hi)`, or -1.
pub open spec fn spec_last_terminator(text: Seq<char>, lo: int, hi: int) -> int
    decreases hi - lo,
{
    if hi <= lo {
        -1
    } else if spec_is_terminator(text[hi - 1]) {
        hi - 1
    } else {
        spec_last_terminator(text, lo, hi - 1)
    }
}

/// Position of the last whitespace character in `[lo, hi)`, or -1.
pub open spec fn spec_last_space(text: Seq<char>, lo: int, hi: int) -> int
    decreases hi - lo,
{
    if hi <= lo {
        -1
    } else if spec_is_space(text[hi - 1]) {
        hi - 1
    } else {
        spec_last_space(text, lo, hi - 1)
    }
}

/// Where a window of text is cut.
///
/// Text shorter than the window is taken whole. Otherwise the tail of the
/// window is searched backward, first for a sentence terminator — the cut
/// falls just after it, taking one following whitespace character along —
/// then for any whitespace, where the cut again falls just after it. When
/// the tail offers no boundary the cut falls at `max_pos`. The cut never
/// leaves the window: a terminator at the window's last position is not
/// extended past `max_pos`, which is what keeps every chunk within the
/// configured limit.
pub open spec fn spec_find_break(text: Seq<char>, max_pos: int) -> int {
    if text.len() < max_pos {
        text.len() as int
    } else {
        let lo = spec_tail_start(max_pos);
        let t = spec_last_terminator(text, lo, max_pos);
        if t >= 0 {
            if t + 1 < max_pos && spec_is_space(text[t + 1]) {
                t + 2
            } else {
                t + 1
            }
        } else {
            let w = spec_last_space(text, lo, max_pos);
            if w >= 0 {
                w + 1
            } else {
                max_pos
            }
        }
    }
}

proof fn lemma_last_terminator_range(text: Seq<char>, lo: int, hi: int)
    requires
        0 <= lo,
    ensures
        spec_last_terminator(text, lo, hi) == -1 || lo <= spec_last_terminator(text, lo, hi)
            < hi,
    decreases hi - lo,
{
    if hi > lo && !spec_is_terminator(text[hi - 1]) {
        lemma_last_terminator_range(text, lo, hi - 1);
    }
}

proof fn lemma_last_space_range(text: Seq<char>, lo: int, hi: int)
    requires
        0 <= lo,
    ensures
        spec_last_space(text, lo, hi) == -1 || lo <= spec_last_space(text, lo, hi) < hi,
    decreases hi - lo,
{
    if hi > lo && !spec_is_space(text[hi - 1]) {
        lemma_last_space_range(text, lo, hi - 1);
    }
}

/// The tail region begins strictly after the shared overlap, so every cut
/// leaves the window at a position past the overlap.
proof fn lemma_tail_start_exceeds_overlap(max_pos: int)
    requires
        2 <= max_pos,
    ensures
        spec_overlap(max_pos) < spec_tail_start(max_pos) <= max_pos,
{
    lemma_div_is_ordered(max_pos + 10, max_pos * 8, 10);
    lemma_div_plus_one(max_pos, 10);
    lemma_div_is_ordered(max_pos * 8, max_pos * 10, 10);
    assert((max_pos * 10) / 10 == max_pos) by (nonlinear_arith);
}

/// A cut always lands in `(overlap, max_pos]`: the chunk it closes is
/// nonempty, fits the window, and reaches past the shared overlap.
pub proof fn lemma_find_break_range(text: Seq<char>, max_pos: int)
    requires
        1 <= max_pos <= text.len(),
    ensures
        spec_overlap(max_pos) < spec_find_break(text, max_pos) <= max_pos,
{
    let lo = spec_tail_start(max_pos);
    if max_pos == 1 {
        assert(spec_overlap(1) == 0);
        assert(spec_tail_start(1) == 0);
        lemma_last_terminator_range(text, 0, 1);
        lemma_last_space_range(text, 0, 1);
    } else {
        lemma_tail_start_exceeds_overlap(max_pos);
        lemma_last_terminator_range(text, lo, max_pos);
        lemma_last_space_range(text, lo, max_pos);
    }
}

/// Cuts `text` as [`spec_find_break`] states.
pub fn find_break_point(text: &str, max_pos: usize) -> (r: usize)
    ensures
        r == spec_find_break(text@, max_pos as int),
{
    let n = text.unicode_len();
    if n < max_pos {
        return n;
    }
    let lo: usize = ((max_pos as u128) * 8 / 10) as usize;
    proof {
        assert((max_pos as u128) * 8 / 10 == spec_tail_start(max_pos as int)
            && spec_tail_start(max_pos as int) <= max_pos) by (nonlinear_arith);
    }
    let ghost tv = text@;
    let mut i: usize = max_pos;
    while i > lo
        invariant
            lo <= i <= max_pos <= n,
            n == tv.len(),
            tv == text@,
            lo == spec_tail_start(max_pos as int),
            spec_last_terminator(tv, lo as int, max_pos as int) == spec_last_terminator(
                tv,
                lo as int,
                i as int,
            ),
        decreases i,
    {
        let c = text.get_char(i - 1);
        if is_terminator_char(c) {
            assert(spec_last_terminator(tv, lo as int, max_pos as int) == i - 1);
            if i < max_pos {
                let nc = text.get_char(i);
                if is_space_char(nc) {
                    return i + 1;
                }
            }
            return i;
        }
        i -= 1;
    }
    assert(spec_last_terminator(tv, lo as int, max_pos as int) == -1);
    let mut j: usize = max_pos;
    while j > lo
        invariant
            lo <= j <= max_pos <= n,
            n == tv.len(),
            tv == text@,
            lo == spec_tail_start(max_pos as int),
            spec_last_terminator(tv, lo as int, max_pos as int) == -1,
            spec_last_space(tv, lo as int, max_pos as int) == spec_last_space(
                tv,
                lo as int,
                j as int,
            ),
        decreases j,
    {
        let c = text.get_char(j - 1);
        if is_space_char(c) {
            assert(spec_last_space(tv, lo as int, max_pos as int) == j - 1);
            return j;
        }
        j -= 1;
    }
    assert(spec_last_space(tv, lo as int, max_pos as int) == -1);
    max_pos
}

/// Larger of two positions.
pub open spec fn spec_pos_max(a: int, b: int) -> int {
    if a >= b {
        a
    } else {
        b
    }
}

/// The list of cuts the chunking loop makes from `pos` on.
///
/// Each step cuts a window of `max_len` characters at the position
/// [`spec_find_break`] picks, then backs up by [`spec_overlap`] — though
/// never behind `guard`, the end of the chunk cut before the current one,
/// which keeps the walk moving forward. The final step takes whatever
/// still fits in one window.
pub open spec fn spec_chunk_bounds(text: Seq<char>, max_len: int, pos: int, guard: int) -> Seq<
    (int, int),
>
    decreases text.len() - pos,
        when 1 <= max_len && 0 <= pos && 0 <= guard <= pos + spec_overlap(max_len)
{
    if pos >= text.len() {
        Seq::empty()
    } else if text.len() - pos <= max_len {
        seq![(pos, text.len() as int)]
    } else {
        let e = pos + spec_find_break(text.subrange(pos, pos + max_len), max_len);
        let next = spec_pos_max(e - spec_overlap(max_len), guard);
        proof {
            assert(text.subrange(pos, pos + max_len).len() == max_len);
            lemma_find_break_range(text.subrange(pos, pos + max_len), max_len);
            vstd::arithmetic::div_mod::lemma_div_nonincreasing(max_len, 10);
            assert(e - spec_overlap(max_len) > pos);
            assert(next > pos);
            assert(next < text.len());
            assert(e <= next + spec_overlap(max_len));
        }
        seq![(pos, e)] + spec_chunk_bounds(text, max_len, next, e)
    }
}

/// The pieces of `text` that a list of cuts selects.
pub open spec fn spec_chunks_of(text: Seq<char>, bounds: Seq<(int, int)>) -> Seq<Seq<char>> {
    bounds.map_values(|b: (int, int)| text.subrange(b.0, b.1))
}

/// What `chunk_text` returns.
///
/// Empty text gives no chunks; text that fits the limit gives itself as
/// the only chunk; with a limit of zero nothing else can be cut and the
/// result is empty; longer text is cut as [`spec_chunk_bounds`] walks it.
pub open spec fn spec_chunk_text(text: Seq<char>, max_len: int) -> Seq<Seq<char>> {
    if text.len() == 0 {
        Seq::empty()
    } else if text.len() <= max_len {
        seq![text]
    } else if max_len < 1 {
        Seq::empty()
    } else {
        spec_chunks_of(text, spec_chunk_bounds(text, max_len, 0, 0))
    }
}

/// The shape of the cut list: every chunk is nonempty and no longer than
/// `max_len`, the first starts at `pos`, the last ends at the end of the
/// text, chunk ends strictly grow, every chunk starts at or before the
/// end of the one before it, and each start is exactly the previous end
/// backed up by the overlap, clamped by the end one further back.
pub open spec fn spec_bounds_shape(
    text: Seq<char>,
    max_len: int,
    pos: int,
    guard: int,
    bs: Seq<(int, int)>,
) -> bool {
    &&& bs.len() >= 1
    &&& bs[0].0 == pos
    &&& bs[bs.len() - 1].1 == text.len()
    &&& forall|k: int|
        0 <= k < bs.len() ==> 0 <= (#[trigger] bs[k]).0 < bs[k].1 <= text.len() && bs[k].1
            - bs[k].0 <= max_len
    &&& forall|k: int| 0 <= k < bs.len() - 1 ==> (#[trigger] bs[k]).1 < bs[k + 1].1
    &&& forall|k: int| 0 <= k < bs.len() - 1 ==> (#[trigger] bs[k + 1]).0 <= bs[k].1
    &&& forall|k: int|
        0 <= k < bs.len() - 1 ==> (#[trigger] bs[k + 1]).0 == spec_pos_max(
            bs[k].1 - spec_overlap(max_len),
            if k == 0 {
                guard
            } else {
                bs[k - 1].1
            },
        )
    &&& bs.len() >= 2 ==> bs[0].1 - bs[0].0 > spec_overlap(max_len)
}

/// The cut list has the shape [`spec_bounds_shape`] describes.
pub proof fn lemma_chunk_bounds_shape(text: Seq<char>, max_len: int, pos: int, guard: int)
    requires
        1 <= max_len,
        0 <= pos < text.len(),
        0 <= guard <= pos + spec_overlap(max_len),
    ensures
        spec_bounds_shape(text, max_len, pos, guard, spec_chunk_bounds(text, max_len, pos, guard)),
    decreases text.len() - pos,
{
    let bs = spec_chunk_bounds(text, max_len, pos, guard);
    let ov = spec_overlap(max_len);
    if text.len() - pos <= max_len {
        assert(bs =~= seq![(pos, text.len() as int)]);
    } else {
        let w = text.subrange(pos, pos + max_len);
        let e = pos + spec_find_break(w, max_len);
        let next = spec_pos_max(e - ov, guard);
        lemma_find_break_range(w, max_len);
        assert(pos + ov < e <= pos + max_len);
        assert(e < text.len());
        assert(next < text.len());
        assert(0 <= next);
        assert(e <= next + ov);
        lemma_chunk_bounds_shape(text, max_len, next, e);
        let rest = spec_chunk_bounds(text, max_len, next, e);
        assert(bs =~= seq![(pos, e)] + rest);
        assert(bs.len() == 1 + rest.len());
        assert(bs[0] == (pos, e));
        assert(forall|k: int| 0 <= k < rest.len() ==> #[trigger] bs[k + 1] == rest[k]);
        assert(bs[bs.len() - 1].1 == text.len()) by {
            assert(bs[bs.len() - 1] == rest[rest.len() - 1]);
        }
        // The first chunk of `rest` ends past `e`: either it is the final
        // chunk and ends at the end of the text, or it is a full window
        // whose cut lies past the overlap.
        assert(rest[0].1 > e) by {
            if rest.len() >= 2 {
                assert(rest[0].1 - rest[0].0 > ov);
                assert(rest[0].0 == next >= e - ov);
            } else {
                assert(rest[0].1 == text.len());
            }
        }
        assert(forall|k: int|
            0 <= k < bs.len() ==> 0 <= (#[trigger] bs[k]).0 < bs[k].1 <= text.len() && bs[k].1
                - bs[k].0 <= max_len);
        assert(forall|k: int| 0 <= k < bs.len() - 1 ==> (#[trigger] bs[k]).1 < bs[k + 1].1) by {
            assert(forall|k: int|
                1 <= k < bs.len() - 1 ==> (#[trigger] bs[k]).1 == rest[k - 1].1 && bs[k + 1].1
                    == rest[k].1);
        }
        assert(forall|k: int| 0 <= k < bs.len() - 1 ==> (#[trigger] bs[k + 1]).0 <= bs[k].1) by {
            assert(bs[1].0 == rest[0].0 == next <= e);
            assert(forall|k: int|
                1 <= k < bs.len() - 1 ==> (#[trigger] bs[k + 1]).0 == rest[k].0 && bs[k].1
                    == rest[k - 1].1);
        }
        assert(forall|k: int|
            0 <= k < bs.len() - 1 ==> (#[trigger] bs[k + 1]).0 == spec_pos_max(
                bs[k].1 - ov,
                if k == 0 {
                    guard
                } else {
                    bs[k - 1].1
                },
            )) by {
            assert(bs[1].0 == next == spec_pos_max(bs[0].1 - ov, guard));
            assert(forall|k: int|
                1 <= k < bs.len() - 1 ==> (#[trigger] bs[k + 1]).0 == rest[k].0 && rest[k].0
                    == spec_pos_max(
                    rest[k - 1].1 - ov,
                    if k - 1 == 0 {
                        e
                    } else {
                        rest[k - 2].1
                    },
                ));
        }
    }
}

/// Cuts `input` into chunks of at most `max_len` characters, as
/// [`spec_chunk_text`] states: empty input gives no chunks, input within
/// the limit is returned whole, and longer input is cut at sentence or
/// word boundaries with overlap carried between consecutive chunks.
pub fn chunk_text(input: &str, max_len: usize) -> (chunks: Vec<String>)
    ensures
        chunks.deep_view() == spec_chunk_text(input@, max_len as int),
        forall|k: int| 0 <= k < chunks@.len() ==> (#[trigger] chunks@[k])@.len() <= max_len,
        input@.len() == 0 ==> chunks@.len() == 0,
        1 <= input@.len() <= max_len ==> chunks.deep_view() == seq![input@],
{
    let n = input.unicode_len();
    let mut chunks: Vec<String> = Vec::new();
    if n == 0 {
        proof {
            assert(chunks.deep_view() =~= spec_chunk_text(input@, max_len as int));
        }
        return chunks;
    }
    if n <= max_len {
        chunks.push(String::from_str(input));
        proof {
            assert(chunks.deep_view() =~= seq![input@]);
        }
        return chunks;
    }
    if max_len == 0 {
        proof {
            assert(chunks.deep_view() =~= spec_chunk_text(input@, max_len as int));
        }
        return chunks;
    }
    let ov: usize = max_len / 10;
    let mut pos: usize = 0;
    let mut guard: usize = 0;
    proof {
        vstd::arithmetic::div_mod::lemma_div_nonincreasing(max_len as int, 10);
    }
    loop
        invariant_except_break
            1 <= max_len < n,
            n == input@.len(),
            pos < n,
            guard <= pos + ov,
            ov == spec_overlap(max_len as int),
            spec_chunk_text(input@, max_len as int) =~= chunks.deep_view() + spec_chunks_of(
                input@,
                spec_chunk_bounds(input@, max_len as int, pos as int, guard as int),
            ),
        ensures
            chunks.deep_view() =~= spec_chunk_text(input@, max_len as int),
        decreases n - pos,
    {
        let ghost prev = chunks.deep_view();
        let ghost bs = spec_chunk_bounds(input@, max_len as int, pos as int, guard as int);
        if n - pos <= max_len {
            let piece = input.substring_char(pos, n);
            chunks.push(String::from_str(piece));
            proof {
                assert(bs =~= seq![(pos as int, n as int)]);
                assert(spec_chunks_of(input@, bs) =~= seq![input@.subrange(pos as int, n as int)]);
                assert(chunks.deep_view() =~= prev + seq![piece@]);
            }
            break;
        }
        let window = input.substring_char(pos, pos + max_len);
        let fb = find_break_point(window, max_len);
        proof {
            lemma_find_break_range(window@, max_len as int);
        }
        let e = pos + fb;
        let piece = input.substring_char(pos, e);
        chunks.push(String::from_str(piece));
        let cand = e - ov;
        let next = if cand > guard {
            cand
        } else {
            guard
        };
        proof {
            let rest = spec_chunk_bounds(input@, max_len as int, next as int, e as int);
            assert(bs =~= seq![(pos as int, e as int)] + rest);
            assert(spec_chunks_of(input@, bs) =~= seq![piece@] + spec_chunks_of(input@, rest));
            assert(chunks.deep_view() =~= prev + seq![piece@]);
            assert(chunks.deep_view() + spec_chunks_of(input@, rest) =~= prev + spec_chunks_of(
                input@,
                bs,
            ));
        }
        guard = e;
        pos = next;
    }
    proof {
        lemma_chunk_bounds_shape(input@, max_len as int, 0, 0);
        let bs = spec_chunk_bounds(input@, max_len as int, 0, 0);
        assert(forall|k: int|
            0 <= k < chunks@.len() ==> chunks.deep_view()[k] == (#[trigger] chunks@[k])@);
        assert(forall|k: int|
            0 <= k < bs.len() ==> #[trigger] spec_chunks_of(input@, bs)[k] == input@.subrange(
                bs[k].0,
                bs[k].1,
            ));
    }
    chunks
}

/// No chunk is ever longer than the limit, whatever the input.
pub proof fn lemma_chunk_length_bounded(text: Seq<char>, max_len: int)
    ensures
        forall|k: int|
            0 <= k < spec_chunk_text(text, max_len).len() ==> (#[trigger] spec_chunk_text(
                text,
                max_len,
            )[k]).len() <= max_len,
{
    if text.len() == 0 || text.len() <= max_len || max_len < 1 {
    } else {
        lemma_chunk_bounds_shape(text, max_len, 0, 0);
        let bs = spec_chunk_bounds(text, max_len, 0, 0);
        assert(forall|k: int|
            0 <= k < bs.len() ==> #[trigger] spec_chunk_text(text, max_len)[k] == text.subrange(
                bs[k].0,
                bs[k].1,
            ));
    }
}

/// How the chunks of long text tile it: the cut list starts at the first
/// character, ends at the last, never leaves a gap between consecutive
/// chunks, and each chunk starts exactly [`spec_overlap`] characters
/// before the previous cut — the shared overlap — except where the end
/// of the chunk one further back clamps the walk.
pub proof fn lemma_chunk_overlap_structure(text: Seq<char>, max_len: int)
    requires
        1 <= max_len < text.len(),
    ensures
        spec_chunk_text(text, max_len) == spec_chunks_of(
            text,
            spec_chunk_bounds(text, max_len, 0, 0),
        ),
        spec_bounds_shape(text, max_len, 0, 0, spec_chunk_bounds(text, max_len, 0, 0)),
{
    lemma_chunk_bounds_shape(text, max_len, 0, 0);
}

} // verus!
