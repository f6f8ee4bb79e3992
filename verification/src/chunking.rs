//! Splitting a document into overlapping windows of characters.

use vstd::prelude::*;

use crate::text::{chars_of, string_from_range, trim, trim_bounds};

verus! {

/// The end of the window that starts at `start`: `max` characters on, or the
/// end of the text, whichever comes first.
pub open spec fn window_end(len: nat, start: nat, max: nat) -> nat {
    if start + max < len {
        start + max
    } else {
        len
    }
}

/// The windows of `chars` from `start` on: each holds up to `max`
/// characters, and each after the first begins `overlap` characters before
/// the end of the one before it. The last window ends with the text.
pub open spec fn windows(chars: Seq<char>, start: nat, max: nat, overlap: nat) -> Seq<Seq<char>>
    decreases chars.len() - start,
{
    if overlap >= max || start >= chars.len() {
        seq![]
    } else {
        let end = window_end(chars.len(), start, max);
        let chunk = chars.subrange(start as int, end as int);
        if end == chars.len() {
            seq![chunk]
        } else {
            seq![chunk] + windows(chars, (end - overlap) as nat, max, overlap)
        }
    }
}

/// The chunks of `input`: none for text that is blank once trimmed, the
/// trimmed text itself when it holds at most `max` characters, and its
/// overlapping windows otherwise.
pub open spec fn chunks(input: Seq<char>, max: nat, overlap: nat) -> Seq<Seq<char>> {
    let t = trim(input);
    if t.len() == 0 {
        seq![]
    } else if t.len() <= max {
        seq![t]
    } else {
        windows(t, 0, max, overlap)
    }
}

/// The inputs on which chunking ends: either the trimmed text fits in one
/// chunk, or every window advances the start (the overlap is shorter than
/// a chunk).
pub open spec fn chunking_terminates(input: Seq<char>, max: nat, overlap: nat) -> bool {
    trim(input).len() <= max || overlap < max
}

/// The contents of a sequence of strings.
pub open spec fn string_views(v: Seq<String>) -> Seq<Seq<char>> {
    v.map_values(|s: String| s@)
}

/// Splits `input` into chunks of at most `max_chars` characters, each
/// chunk after the first repeating the last `overlap_chars` characters of
/// the one before it. Leading and trailing white space is dropped first.
pub fn chunk_text(input: &str, max_chars: usize, overlap_chars: usize) -> (out: Vec<String>)
    requires
        chunking_terminates(input@, max_chars as nat, overlap_chars as nat),
    ensures
        string_views(out@) == chunks(input@, max_chars as nat, overlap_chars as nat),
{
    let all = chars_of(input);
    let (lo, hi) = trim_bounds(&all);
    if lo == hi {
        let out: Vec<String> = Vec::new();
        assert(string_views(out@) =~= seq![]);
        return out;
    }
    if hi - lo <= max_chars {
        let mut out: Vec<String> = Vec::new();
        out.push(string_from_range(&all, lo, hi));
        assert(string_views(out@) =~= seq![trim(input@)]);
        return out;
    }
    let ghost t = trim(input@);
    let ghost full = windows(t, 0, max_chars as nat, overlap_chars as nat);
    let mut out: Vec<String> = Vec::new();
    let mut start: usize = 0;
    assert(string_views(out@) + full =~= full);
    loop
        invariant_except_break
            start < hi - lo,
            string_views(out@) + windows(t, start as nat, max_chars as nat, overlap_chars as nat)
                == full,
        invariant
            lo < hi <= all.len(),
            t == all@.subrange(lo as int, hi as int),
            hi - lo > max_chars,
            overlap_chars < max_chars,
            full == windows(t, 0, max_chars as nat, overlap_chars as nat),
        ensures
            string_views(out@) == full,
        decreases hi - lo - start,
    {
        let n = hi - lo;
        let end = if max_chars < n - start {
            start + max_chars
        } else {
            n
        };
        let ghost rest = windows(t, start as nat, max_chars as nat, overlap_chars as nat);
        let chunk = string_from_range(&all, lo + start, lo + end);
        assert(chunk@ =~= t.subrange(start as int, end as int));
        let ghost before = string_views(out@);
        out.push(chunk);
        assert(string_views(out@) =~= before.push(chunk@));
        if end == n {
            assert(rest =~= seq![chunk@]);
            assert(string_views(out@) =~= before + rest);
            break;
        }
        let next = end - overlap_chars;
        assert(rest =~= seq![chunk@] + windows(
            t,
            next as nat,
            max_chars as nat,
            overlap_chars as nat,
        ));
        assert(string_views(out@) + windows(t, next as nat, max_chars as nat, overlap_chars as nat)
            =~= before + rest);
        start = next;
    }
    out
}


/// The text that a run of chunks covers: each chunk but the last
/// contributes what comes before its last `overlap` characters, and the last
/// contributes all of itself.
pub open spec fn stitch(cs: Seq<Seq<char>>, overlap: nat) -> Seq<char>
    decreases cs.len(),
{
    if cs.len() == 0 {
        seq![]
    } else if cs.len() == 1 {
        cs[0]
    } else {
        cs[0].subrange(0, cs[0].len() - overlap) + stitch(cs.drop_first(), overlap)
    }
}

proof fn lemma_windows(chars: Seq<char>, start: nat, max: nat, overlap: nat)
    requires
        overlap < max,
        start < chars.len(),
    ensures
        ({
            let w = windows(chars, start, max, overlap);
            &&& w.len() > 0
            &&& w[0] == chars.subrange(start as int, window_end(chars.len(), start, max) as int)
            &&& forall|i: int| 0 <= i < w.len() ==> 0 < #[trigger] w[i].len() <= max
            &&& forall|i: int|
                0 <= i < w.len() - 1 ==> (#[trigger] w[i + 1]).subrange(0, overlap as int)
                    == w[i].subrange(w[i].len() - overlap, w[i].len() as int)
            &&& stitch(w, overlap) == chars.subrange(start as int, chars.len() as int)
        }),
    decreases chars.len() - start,
{
    let w = windows(chars, start, max, overlap);
    let end = window_end(chars.len(), start, max);
    let chunk = chars.subrange(start as int, end as int);
    if end < chars.len() {
        let next = (end - overlap) as nat;
        lemma_windows(chars, next, max, overlap);
        let rest = windows(chars, next, max, overlap);
        assert(w == seq![chunk] + rest);
        assert(w.drop_first() =~= rest);
        assert forall|i: int| 0 <= i < w.len() implies 0 < #[trigger] w[i].len() <= max by {
            if i > 0 {
                assert(w[i] == rest[i - 1]);
            }
        }
        assert forall|i: int| 0 <= i < w.len() - 1 implies (#[trigger] w[i + 1]).subrange(
            0,
            overlap as int,
        ) == w[i].subrange(w[i].len() - overlap, w[i].len() as int) by {
            if i == 0 {
                assert(w[1] == rest[0]);
                assert(rest[0].subrange(0, overlap as int) =~= chars.subrange(
                    next as int,
                    end as int,
                ));
                assert(chunk.subrange(chunk.len() - overlap, chunk.len() as int) =~= chars.subrange(
                    next as int,
                    end as int,
                ));
            } else {
                assert(w[i] == rest[i - 1]);
                assert(w[i + 1] == rest[i]);
            }
        }
        assert(chunk.subrange(0, chunk.len() - overlap) =~= chars.subrange(
            start as int,
            next as int,
        ));
        assert(stitch(w, overlap) == chunk.subrange(0, chunk.len() - overlap) + stitch(
            rest,
            overlap,
        ));
        assert(stitch(w, overlap) =~= chars.subrange(start as int, chars.len() as int));
    } else {
        assert(w == seq![chunk]);
    }
}

/// Every chunk holds at least one character and at most `max_chars`.
pub proof fn lemma_chunk_sizes(input: Seq<char>, max_chars: nat, overlap_chars: nat)
    requires
        chunking_terminates(input, max_chars, overlap_chars),
    ensures
        forall|i: int|
            0 <= i < chunks(input, max_chars, overlap_chars).len() ==> 0 < #[trigger] chunks(
                input,
                max_chars,
                overlap_chars,
            )[i].len() <= max_chars,
{
    let t = trim(input);
    if t.len() > max_chars {
        lemma_windows(t, 0, max_chars, overlap_chars);
    }
}

/// Each chunk after the first begins with the last `overlap_chars`
/// characters of the chunk before it.
pub proof fn lemma_chunk_overlap(input: Seq<char>, max_chars: nat, overlap_chars: nat)
    requires
        chunking_terminates(input, max_chars, overlap_chars),
    ensures
        ({
            let cs = chunks(input, max_chars, overlap_chars);
            forall|i: int|
                0 <= i < cs.len() - 1 ==> (#[trigger] cs[i + 1]).subrange(0, overlap_chars as int)
                    == cs[i].subrange(cs[i].len() - overlap_chars, cs[i].len() as int)
        }),
{
    let t = trim(input);
    if t.len() > max_chars {
        lemma_windows(t, 0, max_chars, overlap_chars);
    }
}

/// The chunks cover the trimmed text exactly: dropping from each chunk but
/// the last the characters that the next one repeats, and joining them,
/// gives the trimmed text back.
pub proof fn lemma_chunks_cover_text(input: Seq<char>, max_chars: nat, overlap_chars: nat)
    requires
        chunking_terminates(input, max_chars, overlap_chars),
    ensures
        stitch(chunks(input, max_chars, overlap_chars), overlap_chars) == trim(input),
{
    let t = trim(input);
    if t.len() > max_chars {
        lemma_windows(t, 0, max_chars, overlap_chars);
        assert(t.subrange(0, t.len() as int) =~= t);
    } else if t.len() == 0 {
        assert(t =~= seq![]);
    }
}


/// How many chunks a trimmed text of `n` characters gives: none when it
/// is empty, one when it fits, and otherwise one more for every further
/// `max - overlap` characters or part of them.
pub open spec fn chunk_count(n: nat, max: nat, overlap: nat) -> nat {
    if n == 0 {
        0
    } else if n <= max {
        1
    } else {
        1 + ((n - max) + (max - overlap) - 1) as nat / (max - overlap) as nat
    }
}

proof fn lemma_windows_count(chars: Seq<char>, start: nat, max: nat, overlap: nat)
    requires
        overlap < max,
        start < chars.len(),
    ensures
        windows(chars, start, max, overlap).len() == chunk_count(
            (chars.len() - start) as nat,
            max,
            overlap,
        ),
    decreases chars.len() - start,
{
    let n = chars.len();
    let end = window_end(n, start, max);
    if end < n {
        let next = (end - overlap) as nat;
        lemma_windows_count(chars, next, max, overlap);
        let step = (max - overlap) as int;
        let m = n - start - max;
        assert(windows(chars, start, max, overlap).len() == 1 + windows(
            chars,
            next,
            max,
            overlap,
        ).len());
        if m <= step {
            assert((m + step - 1) / step == 1) by (nonlinear_arith)
                requires
                    0 < m <= step,
            ;
        } else {
            assert((m + step - 1) / step == (m - step + step - 1) / step + 1) by (nonlinear_arith)
                requires
                    m > step > 0,
            ;
        }
    }
}

/// The number of chunks of a text: `chunk_count` of the length of the
/// trimmed text.
pub proof fn lemma_chunk_count(input: Seq<char>, max_chars: nat, overlap_chars: nat)
    requires
        chunking_terminates(input, max_chars, overlap_chars),
    ensures
        chunks(input, max_chars, overlap_chars).len() == chunk_count(
            trim(input).len(),
            max_chars,
            overlap_chars,
        ),
{
    let t = trim(input);
    if t.len() > max_chars {
        lemma_windows_count(t, 0, max_chars, overlap_chars);
    }
}

} // verus!
