//! Tailing a bounded log source: a fixed-capacity sliding window over
//! the lines of the source, so that memory use is proportional to the
//! lines kept, never to the size of the source.
//!
//! The caller streams lines into a `TailWindow`; the window retains
//! exactly the last `capacity` of them, in their original order. A
//! request is clamped to `MAX_TAIL_LINES` before it becomes a
//! capacity, and a source larger than `MAX_SOURCE_BYTES` is refused
//! outright with a distinct error before any content is produced.

use std::collections::VecDeque;
use vstd::prelude::*;

verus! {

/// The largest number of lines a single request may return.
pub const MAX_TAIL_LINES: usize = 1000;

/// The largest source, in bytes, the reader will touch.
pub const MAX_SOURCE_BYTES: u64 = 100 * 1024 * 1024;

/// Why a tail request failed.
#[derive(Clone, Copy, Debug, PartialEq, Eq, Structural)]
pub enum TailError {
    /// The source does not exist.
    NotFound,
    /// The source exists but could not be opened or read.
    Unreadable,
    /// The source exceeds `MAX_SOURCE_BYTES`.
    TooLarge,
}

/// The last `k` elements of a sequence (all of it when it is shorter).
pub open spec fn spec_tail<A>(s: Seq<A>, k: nat) -> Seq<A> {
    if s.len() <= k {
        s
    } else {
        s.skip(s.len() - k)
    }
}

/// The tail keeps `min(len, k)` elements, and element `i` of the tail
/// is element `len - min(len, k) + i` of the source: the last lines,
/// in their original order.
pub proof fn lemma_tail_window<A>(s: Seq<A>, k: nat)
    ensures
        spec_tail(s, k).len() == if s.len() <= k {
            s.len()
        } else {
            k
        },
        forall|i: int|
            0 <= i < spec_tail(s, k).len() ==> #[trigger] spec_tail(s, k)[i] == s[s.len()
                - spec_tail(s, k).len() + i],
{
}

/// A sliding window over streamed lines: keeps the last `capacity`
/// lines seen, evicting the oldest as new lines arrive.
pub struct TailWindow {
    capacity: usize,
    buf: VecDeque<String>,
}

impl TailWindow {
    /// The lines currently held, oldest first.
    pub closed spec fn lines(&self) -> Seq<Seq<char>> {
        self.buf@.map_values(|s: String| s@)
    }

    /// The window's fixed capacity.
    pub closed spec fn spec_capacity(&self) -> nat {
        self.capacity as nat
    }

    /// The window never holds more than its capacity.
    pub closed spec fn well_formed(&self) -> bool {
        self.buf@.len() <= self.capacity
    }

    /// An empty window of the given capacity.
    pub fn new(capacity: usize) -> (r: TailWindow)
        ensures
            r.well_formed(),
            r.spec_capacity() == capacity,
            r.lines() =~~= Seq::<Seq<char>>::empty(),
    {
        let w = TailWindow { capacity, buf: VecDeque::new() };
        proof {
            assert(w.lines() =~~= Seq::<Seq<char>>::empty());
        }
        w
    }

    /// Takes one more line: the window then holds the last
    /// `capacity` of all lines pushed so far.
    pub fn push(&mut self, line: String)
        requires
            old(self).well_formed(),
        ensures
            final(self).well_formed(),
            final(self).spec_capacity() == old(self).spec_capacity(),
            final(self).lines() =~~= spec_tail(
                old(self).lines().push(line@),
                old(self).spec_capacity(),
            ),
    {
        if self.capacity == 0 {
            proof {
                assert(old(self).lines().push(line@).len() == old(self).lines().len() + 1);
                assert(final(self).lines() =~~= spec_tail(
                    old(self).lines().push(line@),
                    0nat,
                ));
            }
            return;
        }
        if self.buf.len() >= self.capacity {
            let _ = self.buf.pop_front();
        }
        self.buf.push_back(line);
        proof {
            assert(final(self).lines() =~~= spec_tail(
                old(self).lines().push(line@),
                old(self).spec_capacity(),
            ));
        }
    }

    /// The lines currently held, as a vector, oldest first.
    pub fn to_lines(&self) -> (r: Vec<String>)
        ensures
            r.deep_view() =~~= self.lines(),
    {
        let mut out: Vec<String> = Vec::new();
        let n = self.buf.len();
        let mut i: usize = 0;
        while i < n
            invariant
                i <= n,
                n == self.buf@.len(),
                out.deep_view() =~~= self.lines().take(i as int),
            decreases n - i,
        {
            let ghost old_dv = out.deep_view();
            let line = self.buf[i].clone();
            proof {
                assert(line@ == self.buf@[i as int]@);
                assert(self.lines()[i as int] == self.buf@[i as int]@);
            }
            out.push(line);
            proof {
                assert(out@.len() == old_dv.len() + 1);
                assert forall|j: int| 0 <= j < out@.len() implies #[trigger] out.deep_view()[j]
                    == self.lines().take(i + 1)[j] by {
                    if j < i {
                        assert(out.deep_view()[j] == old_dv[j]);
                    }
                }
                assert(out.deep_view() =~~= self.lines().take(i + 1));
            }
            i = i + 1;
        }
        proof {
            assert(self.lines().take(n as int) =~~= self.lines());
        }
        out
    }
}

/// Clamps a request to the line cap.
pub fn clamp_lines(requested: usize) -> (r: usize)
    ensures
        r == if requested < MAX_TAIL_LINES as int {
            requested as int
        } else {
            MAX_TAIL_LINES as int
        },
{
    if requested < MAX_TAIL_LINES {
        requested
    } else {
        MAX_TAIL_LINES
    }
}

/// The last `min(requested, MAX_TAIL_LINES)` lines of the source, in
/// their original order.
pub fn tail_lines(lines: &Vec<String>, requested: usize) -> (r: Vec<String>)
    ensures
        r.deep_view() =~~= spec_tail(
            lines.deep_view(),
            if requested < MAX_TAIL_LINES as int {
                requested as nat
            } else {
                MAX_TAIL_LINES as nat
            },
        ),
{
    let cap = clamp_lines(requested);
    let mut w = TailWindow::new(cap);
    let n = lines.len();
    let mut i: usize = 0;
    while i < n
        invariant
            i <= n,
            n == lines.len(),
            w.well_formed(),
            w.spec_capacity() == cap,
            w.lines() =~~= spec_tail(lines.deep_view().take(i as int), cap as nat),
        decreases n - i,
    {
        w.push(lines[i].clone());
        proof {
            let dv = lines.deep_view();
            assert(dv.take(i + 1) =~~= dv.take(i as int).push(dv[i as int]));
            lemma_tail_push(dv.take(i as int), dv[i as int], cap as nat);
        }
        i = i + 1;
    }
    proof {
        assert(lines.deep_view().take(n as int) =~~= lines.deep_view());
    }
    w.to_lines()
}

/// Pushing one element onto a window's contents and re-clamping is
/// the same as clamping the extended source: the window loses exactly
/// its oldest line.
proof fn lemma_tail_push<A>(s: Seq<A>, x: A, k: nat)
    ensures
        spec_tail(spec_tail(s, k).push(x), k) =~= spec_tail(s.push(x), k),
{
    if s.len() < k {
    } else if s.len() == k {
        assert(spec_tail(s, k) == s);
    } else {
        let t = s.skip(s.len() - k);
        assert(spec_tail(s, k) == t);
        assert(t.push(x) =~= s.push(x).skip(s.len() - k));
        if k > 0 {
            assert(t.push(x).skip(1) =~= s.push(x).skip(s.len() + 1 - k));
        }
    }
}

/// The lines joined by single newlines, with no trailing newline.
pub open spec fn spec_join(parts: Seq<Seq<char>>) -> Seq<char>
    decreases parts.len(),
{
    if parts.len() == 0 {
        Seq::empty()
    } else if parts.len() == 1 {
        parts[0]
    } else {
        spec_join(parts.drop_last()) + seq!['\n'] + parts.last()
    }
}

/// Joins lines with newlines.
pub fn join_lines(lines: &Vec<String>) -> (r: String)
    ensures
        r@ == spec_join(lines.deep_view()),
{
    let mut acc = String::new();
    let n = lines.len();
    let mut i: usize = 0;
    proof {
        reveal_strlit("\n");
    }
    while i < n
        invariant
            i <= n,
            n == lines.len(),
            acc@ == spec_join(lines.deep_view().take(i as int)),
        decreases n - i,
    {
        let ghost dv = lines.deep_view();
        if i > 0 {
            acc.append("\n");
        }
        acc.append(lines[i].as_str());
        proof {
            reveal_strlit("\n");
            assert(dv.take(i + 1).drop_last() =~~= dv.take(i as int));
            assert(dv.take(i + 1).last() == dv[i as int]);
            if i == 0 {
                assert(acc@ =~= dv[0]);
                assert(spec_join(dv.take(1)) == dv.take(1)[0]);
                assert(dv.take(1)[0] == dv[0]);
            } else {
                assert("\n"@ =~= seq!['\n']);
                assert(acc@ =~= spec_join(dv.take(i as int)) + seq!['\n'] + dv[i as int]);
            }
        }
        i = i + 1;
    }
    proof {
        assert(lines.deep_view().take(n as int) =~~= lines.deep_view());
    }
    acc
}

/// Serves one tail request over an already-read source: refuses an
/// oversized source with the distinct `TooLarge` error and no content
/// at all; otherwise returns exactly the last clamped-count lines,
/// joined by newlines.
pub fn tail_source(source_size: u64, lines: &Vec<String>, requested: usize) -> (r: Result<
    String,
    TailError,
>)
    ensures
        source_size > MAX_SOURCE_BYTES ==> r == Result::<String, TailError>::Err(
            TailError::TooLarge,
        ),
        source_size <= MAX_SOURCE_BYTES ==> match r {
            Ok(text) => text@ == spec_join(
                spec_tail(
                    lines.deep_view(),
                    if requested < MAX_TAIL_LINES as int {
                        requested as nat
                    } else {
                        MAX_TAIL_LINES as nat
                    },
                ),
            ),
            Err(_) => false,
        },
{
    if source_size > MAX_SOURCE_BYTES {
        return Err(TailError::TooLarge);
    }
    let kept = tail_lines(lines, requested);
    Ok(join_lines(&kept))
}

} // verus!
