use vstd::prelude::*;
use crate::LoopPoints;

verus! {

/// Playback position over an interleaved buffer of `len` samples that repeats the loop
/// body `[start_sample, end_sample)`, up to `max_loops` times (without end when `None`).
#[derive(Clone, Copy, Debug, PartialEq, Eq, Structural)]
pub struct LoopingSource {
    pub len: usize,
    pub channels: u16,
    pub loop_points: LoopPoints,
    pub cursor: usize,
    pub loop_count: u32,
    pub max_loops: Option<u32>,
}

/// Whether another jump back is allowed after `count` of them.
pub open spec fn may_loop(max_loops: Option<u32>, count: u32) -> bool {
    match max_loops {
        Some(max) => count < max,
        None => true,
    }
}

/// State after one sample has been played from `s`: the cursor moves on, and jumps back
/// to the loop's start when it has reached the loop's end on a frame boundary and more
/// loops are allowed. The loop count stops at its largest value.
pub open spec fn advance_spec(s: LoopingSource) -> LoopingSource {
    let next = s.cursor + 1;
    if may_loop(s.max_loops, s.loop_count) && next >= s.loop_points.end_sample
        && next % (s.channels as int) == 0 {
        LoopingSource {
            cursor: s.loop_points.start_sample,
            loop_count: if s.loop_count < u32::MAX { (s.loop_count + 1) as u32 } else { s.loop_count },
            ..s
        }
    } else {
        LoopingSource { cursor: next as usize, ..s }
    }
}

/// Loops still allowed from `s` when it is bounded by `n`.
pub open spec fn loops_left(s: LoopingSource, n: u32) -> nat {
    if s.loop_count < n { (n - s.loop_count) as nat } else { 0 }
}

/// Samples still to play from `s` before its cursor reaches the end of the buffer.
pub open spec fn samples_left(s: LoopingSource) -> nat {
    if s.cursor < s.len { (s.len - s.cursor) as nat } else { 0 }
}

/// Every index a source bounded to `n` loops plays from state `s` on, in order.
pub open spec fn play_order(s: LoopingSource, n: u32) -> Seq<usize>
    recommends
        s.max_loops == Some(n),
        s.channels >= 1,
    decreases loops_left(s, n), samples_left(s),
{
    if s.cursor >= s.len || s.max_loops != Some(n) || s.channels == 0 {
        Seq::empty()
    } else {
        seq![s.cursor].add(play_order(advance_spec(s), n))
    }
}

impl LoopingSource {
    /// A source at the start of the buffer, with no loop played yet.
    pub fn new(len: usize, channels: u16, loop_points: LoopPoints, max_loops: Option<u32>) -> (r: Self)
        ensures
            r == (LoopingSource { len, channels, loop_points, cursor: 0, loop_count: 0, max_loops }),
    {
        LoopingSource { len, channels, loop_points, cursor: 0, loop_count: 0, max_loops }
    }

    /// Index of the next sample to play, or `None` at the end of the buffer.
    pub fn next_index(&mut self) -> (r: Option<usize>)
        requires
            old(self).channels >= 1,
        ensures
            old(self).cursor >= old(self).len ==> r is None && *final(self) == *old(self),
            old(self).cursor < old(self).len ==> r == Some(old(self).cursor) && *final(self)
                == advance_spec(*old(self)),
    {
        if self.cursor >= self.len {
            return None;
        }
        let at = self.cursor;
        let next = self.cursor + 1;
        let should_loop = match self.max_loops {
            Some(max) => self.loop_count < max,
            None => true,
        };
        if should_loop && next >= self.loop_points.end_sample && next % (self.channels as usize) == 0 {
            self.cursor = self.loop_points.start_sample;
            if self.loop_count < u32::MAX {
                self.loop_count = self.loop_count + 1;
            }
        } else {
            self.cursor = next;
        }
        Some(at)
    }

    /// Number of channels of the buffer.
    pub fn channels(&self) -> (r: u16)
        ensures
            r == self.channels,
    {
        self.channels
    }
}

/// The interleaved sample indices that an export with `loops` repetitions of the loop
/// body plays, in order: the pre-loop region, the body `loops` times over, and the rest
/// of the buffer.
pub fn export_order(len: usize, channels: u16, loop_points: LoopPoints, loops: u32) -> (r: Vec<usize>)
    requires
        channels >= 1,
    ensures
        r@ == play_order(
            LoopingSource { len, channels, loop_points, cursor: 0, loop_count: 0, max_loops: Some(loops) },
            loops,
        ),
{
    let mut src = LoopingSource::new(len, channels, loop_points, Some(loops));
    let ghost init = src;
    let mut out: Vec<usize> = Vec::new();
    loop
        invariant
            src.channels == channels >= 1,
            src.max_loops == Some(loops),
            init == (LoopingSource { len, channels, loop_points, cursor: 0, loop_count: 0, max_loops: Some(loops) }),
            out@ + play_order(src, loops) == play_order(init, loops),
        ensures
            out@ == play_order(init, loops),
        decreases loops_left(src, loops), samples_left(src),
    {
        let ghost before = src;
        match src.next_index() {
            Some(i) => {
                assert(play_order(before, loops) == seq![i].add(play_order(src, loops)));
                assert(out@.push(i) + play_order(src, loops) =~= out@ + play_order(before, loops));
                out.push(i);
            },
            None => {
                assert(out@ + play_order(src, loops) =~= out@);
                break;
            },
        }
    }
    out
}

} // verus!
