//! Change detection on captured frames: pixel checksums that decide when the
//! rate and mode/difficulty recognisers have to run again, and the latch that lets a
//! result screen report its play once.
use vstd::prelude::*;
use crate::frame::{clamp_i32, clamp_int, CapturedFrame, RoiRect};

verus! {

/// Smallest checksum difference that counts as a new score panel.
pub const RATE_CHECKSUM_CHANGE_THRESHOLD: u64 = 50;

/// Checksum of the score (or rate) panel seen when the rate was last read.
#[derive(Clone, Copy, Debug, Eq, PartialEq, Structural)]
pub struct RateInputChecksums {
    pub score: u64,
}

/// Checksums of the button-mode marker and of the difficulty panels.
#[derive(Clone, Copy, Debug, Eq, PartialEq, Structural)]
pub struct ModeDiffChecksums {
    pub mode: u64,
    pub diff: u64,
}

/// `|a - b|`.
pub open spec fn abs_diff(a: u64, b: u64) -> int {
    if a >= b {
        a - b
    } else {
        b - a
    }
}

/// The rate has to be read again: nothing was read before, or the score panel changed by
/// more than the threshold.
pub fn rate_inputs_changed(previous: Option<RateInputChecksums>, current: RateInputChecksums) -> (r: bool)
    ensures
        r == match previous {
            None => true,
            Some(p) => abs_diff(p.score, current.score) > RATE_CHECKSUM_CHANGE_THRESHOLD,
        },
{
    match previous {
        None => true,
        Some(p) => {
            let d = if p.score >= current.score { p.score - current.score } else { current.score - p.score };
            d > RATE_CHECKSUM_CHANGE_THRESHOLD
        },
    }
}

/// Whether the rate is read again does not depend on which of two checksums came first,
/// and the same checksum never asks for a new read.
pub proof fn lemma_rate_change_symmetric(a: u64, b: u64)
    ensures
        abs_diff(a, b) == abs_diff(b, a),
        abs_diff(a, a) == 0,
{
}

/// Sum of the blue, green and red bytes of the pixel whose first byte is at `idx`, when
/// `idx + 2` is inside the buffer; 0 otherwise.
pub open spec fn pixel_sum(bgra: Seq<u8>, idx: int) -> int {
    if 0 <= idx && idx + 2 < bgra.len() {
        bgra[idx] + bgra[idx + 1] + bgra[idx + 2]
    } else {
        0
    }
}

/// Pixel sums of row `y` at columns `x, x + 2, ...` below `x2`.
pub open spec fn sampled_row_sum(bgra: Seq<u8>, width: int, y: int, x: int, x2: int) -> int
    decreases x2 - x + 1,
{
    if x >= x2 {
        0
    } else {
        pixel_sum(bgra, (y * width + x) * 4) + sampled_row_sum(bgra, width, y, x + 2, x2)
    }
}

/// Sampled row sums of rows `y, y + 2, ...` below `y2`, columns from `x1` below `x2`.
pub open spec fn sampled_sum(bgra: Seq<u8>, width: int, y: int, y2: int, x1: int, x2: int) -> int
    decreases y2 - y + 1,
{
    if y >= y2 {
        0
    } else {
        sampled_row_sum(bgra, width, y, x1, x2) + sampled_sum(bgra, width, y + 2, y2, x1, x2)
    }
}

proof fn lemma_row_sum_bound(bgra: Seq<u8>, width: int, y: int, x: int, x2: int)
    requires
        x <= x2,
    ensures
        0 <= sampled_row_sum(bgra, width, y, x, x2) <= 765 * (x2 - x),
    decreases x2 - x + 1,
{
    if x < x2 {
        lemma_row_sum_bound(bgra, width, y, x + 2, if x + 2 <= x2 { x2 } else { x + 2 });
        if x + 2 > x2 {
            assert(sampled_row_sum(bgra, width, y, x + 2, x2) == 0);
        }
    }
}

proof fn lemma_sum_bound(bgra: Seq<u8>, width: int, y: int, y2: int, x1: int, x2: int)
    requires
        y <= y2,
        x1 <= x2,
    ensures
        0 <= sampled_sum(bgra, width, y, y2, x1, x2) <= 765 * (x2 - x1) * (y2 - y),
    decreases y2 - y + 1,
{
    if y < y2 {
        lemma_row_sum_bound(bgra, width, y, x1, x2);
        if y + 2 <= y2 {
            lemma_sum_bound(bgra, width, y + 2, y2, x1, x2);
        } else {
            assert(sampled_sum(bgra, width, y + 2, y2, x1, x2) == 0);
        }
        assert(765 * (x2 - x1) * (y2 - y) >= 765 * (x2 - x1) + 765 * (x2 - x1) * (y2 - y - 2)) by (nonlinear_arith)
            requires
                y < y2,
                x1 <= x2,
        ;
        assert(765 * (x2 - x1) * (y2 - y) >= 765 * (x2 - x1)) by (nonlinear_arith)
            requires
                y < y2,
                x1 <= x2,
        ;
        assert(765 * (x2 - x1) * (y2 - y - 2) >= 0 || y + 2 > y2) by (nonlinear_arith)
            requires
                y < y2,
                x1 <= x2,
        ;
    }
}

/// Checksum of a region of a frame, sampling every second pixel in both directions:
/// `None` when the clamped region is empty.
pub fn compute_pixel_checksum(frame: &CapturedFrame, roi: RoiRect) -> (r: Option<u64>)
    requires
        0 <= frame.width,
        0 <= frame.height,
        frame.width * frame.height * 4 <= i32::MAX,
    ensures
        ({
            let x1 = clamp_int(roi.x1 as int, 0, frame.width as int);
            let y1 = clamp_int(roi.y1 as int, 0, frame.height as int);
            let x2 = clamp_int(roi.x2 as int, 0, frame.width as int);
            let y2 = clamp_int(roi.y2 as int, 0, frame.height as int);
            if x2 <= x1 || y2 <= y1 {
                r is None
            } else {
                r == Some(sampled_sum(frame.bgra@, frame.width as int, y1, y2, x1, x2) as u64)
            }
        }),
{
    let x1 = clamp_i32(roi.x1, 0, frame.width);
    let y1 = clamp_i32(roi.y1, 0, frame.height);
    let x2 = clamp_i32(roi.x2, 0, frame.width);
    let y2 = clamp_i32(roi.y2, 0, frame.height);
    if x2 <= x1 || y2 <= y1 {
        return None;
    }
    let ghost bgra = frame.bgra@;
    let ghost w = frame.width as int;
    let ghost total = sampled_sum(bgra, w, y1 as int, y2 as int, x1 as int, x2 as int);
    proof {
        lemma_sum_bound(bgra, w, y1 as int, y2 as int, x1 as int, x2 as int);
        assert(765 * (x2 - x1) * (y2 - y1) <= 765 * (frame.width * frame.height)) by (nonlinear_arith)
            requires
                0 <= x1 < x2 <= frame.width,
                0 <= y1 < y2 <= frame.height,
        ;
        assert(frame.height <= frame.width * frame.height && frame.width <= frame.width * frame.height) by (nonlinear_arith)
            requires
                0 <= x1 < x2 <= frame.width,
                0 <= y1 < y2 <= frame.height,
        ;
    }
    let mut sum: u64 = 0;
    let mut y = y1;
    while y < y2
        invariant
            bgra == frame.bgra@,
            w == frame.width,
            0 <= frame.width,
            0 <= frame.height,
            frame.width * frame.height * 4 <= i32::MAX,
            0 <= x1 < x2 <= frame.width,
            0 <= y1 <= y < y2 + 2,
            y2 <= frame.height,
            total == sampled_sum(bgra, w, y1 as int, y2 as int, x1 as int, x2 as int),
            total <= 765 * (frame.width * frame.height),
            sum + sampled_sum(bgra, w, y as int, y2 as int, x1 as int, x2 as int) == total,
            frame.height <= frame.width * frame.height,
            frame.width <= frame.width * frame.height,
        decreases y2 - y + 1,
    {
        proof {
            lemma_row_sum_bound(bgra, w, y as int, x1 as int, x2 as int);
            if y + 2 <= y2 {
                lemma_sum_bound(bgra, w, (y + 2) as int, y2 as int, x1 as int, x2 as int);
            }
        }
        let mut x = x1;
        while x < x2
            invariant
                bgra == frame.bgra@,
                w == frame.width,
                0 <= frame.width,
                0 <= frame.height,
                frame.width * frame.height * 4 <= i32::MAX,
                0 <= x1 <= x < x2 + 2,
                x2 <= frame.width,
                0 <= y < y2 <= frame.height,
                total <= 765 * (frame.width * frame.height),
                sampled_sum(bgra, w, y as int, y2 as int, x1 as int, x2 as int) >= 0,
                sampled_sum(bgra, w, (y + 2) as int, y2 as int, x1 as int, x2 as int) >= 0,
                sum + sampled_row_sum(bgra, w, y as int, x as int, x2 as int) + sampled_sum(bgra, w, (y + 2) as int, y2 as int, x1 as int, x2 as int) == total,
                frame.width <= frame.width * frame.height,
            decreases x2 - x + 1,
        {
            proof {
                assert(0 <= (y * frame.width + x) * 4 < frame.width * frame.height * 4) by (nonlinear_arith)
                    requires
                        0 <= x < frame.width,
                        0 <= y < frame.height,
                ;
                lemma_row_sum_bound(bgra, w, y as int, (x + 2) as int, if x + 2 <= x2 { x2 as int } else { (x + 2) as int });
                if x + 2 > x2 {
                    assert(sampled_row_sum(bgra, w, y as int, (x + 2) as int, x2 as int) == 0);
                }
            }
            let idx = ((y * frame.width + x) * 4) as usize;
            proof {
                assert(sampled_row_sum(bgra, w, y as int, x as int, x2 as int) == pixel_sum(bgra, (y * w + x) * 4) + sampled_row_sum(bgra, w, y as int, (x + 2) as int, x2 as int));
            }
            if idx + 2 < frame.bgra.len() {
                let px = frame.bgra[idx] as u64 + frame.bgra[idx + 1] as u64 + frame.bgra[idx + 2] as u64;
                sum = sum + px;
            }
            x = x + 2;
        }
        proof {
            assert(sampled_row_sum(bgra, w, y as int, x as int, x2 as int) == 0);
        }
        y = y + 2;
    }
    proof {
        assert(sampled_sum(bgra, w, y as int, y2 as int, x1 as int, x2 as int) == 0);
    }
    Some(sum)
}

/// What one detected frame does to the result-event latch, given whether the latch was
/// set, whether the frame shows a result screen, and, where the detector holds a stable
/// play context, whether that context's rate reaches the valid minimum. Gives the new
/// latch and whether a play event is reported: a frame off the result screen clears the
/// latch; a result frame with a stable, valid context reports once and sets it.
pub open spec fn latch_step(emitted: bool, is_result: bool, stable_rate_valid: Option<bool>) -> (bool, bool) {
    let armed = is_result && emitted;
    match stable_rate_valid {
        Some(valid) => if is_result && !armed && valid {
            (true, true)
        } else {
            (armed, false)
        },
        None => (armed, false),
    }
}

/// How many play events a run of result-screen frames reports, from the latch `emitted`;
/// each frame gives its stable context's rate validity, or `None` without one.
pub open spec fn result_run_events(emitted: bool, frames: Seq<Option<bool>>) -> nat
    decreases frames.len(),
{
    if frames.len() == 0 {
        0
    } else {
        let (next, emit) = latch_step(emitted, true, frames[0]);
        (if emit { 1nat } else { 0nat }) + result_run_events(next, frames.drop_first())
    }
}

/// A result screen reports its play at most once, however many frames it stays up, and
/// not at all once the latch is set; only a frame off the result screen, or clearing the
/// latch, lets the next result screen report again.
pub proof fn lemma_one_event_per_result_screen(emitted: bool, frames: Seq<Option<bool>>)
    ensures
        result_run_events(emitted, frames) <= 1,
        emitted ==> result_run_events(emitted, frames) == 0,
    decreases frames.len(),
{
    if frames.len() > 0 {
        let next = latch_step(emitted, true, frames[0]).0;
        lemma_one_event_per_result_screen(next, frames.drop_first());
    }
}

/// Whether the play on the current result screen has been reported.
pub struct ResultEventLatch {
    emitted: bool,
}

impl ResultEventLatch {
    /// The latch is set: this result screen's play was reported.
    pub closed spec fn spec_emitted(&self) -> bool {
        self.emitted
    }

    /// A latch that nothing has set.
    pub fn new() -> (r: ResultEventLatch)
        ensures
            !r.spec_emitted(),
    {
        ResultEventLatch { emitted: false }
    }

    /// Whether the latch is set.
    pub fn is_emitted(&self) -> (r: bool)
        ensures
            r == self.spec_emitted(),
    {
        self.emitted
    }

    /// Takes one detected frame (see [`latch_step`]); returns whether it reports a play.
    pub fn observe(&mut self, is_result: bool, stable_rate_valid: Option<bool>) -> (emit: bool)
        ensures
            (final(self).spec_emitted(), emit) == latch_step(old(self).spec_emitted(), is_result, stable_rate_valid),
    {
        if !is_result {
            self.emitted = false;
        }
        match stable_rate_valid {
            Some(valid) => {
                if is_result && !self.emitted && valid {
                    self.emitted = true;
                    true
                } else {
                    false
                }
            },
            None => false,
        }
    }

    /// Clears the latch, as resetting the detector or dropping its cached result does.
    pub fn clear(&mut self)
        ensures
            !final(self).spec_emitted(),
    {
        self.emitted = false;
    }
}

} // verus!

