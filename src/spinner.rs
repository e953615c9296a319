use vstd::prelude::*;

use crate::ansi::{CLEAR_LINE, DIM, RESET};
use crate::text::push_char;

verus! {

/// The state of a spinner: its label, its frames, the frame shown, and the
/// shortest time between two frames.
pub struct SpinnerView {
    pub label: Seq<char>,
    pub frames: Seq<Seq<char>>,
    pub index: nat,
    pub min_interval_ms: nat,
}

/// A spinner that redraws one line in place. It holds no clock: the caller
/// reports how long it has been since the last frame was drawn.
pub struct Spinner {
    label: String,
    frames: Vec<&'static str>,
    idx: usize,
    min_interval_ms: u64,
}

/// The frames a spinner starts with.
pub open spec fn ascii_frames() -> Seq<Seq<char>> {
    seq![seq!['|'], seq!['/'], seq!['-'], seq!['\\']]
}

/// The frames of the block theme.
pub open spec fn block_frames() -> Seq<Seq<char>> {
    seq![seq!['▖'], seq!['▘'], seq!['▝'], seq!['▗']]
}

/// The views of a list of frames.
pub open spec fn frames_view(frames: Seq<&'static str>) -> Seq<Seq<char>> {
    frames.map_values(|f: &'static str| f@)
}

/// The line drawn for `frame`: back to the start of the line, clear it, then
/// the dim frame and the label.
pub open spec fn frame_line(frame: Seq<char>, label: Seq<char>) -> Seq<char> {
    seq!['\r'] + CLEAR_LINE@ + DIM@ + frame + seq![' '] + RESET@ + seq![' '] + label + RESET@
}

/// The closing line: back to the start of the line, clear it, the message and
/// a newline.
pub open spec fn finish_line(msg: Seq<char>) -> Seq<char> {
    seq!['\r'] + CLEAR_LINE@ + msg + seq!['\n']
}

impl View for Spinner {
    type V = SpinnerView;

    closed spec fn view(&self) -> SpinnerView {
        SpinnerView {
            label: self.label@,
            frames: frames_view(self.frames@),
            index: self.idx as nat,
            min_interval_ms: self.min_interval_ms as nat,
        }
    }
}

impl Spinner {
    /// At least one frame, and the frame shown is one of them.
    pub open spec fn wf(&self) -> bool {
        self@.frames.len() > 0 && self@.index < self@.frames.len()
    }

    /// A spinner on `label`, showing the first of the frames `| / - \`, with at
    /// least 80 ms between frames.
    pub fn new(label: &str) -> (r: Self)
        ensures
            r.wf(),
            r@.label == label@,
            r@.frames == ascii_frames(),
            r@.index == 0,
            r@.min_interval_ms == 80,
    {
        let mut frames: Vec<&'static str> = Vec::new();
        frames.push("|");
        frames.push("/");
        frames.push("-");
        frames.push("\\");
        let mut label_s = String::new();
        label_s.append(label);
        let r = Spinner { label: label_s, frames, idx: 0, min_interval_ms: 80 };
        proof {
            reveal_strlit("|");
            reveal_strlit("/");
            reveal_strlit("-");
            reveal_strlit("\\");
            assert(label_s@ =~= label@);
            assert(frames_view(frames@)[0] == ascii_frames()[0]);
            assert(frames_view(frames@)[1] == ascii_frames()[1]);
            assert(frames_view(frames@)[2] == ascii_frames()[2]);
            assert(frames_view(frames@)[3] == ascii_frames()[3]);
            assert(r@.frames =~= ascii_frames());
        }
        r
    }

    /// Replaces the frames and starts again from the first.
    pub fn set_frames(&mut self, new_frames: &'static [&'static str])
        requires
            new_frames@.len() > 0,
        ensures
            final(self).wf(),
            final(self)@ == (SpinnerView {
                frames: frames_view(new_frames@),
                index: 0,
                ..old(self)@
            }),
    {
        let mut frames: Vec<&'static str> = Vec::new();
        let mut i: usize = 0;
        while i < new_frames.len()
            invariant
                i <= new_frames@.len(),
                frames@ == new_frames@.take(i as int),
            decreases new_frames.len() - i,
        {
            frames.push(new_frames[i]);
            assert(frames@ =~= new_frames@.take(i + 1));
            i += 1;
        }
        assert(new_frames@.take(new_frames@.len() as int) =~= new_frames@);
        self.frames = frames;
        self.idx = 0;
    }

    /// Switches to the frames `▖ ▘ ▝ ▗`.
    pub fn use_block_theme(&mut self)
        ensures
            final(self).wf(),
            final(self)@ == (SpinnerView { frames: block_frames(), index: 0, ..old(self)@ }),
    {
        let frames: &'static [&'static str] = &["▖", "▘", "▝", "▗"];
        proof {
            reveal_strlit("▖");
            reveal_strlit("▘");
            reveal_strlit("▝");
            reveal_strlit("▗");
            assert(frames_view(frames@)[0] == block_frames()[0]);
            assert(frames_view(frames@)[1] == block_frames()[1]);
            assert(frames_view(frames@)[2] == block_frames()[2]);
            assert(frames_view(frames@)[3] == block_frames()[3]);
            assert(frames_view(frames@) =~= block_frames());
        }
        self.set_frames(frames);
    }

    /// Advances the spinner, given the time since the last frame was drawn.
    /// Before the minimum interval nothing changes and nothing is to be drawn;
    /// after it, the next frame (cyclically) is shown and its line returned.
    pub fn tick(&mut self, elapsed_ms: u64) -> (r: Option<String>)
        requires
            old(self).wf(),
        ensures
            final(self).wf(),
            elapsed_ms < old(self)@.min_interval_ms ==> r is None && final(self)@ == old(self)@,
            elapsed_ms >= old(self)@.min_interval_ms ==> final(self)@ == (SpinnerView {
                index: ((old(self)@.index + 1) % old(self)@.frames.len()) as nat,
                ..old(self)@
            }),
            elapsed_ms >= old(self)@.min_interval_ms ==> (r matches Some(line) && line@
                == frame_line(final(self)@.frames[final(self)@.index as int], final(self)@.label)),
    {
        if elapsed_ms < self.min_interval_ms {
            return None;
        }
        let n = self.frames.len();
        let ghost old_idx = self.idx as int;
        proof {
            if old_idx + 1 == n {
                assert((old_idx + 1) % (n as int) == 0) by (nonlinear_arith)
                    requires
                        old_idx + 1 == n,
                        n > 0,
                ;
            } else {
                assert((old_idx + 1) % (n as int) == old_idx + 1) by (nonlinear_arith)
                    requires
                        0 <= old_idx + 1 < n,
                ;
            }
        }
        self.idx = if self.idx + 1 == n {
            0
        } else {
            self.idx + 1
        };
        let frame = self.frames[self.idx];
        let mut out = String::new();
        push_char(&mut out, '\r');
        out.append(CLEAR_LINE);
        out.append(DIM);
        out.append(frame);
        push_char(&mut out, ' ');
        out.append(RESET);
        push_char(&mut out, ' ');
        out.append(self.label.as_str());
        out.append(RESET);
        assert(out@ =~= frame_line(self@.frames[self@.index as int], self@.label));
        Some(out)
    }

    /// The line that ends the spinner with `msg`.
    pub fn finish(&self, msg: &str) -> (r: String)
        ensures
            r@ == finish_line(msg@),
    {
        let mut out = String::new();
        push_char(&mut out, '\r');
        out.append(CLEAR_LINE);
        out.append(msg);
        push_char(&mut out, '\n');
        assert(out@ =~= finish_line(msg@));
        out
    }

    /// The frame shown now.
    pub fn current_frame(&self) -> (r: &'static str)
        requires
            self.wf(),
        ensures
            r@ == self@.frames[self@.index as int],
    {
        self.frames[self.idx]
    }

    /// The label.
    pub fn label(&self) -> (r: &str)
        ensures
            r@ == self@.label,
    {
        self.label.as_str()
    }
}

} // verus!
