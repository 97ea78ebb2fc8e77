use vstd::prelude::*;

use crate::edge::{edge_output, ClockEdge};
use crate::frame::{ColorSample, DecodeError, Frame, Region};
use crate::sampler::{avg_color, is_region_estimate, sample_color};
use crate::symbol::{
    amplitude_symbol, classify_amplitude, classify_top_bottom, luma_symbol, Symbol, BIT_THRESHOLD,
};
use crate::util::{mode, seq_sum, slide, MostFrequent, MovingAvg};

verus! {

/// Width in pixels of the signal strip (left edge) and the clock strip (right
/// edge) that the colour-coded decoder watches.
pub const STRIP_WIDTH: usize = 100;

/// Smoothing window of the colour-coded decoder.
pub const COLOR_SMOOTHING: usize = 1;

/// Debouncing window of the colour-coded decoder.
pub const COLOR_DEBOUNCE: usize = 5;

/// Smoothing window of the top/bottom luma decoder.
pub const LUMA_SMOOTHING: usize = 3;

/// Debouncing window of the top/bottom luma decoder.
pub const LUMA_DEBOUNCE: usize = 3;

/// Turns frames into bits, at most one per frame.
pub trait Decoder {
    /// The decoder's internal invariant.
    spec fn inv(&self) -> bool;

    /// Decodes one frame: `Ok(Some(bits))` when the frame yields bits,
    /// `Ok(None)` when it yields none, `Err` when the frame is too small for
    /// the regions the decoder watches.
    fn decode(&mut self, frame: &Frame) -> (r: Result<Option<Vec<bool>>, DecodeError>)
        requires
            old(self).inv(),
            frame.wf(),
        ensures
            final(self).inv(),
            r matches Ok(Some(bits)) ==> bits@.len() == 1,
            r is Err ==> r == Err::<Option<Vec<bool>>, DecodeError>(DecodeError::InvalidRegion),
    ;
}

/// The bits of a decode result, as a sequence.
pub open spec fn bits_view(o: Option<Vec<bool>>) -> Option<Seq<bool>> {
    match o {
        Some(v) => Some(v@),
        None => None,
    }
}

/// A single emitted bit as a one-element sequence.
pub open spec fn one_bit(out: Option<bool>) -> Option<Seq<bool>> {
    match out {
        Some(b) => Some(seq![b]),
        None => None,
    }
}

fn wrap_bit(out: Option<bool>) -> (r: Option<Vec<bool>>)
    ensures
        bits_view(r) == one_bit(out),
{
    match out {
        Some(b) => Some(vec![b]),
        None => None,
    }
}

// ---------------------------------------------------------------------------
// Whole-frame brightness

/// The frame as a whole.
pub open spec fn whole_region(width: nat, height: nat) -> Region {
    Region { x_min: 0, x_max: width as usize, y_min: 0, y_max: height as usize }
}

/// One bit per frame: whether the frame's average luma exceeds the threshold.
pub struct GreedyOneBitDecoder {}

/// The bit for a whole-frame colour estimate.
pub open spec fn greedy_bit(c: ColorSample) -> bool {
    (c.r + c.g + c.b) / 3 > BIT_THRESHOLD
}

impl GreedyOneBitDecoder {
    pub fn new() -> (r: GreedyOneBitDecoder) {
        GreedyOneBitDecoder {  }
    }
}

impl Decoder for GreedyOneBitDecoder {
    open spec fn inv(&self) -> bool {
        true
    }

    fn decode(&mut self, frame: &Frame) -> (r: Result<Option<Vec<bool>>, DecodeError>)
        ensures
            r is Ok <==> frame.spec_width() >= 1 && frame.spec_height() >= 1,
            r matches Ok(o) ==> exists|c: ColorSample|
                {
                    &&& is_region_estimate(
                        frame,
                        whole_region(frame.spec_width(), frame.spec_height()),
                        c,
                    )
                    &&& bits_view(o) == Some(seq![#[trigger] greedy_bit(c)])
                },
    {
        let region = Region { x_min: 0, x_max: frame.width(), y_min: 0, y_max: frame.height() };
        match sample_color(frame, &region) {
            Ok(c) => {
                let bit = avg_color(&c) > BIT_THRESHOLD;
                let v = vec![bit];
                proof {
                    assert(v@ =~= seq![greedy_bit(c)]);
                }
                Ok(Some(v))
            },
            Err(e) => Err(e),
        }
    }
}

// ---------------------------------------------------------------------------
// Colour-coded signal and clock strips

/// The signal strip: the leftmost `STRIP_WIDTH` columns.
pub open spec fn left_strip(width: nat, height: nat) -> Region {
    Region { x_min: 0, x_max: STRIP_WIDTH, y_min: 0, y_max: height as usize }
}

/// The clock strip: the rightmost `STRIP_WIDTH` columns.
pub open spec fn right_strip(width: nat, height: nat) -> Region {
    Region {
        x_min: (width - STRIP_WIDTH) as usize,
        x_max: width as usize,
        y_min: 0,
        y_max: height as usize,
    }
}

/// One frame of the colour-coded decoder from signal window `g`, clock window
/// `r`, symbol window `syms` and clock level `prev`, given the signal strip's
/// colour `left` and the clock strip's colour `right`: the new windows, the new
/// clock level, and the bit emitted.
pub open spec fn color_step(
    g: Seq<u8>,
    r: Seq<u8>,
    syms: Seq<Symbol>,
    prev: bool,
    left: ColorSample,
    right: ColorSample,
) -> (Seq<u8>, Seq<u8>, Seq<Symbol>, bool, Option<bool>) {
    let g2 = slide(g, left.g, COLOR_SMOOTHING as nat);
    let r2 = slide(r, right.r, COLOR_SMOOTHING as nat);
    let sym = amplitude_symbol(seq_sum(r2), r2.len(), seq_sum(g2), g2.len());
    let syms2 = slide(syms, sym, COLOR_DEBOUNCE as nat);
    let d = mode(syms2);
    (g2, r2, syms2, d.clock(), edge_output(prev, d.signal(), d.clock()))
}

/// The decoder for a sender that lights the signal strip green and the clock
/// strip red: it smooths the signal strip's green and the clock strip's red,
/// classifies them into a symbol, debounces the symbol, and latches a bit on
/// each change of the debounced clock.
pub struct TimedColorCodedOneBitDecoder {
    edge: ClockEdge,
    left_g_avg: MovingAvg,
    right_r_avg: MovingAvg,
    most_freq_desc: MostFrequent<Symbol>,
}

impl TimedColorCodedOneBitDecoder {
    /// Green values of the signal strip held by the smoother.
    pub closed spec fn signal_window(&self) -> Seq<u8> {
        self.left_g_avg.window()
    }

    /// Red values of the clock strip held by the smoother.
    pub closed spec fn clock_window(&self) -> Seq<u8> {
        self.right_r_avg.window()
    }

    /// Raw symbols held by the debouncer.
    pub closed spec fn symbol_window(&self) -> Seq<Symbol> {
        self.most_freq_desc.window()
    }

    /// The debounced clock level of the previous frame.
    pub closed spec fn prev_clock(&self) -> bool {
        self.edge.prev()
    }

    pub closed spec fn wf(&self) -> bool {
        &&& self.left_g_avg.wf()
        &&& self.left_g_avg.spec_length() == COLOR_SMOOTHING
        &&& self.right_r_avg.wf()
        &&& self.right_r_avg.spec_length() == COLOR_SMOOTHING
        &&& self.most_freq_desc.wf()
        &&& self.most_freq_desc.spec_length() == COLOR_DEBOUNCE
    }

    /// One frame with signal-strip colour `left` and clock-strip colour
    /// `right` takes the decoder from `self` to `next` and emits `out`.
    pub open spec fn stepped(
        &self,
        next: &Self,
        left: ColorSample,
        right: ColorSample,
        out: Option<bool>,
    ) -> bool {
        let x = color_step(
            self.signal_window(),
            self.clock_window(),
            self.symbol_window(),
            self.prev_clock(),
            left,
            right,
        );
        &&& next.signal_window() == x.0
        &&& next.clock_window() == x.1
        &&& next.symbol_window() == x.2
        &&& next.prev_clock() == x.3
        &&& out == x.4
    }

    /// A fresh decoder: empty windows, clock low.
    pub fn new() -> (r: TimedColorCodedOneBitDecoder)
        ensures
            r.wf(),
            r.signal_window() == Seq::<u8>::empty(),
            r.clock_window() == Seq::<u8>::empty(),
            r.symbol_window() == Seq::<Symbol>::empty(),
            r.prev_clock() == false,
    {
        TimedColorCodedOneBitDecoder {
            edge: ClockEdge::new(),
            left_g_avg: MovingAvg::new(COLOR_SMOOTHING),
            right_r_avg: MovingAvg::new(COLOR_SMOOTHING),
            most_freq_desc: MostFrequent::new(COLOR_DEBOUNCE),
        }
    }

    /// Runs one frame's colour estimates through the pipeline; returns the
    /// bit latched on a clock change.
    pub fn decode_samples(&mut self, left: ColorSample, right: ColorSample) -> (r: Option<bool>)
        requires
            old(self).wf(),
        ensures
            final(self).wf(),
            old(self).stepped(final(self), left, right, r),
    {
        let g_avg = self.left_g_avg.push(left.g);
        let r_avg = self.right_r_avg.push(right.r);
        let desc = classify_amplitude(&r_avg, &g_avg);
        let desc = self.most_freq_desc.push(desc);
        let (signal, clock) = desc.components();
        self.edge.push(signal, clock)
    }

    /// Decoding `frame` took the decoder from `self` to `next` with result `r`:
    /// a frame narrower than the strips, or with no rows, is rejected and
    /// changes nothing; otherwise each strip's colour is estimated and the
    /// pair is run through the pipeline.
    pub open spec fn frame_step(
        &self,
        next: &Self,
        frame: &Frame,
        r: Result<Option<Vec<bool>>, DecodeError>,
    ) -> bool {
        &&& (r is Ok <==> frame.spec_width() >= STRIP_WIDTH && frame.spec_height() >= 1)
        &&& (r is Err ==> *next == *self && r == Err::<Option<Vec<bool>>, DecodeError>(
            DecodeError::InvalidRegion,
        ))
        &&& (r matches Ok(o) ==> exists|left: ColorSample, right: ColorSample, out: Option<bool>|
            {
                &&& is_region_estimate(
                    frame,
                    left_strip(frame.spec_width(), frame.spec_height()),
                    left,
                )
                &&& is_region_estimate(
                    frame,
                    right_strip(frame.spec_width(), frame.spec_height()),
                    right,
                )
                &&& #[trigger] self.stepped(next, left, right, out)
                &&& bits_view(o) == one_bit(out)
            })
    }

    /// Samples the two strips of `frame` and runs them through the pipeline.
    pub fn decode_frame(&mut self, frame: &Frame) -> (r: Result<Option<Vec<bool>>, DecodeError>)
        requires
            old(self).wf(),
            frame.wf(),
        ensures
            final(self).wf(),
            r matches Ok(Some(bits)) ==> bits@.len() == 1,
            old(self).frame_step(final(self), frame, r),
    {
        let width = frame.width();
        let height = frame.height();
        if width < STRIP_WIDTH {
            return Err(DecodeError::InvalidRegion);
        }
        let left_region = Region { x_min: 0, x_max: STRIP_WIDTH, y_min: 0, y_max: height };
        let right_region = Region {
            x_min: width - STRIP_WIDTH,
            x_max: width,
            y_min: 0,
            y_max: height,
        };
        let left = match sample_color(frame, &left_region) {
            Ok(c) => c,
            Err(e) => return Err(e),
        };
        let right = match sample_color(frame, &right_region) {
            Ok(c) => c,
            Err(e) => return Err(e),
        };
        let out = self.decode_samples(left, right);
        Ok(wrap_bit(out))
    }
}

impl Decoder for TimedColorCodedOneBitDecoder {
    open spec fn inv(&self) -> bool {
        self.wf()
    }

    fn decode(&mut self, frame: &Frame) -> (r: Result<Option<Vec<bool>>, DecodeError>)
        ensures
            old(self).frame_step(final(self), frame, r),
    {
        self.decode_frame(frame)
    }
}

// ---------------------------------------------------------------------------
// Top and bottom halves by luma

/// The signal half: the top rows.
pub open spec fn top_half(width: nat, height: nat) -> Region {
    Region { x_min: 0, x_max: width as usize, y_min: 0, y_max: (height / 2) as usize }
}

/// The clock half: the bottom rows.
pub open spec fn bottom_half(width: nat, height: nat) -> Region {
    Region {
        x_min: 0,
        x_max: width as usize,
        y_min: (height / 2) as usize,
        y_max: height as usize,
    }
}

/// The truncated mean of a window of lumas.
pub open spec fn window_level(w: Seq<u8>) -> u8 {
    (seq_sum(w) / w.len()) as u8
}

/// The luma of a colour estimate.
pub open spec fn luma(c: ColorSample) -> u8 {
    ((c.r + c.g + c.b) / 3) as u8
}

/// The decoder for a sender that lights the top half of the screen for the
/// signal and the bottom half for the clock: it smooths each half's luma,
/// classifies the pair, debounces the symbol, and latches a bit on each
/// change of the debounced clock.
pub struct TimedOneBitDecoder {
    edge: ClockEdge,
    signal_color_moving_avg: MovingAvg,
    clock_color_moving_avg: MovingAvg,
    most_freq_desc: MostFrequent<Symbol>,
}

impl TimedOneBitDecoder {
    /// Lumas of the top half held by the smoother.
    pub closed spec fn signal_window(&self) -> Seq<u8> {
        self.signal_color_moving_avg.window()
    }

    /// Lumas of the bottom half held by the smoother.
    pub closed spec fn clock_window(&self) -> Seq<u8> {
        self.clock_color_moving_avg.window()
    }

    /// Raw symbols held by the debouncer.
    pub closed spec fn symbol_window(&self) -> Seq<Symbol> {
        self.most_freq_desc.window()
    }

    /// The debounced clock level of the previous frame.
    pub closed spec fn prev_clock(&self) -> bool {
        self.edge.prev()
    }

    pub closed spec fn wf(&self) -> bool {
        &&& self.signal_color_moving_avg.wf()
        &&& self.signal_color_moving_avg.spec_length() == LUMA_SMOOTHING
        &&& self.clock_color_moving_avg.wf()
        &&& self.clock_color_moving_avg.spec_length() == LUMA_SMOOTHING
        &&& self.most_freq_desc.wf()
        &&& self.most_freq_desc.spec_length() == LUMA_DEBOUNCE
    }

    /// One frame with top luma `top` and bottom luma `bottom` takes the
    /// decoder from `self` to `next` and emits `out`.
    pub open spec fn stepped(&self, next: &Self, top: u8, bottom: u8, out: Option<bool>) -> bool {
        let s = slide(self.signal_window(), top, LUMA_SMOOTHING as nat);
        let c = slide(self.clock_window(), bottom, LUMA_SMOOTHING as nat);
        let sym = luma_symbol(window_level(s), window_level(c));
        let syms = slide(self.symbol_window(), sym, LUMA_DEBOUNCE as nat);
        let d = mode(syms);
        &&& next.signal_window() == s
        &&& next.clock_window() == c
        &&& next.symbol_window() == syms
        &&& next.prev_clock() == d.clock()
        &&& out == edge_output(self.prev_clock(), d.signal(), d.clock())
    }

    /// A fresh decoder: empty windows, clock low.
    pub fn new() -> (r: TimedOneBitDecoder)
        ensures
            r.wf(),
            r.signal_window() == Seq::<u8>::empty(),
            r.clock_window() == Seq::<u8>::empty(),
            r.symbol_window() == Seq::<Symbol>::empty(),
            r.prev_clock() == false,
    {
        TimedOneBitDecoder {
            edge: ClockEdge::new(),
            signal_color_moving_avg: MovingAvg::new(LUMA_SMOOTHING),
            clock_color_moving_avg: MovingAvg::new(LUMA_SMOOTHING),
            most_freq_desc: MostFrequent::new(LUMA_DEBOUNCE),
        }
    }

    /// Runs one frame's lumas through the pipeline; returns the bit latched
    /// on a clock change.
    pub fn decode_samples(&mut self, top: u8, bottom: u8) -> (r: Option<bool>)
        requires
            old(self).wf(),
        ensures
            final(self).wf(),
            old(self).stepped(final(self), top, bottom, r),
    {
        let signal_level = self.signal_color_moving_avg.push(top).truncated();
        let clock_level = self.clock_color_moving_avg.push(bottom).truncated();
        let desc = classify_top_bottom(signal_level, clock_level);
        let desc = self.most_freq_desc.push(desc);
        let (signal, clock) = desc.components();
        self.edge.push(signal, clock)
    }
}

impl Decoder for TimedOneBitDecoder {
    open spec fn inv(&self) -> bool {
        self.wf()
    }

    fn decode(&mut self, frame: &Frame) -> (r: Result<Option<Vec<bool>>, DecodeError>)
        ensures
            r is Ok <==> frame.spec_width() >= 1 && frame.spec_height() >= 2,
            r is Err ==> *final(self) == *old(self),
            r matches Ok(o) ==> exists|top: ColorSample, bottom: ColorSample, out: Option<bool>|
                {
                    &&& is_region_estimate(
                        frame,
                        top_half(frame.spec_width(), frame.spec_height()),
                        top,
                    )
                    &&& is_region_estimate(
                        frame,
                        bottom_half(frame.spec_width(), frame.spec_height()),
                        bottom,
                    )
                    &&& #[trigger] old(self).stepped(final(self), luma(top), luma(bottom), out)
                    &&& bits_view(o) == one_bit(out)
                },
    {
        let width = frame.width();
        let height = frame.height();
        let top_region = Region { x_min: 0, x_max: width, y_min: 0, y_max: height / 2 };
        let bottom_region = Region { x_min: 0, x_max: width, y_min: height / 2, y_max: height };
        let top = match sample_color(frame, &top_region) {
            Ok(c) => c,
            Err(e) => return Err(e),
        };
        let bottom = match sample_color(frame, &bottom_region) {
            Ok(c) => c,
            Err(e) => return Err(e),
        };
        let top_luma = avg_color(&top);
        let bottom_luma = avg_color(&bottom);
        proof {
            assert(top_luma == luma(top));
            assert(bottom_luma == luma(bottom));
        }
        let out = self.decode_samples(top_luma, bottom_luma);
        Ok(wrap_bit(out))
    }
}

} // verus!
