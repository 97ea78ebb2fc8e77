use vstd::prelude::*;

use crate::assembler::{byte_of, ByteAssembler};
use crate::decode::{bits_view, color_step, left_strip, one_bit, right_strip, Decoder};
use crate::frame::{ColorSample, DecodeError, Frame};
use crate::sampler::is_region_estimate;
use crate::symbol::Symbol;

pub use crate::decode::TimedColorCodedOneBitDecoder;

verus! {

/// A decoder of camera frames.
pub trait VideoDecoder {
    /// The decoder's internal invariant.
    spec fn video_inv(&self) -> bool;

    /// Decodes one frame: `Ok(Some(bits))` when the frame yields bits,
    /// `Ok(None)` when it yields none.
    fn decode_video(&mut self, frame: &Frame) -> (r: Result<Option<Vec<bool>>, DecodeError>)
        requires
            old(self).video_inv(),
            frame.wf(),
        ensures
            final(self).video_inv(),
            r matches Ok(Some(bits)) ==> bits@.len() == 1,
    ;
}

impl VideoDecoder for TimedColorCodedOneBitDecoder {
    open spec fn video_inv(&self) -> bool {
        self.inv()
    }

    fn decode_video(&mut self, frame: &Frame) -> (r: Result<Option<Vec<bool>>, DecodeError>)
        ensures
            old(self).frame_step(final(self), frame, r),
    {
        self.decode_frame(frame)
    }
}

/// A decoder for a grid of cells, each carrying one bit per frame. It
/// recognises no layout yet and yields no bits.
pub struct GridDecoder {
    grid_height: usize,
    grid_width: usize,
}

impl GridDecoder {
    /// Rows of cells in the grid.
    pub closed spec fn rows(&self) -> nat {
        self.grid_height as nat
    }

    /// Columns of cells in the grid.
    pub closed spec fn columns(&self) -> nat {
        self.grid_width as nat
    }

    pub fn new(grid_height: usize, grid_width: usize) -> (r: GridDecoder)
        ensures
            r.rows() == grid_height,
            r.columns() == grid_width,
    {
        GridDecoder { grid_height, grid_width }
    }
}

impl VideoDecoder for GridDecoder {
    open spec fn video_inv(&self) -> bool {
        true
    }

    fn decode_video(&mut self, frame: &Frame) -> (r: Result<Option<Vec<bool>>, DecodeError>)
        ensures
            r == Ok::<Option<Vec<bool>>, DecodeError>(None),
    {
        Ok(None)
    }
}

/// The state of a receiving session: the colour-coded decoder's signal,
/// clock and symbol windows and clock level, and the pending bits.
pub type SessionState = (Seq<u8>, Seq<u8>, Seq<Symbol>, bool, Seq<bool>);

/// The state of a fresh session.
pub open spec fn initial_state() -> SessionState {
    (Seq::empty(), Seq::empty(), Seq::empty(), false, Seq::empty())
}

/// The pending bits and the completed byte after `bit`, if any, reaches an
/// assembler holding `pending`.
pub open spec fn assemble_step(pending: Seq<bool>, bit: Option<bool>) -> (Seq<bool>, Option<u8>) {
    match bit {
        None => (pending, None),
        Some(b) => if pending.len() + 1 == 8 {
            (Seq::empty(), Some(byte_of(pending.push(b)) as u8))
        } else {
            (pending.push(b), None)
        },
    }
}

/// One frame with signal-strip colour `left` and clock-strip colour `right`:
/// the next state and the byte completed, if any.
pub open spec fn session_step(st: SessionState, left: ColorSample, right: ColorSample) -> (
    SessionState,
    Option<u8>,
) {
    let x = color_step(st.0, st.1, st.2, st.3, left, right);
    let a = assemble_step(st.4, x.4);
    ((x.0, x.1, x.2, x.3, a.0), a.1)
}

/// The state and the bytes completed, in order, after the `(left, right)`
/// colours of `samples` reach a session in state `st`.
pub open spec fn session_run(st: SessionState, samples: Seq<(ColorSample, ColorSample)>) -> (
    SessionState,
    Seq<u8>,
)
    decreases samples.len(),
{
    if samples.len() == 0 {
        (st, Seq::empty())
    } else {
        let (mid, out) = session_run(st, samples.drop_last());
        let (next, byte) = session_step(mid, samples.last().0, samples.last().1);
        match byte {
            Some(b) => (next, out.push(b)),
            None => (next, out),
        }
    }
}

/// A receiving session over the colour-coded optical channel: frames in,
/// bytes out.
pub struct Receiver {
    decoder: TimedColorCodedOneBitDecoder,
    assembler: ByteAssembler,
}

impl Receiver {
    pub closed spec fn state(&self) -> SessionState {
        (
            self.decoder.signal_window(),
            self.decoder.clock_window(),
            self.decoder.symbol_window(),
            self.decoder.prev_clock(),
            self.assembler.pending(),
        )
    }

    pub closed spec fn wf(&self) -> bool {
        self.decoder.wf() && self.assembler.wf()
    }

    /// A fresh session: empty windows, clock low, nothing pending.
    pub fn new() -> (r: Receiver)
        ensures
            r.wf(),
            r.state() == initial_state(),
    {
        Receiver { decoder: TimedColorCodedOneBitDecoder::new(), assembler: ByteAssembler::new() }
    }

    /// How many bits are waiting for a byte to complete.
    pub fn pending_bits(&self) -> (r: usize)
        ensures
            r == self.state().4.len(),
    {
        self.assembler.pending_len()
    }

    fn assemble(&mut self, bit: Option<bool>) -> (r: Option<u8>)
        requires
            old(self).wf(),
        ensures
            final(self).wf(),
            final(self).decoder == old(self).decoder,
            (final(self).assembler.pending(), r) == assemble_step(
                old(self).assembler.pending(),
                bit,
            ),
    {
        match bit {
            Some(b) => self.assembler.push(b),
            None => None,
        }
    }

    /// Runs one frame's colour estimates through the session; returns the
    /// byte completed by it, if any.
    pub fn on_samples(&mut self, left: ColorSample, right: ColorSample) -> (r: Option<u8>)
        requires
            old(self).wf(),
        ensures
            final(self).wf(),
            (final(self).state(), r) == session_step(old(self).state(), left, right),
    {
        let bit = self.decoder.decode_samples(left, right);
        self.assemble(bit)
    }

    /// Samples and decodes one frame; returns the byte completed by it, if
    /// any. A frame too small for the strips is rejected and changes nothing.
    pub fn on_frame(&mut self, frame: &Frame) -> (r: Result<Option<u8>, DecodeError>)
        requires
            old(self).wf(),
            frame.wf(),
        ensures
            final(self).wf(),
            r is Ok <==> frame.spec_width() >= crate::decode::STRIP_WIDTH && frame.spec_height()
                >= 1,
            r is Err ==> r == Err::<Option<u8>, DecodeError>(DecodeError::InvalidRegion),
            r is Err ==> final(self).state() == old(self).state(),
            r matches Ok(byte) ==> exists|left: ColorSample, right: ColorSample|
                {
                    &&& is_region_estimate(
                        frame,
                        left_strip(frame.spec_width(), frame.spec_height()),
                        left,
                    )
                    &&& is_region_estimate(
                        frame,
                        right_strip(frame.spec_width(), frame.spec_height()),
                        right,
                    )
                    &&& (final(self).state(), byte) == #[trigger] session_step(
                        old(self).state(),
                        left,
                        right,
                    )
                },
    {
        let ghost before = *self;
        let bits = match self.decoder.decode_frame(frame) {
            Ok(bits) => bits,
            Err(e) => return Err(e),
        };
        let ghost (left, right, out) = choose|
            left: ColorSample,
            right: ColorSample,
            out: Option<bool>,
        |
            {
                &&& is_region_estimate(frame, left_strip(frame.spec_width(), frame.spec_height()), left)
                &&& is_region_estimate(frame, right_strip(frame.spec_width(), frame.spec_height()), right)
                &&& #[trigger] before.decoder.stepped(&self.decoder, left, right, out)
                &&& bits_view(bits) == one_bit(out)
            };
        let bit = match bits {
            Some(v) => Some(v[0]),
            None => None,
        };
        proof {
            assert(bit == out);
        }
        let byte = self.assemble(bit);
        proof {
            assert((self.state(), byte) == session_step(before.state(), left, right));
        }
        Ok(byte)
    }
}

/// Runs a fresh session over scripted `(left, right)` colour estimates and
/// returns the bytes it completes. The output is a function of the script
/// alone: the same script always gives the same bytes.
pub fn decode_scripted(samples: &Vec<(ColorSample, ColorSample)>) -> (r: Vec<u8>)
    ensures
        r@ == session_run(initial_state(), samples@).1,
{
    let mut rx = Receiver::new();
    let mut out: Vec<u8> = Vec::new();
    let mut i: usize = 0;
    while i < samples.len()
        invariant
            rx.wf(),
            0 <= i <= samples@.len(),
            (rx.state(), out@) == session_run(initial_state(), samples@.subrange(0, i as int)),
        decreases samples@.len() - i,
    {
        proof {
            assert(samples@.subrange(0, i + 1).drop_last() =~= samples@.subrange(0, i as int));
        }
        let (left, right) = samples[i];
        match rx.on_samples(left, right) {
            Some(b) => out.push(b),
            None => {},
        }
        i = i + 1;
    }
    proof {
        assert(samples@.subrange(0, samples@.len() as int) =~= samples@);
    }
    out
}

} // verus!
