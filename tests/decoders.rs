use fil::channel::{ChannelError, Direction, Method};
use fil::decode::{Decoder, GreedyOneBitDecoder, TimedColorCodedOneBitDecoder, TimedOneBitDecoder};
use fil::frame::{ColorSample, DecodeError, Frame, Region};
use fil::in_::audio;
use fil::in_::term::{decode_scripted, GridDecoder, Receiver, VideoDecoder};
use fil::sampler::{avg_color, mean_color, sample_color};

const BLACK: ColorSample = ColorSample { r: 0, g: 0, b: 0 };
const WHITE: ColorSample = ColorSample { r: 255, g: 255, b: 255 };
const RED: ColorSample = ColorSample { r: 200, g: 0, b: 0 };
const GREEN: ColorSample = ColorSample { r: 0, g: 200, b: 0 };

fn uniform(width: usize, height: usize, c: ColorSample) -> Frame {
    Frame::new(width, height, vec![c; width * height]).unwrap()
}

/// A frame whose columns left of `split` are `left` and the rest `right`.
fn split_frame(width: usize, height: usize, split: usize, left: ColorSample, right: ColorSample) -> Frame {
    let mut pixels = Vec::new();
    for _y in 0..height {
        for x in 0..width {
            pixels.push(if x < split { left } else { right });
        }
    }
    Frame::new(width, height, pixels).unwrap()
}

/// A frame whose rows above `split` are `top` and the rest `bottom`.
fn stacked_frame(width: usize, height: usize, split: usize, top: ColorSample, bottom: ColorSample) -> Frame {
    let mut pixels = Vec::new();
    for y in 0..height {
        for _x in 0..width {
            pixels.push(if y < split { top } else { bottom });
        }
    }
    Frame::new(width, height, pixels).unwrap()
}

#[test]
fn frame_rejects_wrong_pixel_count() {
    assert!(Frame::new(2, 2, vec![BLACK; 3]).is_none());
    assert!(Frame::new(usize::MAX, 2, vec![BLACK; 3]).is_none());
    let f = Frame::new(2, 1, vec![BLACK, WHITE]).unwrap();
    assert_eq!(f.width(), 2);
    assert_eq!(f.height(), 1);
    assert_eq!(f.pixel(1, 0), WHITE);
}

#[test]
fn mean_color_of_points() {
    let f = Frame::new(3, 1, vec![BLACK, WHITE, RED]).unwrap();
    let c = mean_color(&f, &vec![(0, 0), (1, 0), (2, 0)]).unwrap();
    assert_eq!(c, ColorSample { r: 151, g: 85, b: 85 });
    assert_eq!(mean_color(&f, &vec![(1, 0), (1, 0)]), Ok(WHITE));
}

#[test]
fn mean_color_rejects_empty_or_outside() {
    let f = uniform(3, 1, WHITE);
    assert_eq!(mean_color(&f, &vec![]), Err(DecodeError::InvalidRegion));
    assert_eq!(mean_color(&f, &vec![(0, 0), (3, 0)]), Err(DecodeError::InvalidRegion));
    assert_eq!(mean_color(&f, &vec![(0, 1)]), Err(DecodeError::InvalidRegion));
}

#[test]
fn sample_color_of_uniform_region() {
    let f = uniform(10, 10, GREEN);
    let region = Region { x_min: 2, x_max: 5, y_min: 0, y_max: 10 };
    assert_eq!(sample_color(&f, &region), Ok(GREEN));
}

#[test]
fn sample_color_draws_across_the_region() {
    let f = split_frame(2, 1, 1, BLACK, WHITE);
    let region = Region { x_min: 0, x_max: 2, y_min: 0, y_max: 1 };
    let c = sample_color(&f, &region).unwrap();
    assert!(c.r > 50 && c.r < 200, "{:?}", c);
    assert_eq!(c.r, c.g);
    assert_eq!(c.g, c.b);
}

#[test]
fn sample_color_stays_inside_region() {
    let f = split_frame(10, 4, 5, BLACK, WHITE);
    let region = Region { x_min: 5, x_max: 10, y_min: 1, y_max: 3 };
    assert_eq!(sample_color(&f, &region), Ok(WHITE));
}

#[test]
fn sample_color_rejects_bad_regions() {
    let f = uniform(10, 10, WHITE);
    let empty = Region { x_min: 3, x_max: 3, y_min: 0, y_max: 10 };
    let wide = Region { x_min: 0, x_max: 11, y_min: 0, y_max: 10 };
    let tall = Region { x_min: 0, x_max: 10, y_min: 5, y_max: 11 };
    assert_eq!(sample_color(&f, &empty), Err(DecodeError::InvalidRegion));
    assert_eq!(sample_color(&f, &wide), Err(DecodeError::InvalidRegion));
    assert_eq!(sample_color(&f, &tall), Err(DecodeError::InvalidRegion));
}

#[test]
fn avg_color_truncates() {
    assert_eq!(avg_color(&ColorSample { r: 1, g: 1, b: 2 }), 1);
    assert_eq!(avg_color(&WHITE), 255);
    assert_eq!(avg_color(&RED), 66);
}

#[test]
fn greedy_decoder_thresholds_luma() {
    let mut d = GreedyOneBitDecoder::new();
    assert_eq!(d.decode(&uniform(4, 4, WHITE)), Ok(Some(vec![true])));
    assert_eq!(d.decode(&uniform(4, 4, RED)), Ok(Some(vec![false])));
    assert_eq!(d.decode(&uniform(0, 4, WHITE)), Err(DecodeError::InvalidRegion));
}

#[test]
fn color_coded_decoder_rejects_narrow_frames() {
    let mut d = TimedColorCodedOneBitDecoder::new();
    assert_eq!(d.decode(&uniform(99, 10, WHITE)), Err(DecodeError::InvalidRegion));
    assert_eq!(d.decode(&uniform(100, 0, WHITE)), Err(DecodeError::InvalidRegion));
}

#[test]
fn color_coded_decoder_latches_on_clock_edges() {
    let mut d = TimedColorCodedOneBitDecoder::new();
    let both = split_frame(200, 4, 100, GREEN, RED);
    let clock_only = split_frame(200, 4, 100, BLACK, RED);
    let dark = uniform(200, 4, BLACK);
    assert_eq!(d.decode(&both), Ok(Some(vec![true])));
    assert_eq!(d.decode(&both), Ok(None));
    assert_eq!(d.decode(&clock_only), Ok(None));
    assert_eq!(d.decode(&dark), Ok(None));
    assert_eq!(d.decode(&dark), Ok(Some(vec![false])));
    assert_eq!(d.decode(&dark), Ok(None));
}

#[test]
fn color_coded_samples_path() {
    let mut d = TimedColorCodedOneBitDecoder::new();
    assert_eq!(d.decode_samples(GREEN, RED), Some(true));
    assert_eq!(d.decode_samples(GREEN, RED), None);
}

#[test]
fn luma_decoder_reads_halves() {
    let mut d = TimedOneBitDecoder::new();
    assert_eq!(d.decode(&uniform(4, 4, WHITE)), Ok(Some(vec![true])));
    assert_eq!(d.decode(&uniform(4, 4, WHITE)), Ok(None));
    assert_eq!(d.decode(&uniform(4, 1, WHITE)), Err(DecodeError::InvalidRegion));
}

#[test]
fn luma_decoder_bottom_brighter_is_clock() {
    let mut d = TimedOneBitDecoder::new();
    let bottom_lit = stacked_frame(4, 4, 2, ColorSample { r: 150, g: 150, b: 150 }, WHITE);
    assert_eq!(d.decode(&bottom_lit), Ok(Some(vec![false])));
}

#[test]
fn luma_decoder_smooths_before_classifying() {
    let mut d = TimedOneBitDecoder::new();
    assert_eq!(d.decode_samples(255, 255), Some(true));
    assert_eq!(d.decode_samples(255, 255), None);
    assert_eq!(d.decode_samples(255, 255), None);
    assert_eq!(d.decode_samples(0, 0), None);
    assert_eq!(d.decode_samples(0, 0), Some(false));
}

#[test]
fn grid_decoder_yields_nothing() {
    let mut g = GridDecoder::new(4, 4);
    assert_eq!(g.decode_video(&uniform(8, 8, WHITE)), Ok(None));
}

#[test]
fn video_decoder_delegates() {
    let mut d = TimedColorCodedOneBitDecoder::new();
    let both = split_frame(200, 4, 100, GREEN, RED);
    assert_eq!(d.decode_video(&both), Ok(Some(vec![true])));
}

/// Symbol colours: (signal strip, clock strip).
fn symbol_colors(signal: bool, clock: bool) -> (ColorSample, ColorSample) {
    (if signal { GREEN } else { BLACK }, if clock { RED } else { BLACK })
}

/// A script that sends `byte`, first bit first, holding each symbol for `hold` frames.
fn script_for(byte: u8, hold: usize) -> Vec<(ColorSample, ColorSample)> {
    let mut script = Vec::new();
    for i in 0..8 {
        let bit = (byte >> (7 - i)) & 1 == 1;
        let clock = i % 2 == 0;
        for _ in 0..hold {
            script.push(symbol_colors(bit, clock));
        }
    }
    script
}

#[test]
fn scripted_pipeline_recovers_byte() {
    let script = script_for(0x41, 5);
    assert_eq!(decode_scripted(&script), vec![0x41]);
}

#[test]
fn scripted_pipeline_is_deterministic() {
    let mut script = script_for(b'h', 5);
    script.extend(script_for(b'i', 6));
    let first = decode_scripted(&script);
    let second = decode_scripted(&script);
    assert_eq!(first, vec![b'h', b'i']);
    assert_eq!(first, second);
}

#[test]
fn scripted_pipeline_ignores_single_frame_glitches() {
    let mut script = script_for(0x5a, 5);
    script[7] = symbol_colors(true, true);
    assert_eq!(decode_scripted(&script), vec![0x5a]);
}

#[test]
fn receiver_emits_byte_on_eighth_bit() {
    let mut rx = Receiver::new();
    let script = script_for(0xc3, 5);
    let mut out = Vec::new();
    for (i, &(left, right)) in script.iter().enumerate() {
        if let Some(b) = rx.on_samples(left, right) {
            out.push((i, b));
        }
    }
    assert_eq!(out, vec![(37, 0xc3)]);
    assert_eq!(rx.pending_bits(), 0);
}

#[test]
fn receiver_rejects_small_frame_without_change() {
    let mut rx = Receiver::new();
    assert_eq!(rx.on_frame(&uniform(50, 50, WHITE)), Err(DecodeError::InvalidRegion));
    assert_eq!(rx.pending_bits(), 0);
    let both = split_frame(200, 4, 100, GREEN, RED);
    assert_eq!(rx.on_frame(&both), Ok(None));
    assert_eq!(rx.pending_bits(), 1);
}

#[test]
fn direction_words() {
    assert_eq!(Direction::from_str("ex"), Some(Direction::Exfiltrate));
    assert_eq!(Direction::from_str("in"), Some(Direction::Infiltrate));
    assert_eq!(Direction::from_str("out"), None);
    assert_eq!(Direction::from_str(""), None);
    assert_eq!(Direction::Exfiltrate.gerund(), "Exfiltrating");
    assert_eq!(Direction::Infiltrate.gerund(), "Infiltrating");
}

#[test]
fn method_words() {
    assert_eq!(Method::from_str("audio"), Some(Method::Audio));
    assert_eq!(Method::from_str("term"), Some(Method::TermOutVideoIn));
    assert_eq!(Method::from_str("terminal"), None);
    assert_eq!(Method::Audio.description(), "audio");
    assert_eq!(Method::TermOutVideoIn.description(), "terminal output with video input");
    assert_eq!(Method::TermOutVideoIn.encode(), Err(ChannelError::Unsupported));
}

#[test]
fn audio_channel_hands_out_nothing() {
    let seen = std::cell::Cell::new(0);
    audio::decode(|_bytes: Option<&Vec<u8>>| seen.set(seen.get() + 1));
    assert_eq!(seen.get(), 0);
}
