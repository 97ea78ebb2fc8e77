use vstd::prelude::*;

use crate::frame::{ColorSample, DecodeError, Frame, Region};

verus! {

/// How many random pixels the region sampler averages.
pub const SAMPLES: usize = 1000;

/// Relies on rand's `Range::new` and `IndependentSample::ind_sample` over
/// `thread_rng`: for `low < high` the value drawn lies in `[low, high)`.
/// Nothing is promised about which value comes out. (`Range::new` panics when
/// `low >= high`, which `requires` rules out; `thread_rng` panics only when the
/// system offers no entropy at all.)
#[verifier::external_body]
fn draw_between(low: usize, high: usize) -> (r: usize)
    requires
        low < high,
    ensures
        low <= r < high,
{
    rand::distributions::IndependentSample::ind_sample(
        &rand::distributions::Range::new(low, high),
        &mut rand::thread_rng(),
    )
}

/// The colours of `frame` at the given `(x, y)` points, in order.
pub open spec fn colors_at(frame: &Frame, points: Seq<(usize, usize)>) -> Seq<ColorSample> {
    points.map_values(|p: (usize, usize)| frame.pixel_spec(p.0 as int, p.1 as int))
}

/// Sum over `s` of the channel that `ch` picks.
pub open spec fn channel_sum(s: Seq<ColorSample>, ch: spec_fn(ColorSample) -> u8) -> nat
    decreases s.len(),
{
    if s.len() == 0 {
        0
    } else {
        channel_sum(s.drop_last(), ch) + ch(s.last()) as nat
    }
}

pub open spec fn red(c: ColorSample) -> u8 {
    c.r
}

pub open spec fn green(c: ColorSample) -> u8 {
    c.g
}

pub open spec fn blue(c: ColorSample) -> u8 {
    c.b
}

/// The per-channel mean of `s`, each truncated to an integer.
pub open spec fn mean_of(s: Seq<ColorSample>) -> ColorSample {
    ColorSample {
        r: (channel_sum(s, |c: ColorSample| red(c)) / s.len()) as u8,
        g: (channel_sum(s, |c: ColorSample| green(c)) / s.len()) as u8,
        b: (channel_sum(s, |c: ColorSample| blue(c)) / s.len()) as u8,
    }
}

pub open spec fn in_frame(frame: &Frame, p: (usize, usize)) -> bool {
    p.0 < frame.spec_width() && p.1 < frame.spec_height()
}

proof fn lemma_mean_fits(total: nat, n: nat)
    requires
        n > 0,
        total <= 255 * n,
    ensures
        total / n <= 255,
{
    assert(total / n <= 255) by (nonlinear_arith)
        requires
            n > 0,
            total <= 255 * n,
    ;
}

/// The truncated per-channel mean of the pixels of `frame` at `points`.
/// Fails with `InvalidRegion` when there are no points or one lies outside the frame.
pub fn mean_color(frame: &Frame, points: &Vec<(usize, usize)>) -> (r: Result<ColorSample, DecodeError>)
    requires
        frame.wf(),
    ensures
        r is Ok <==> (points@.len() > 0 && forall|i: int|
            0 <= i < points@.len() ==> in_frame(frame, #[trigger] points@[i])),
        r is Err ==> r == Err::<ColorSample, DecodeError>(DecodeError::InvalidRegion),
        r matches Ok(c) ==> c == mean_of(colors_at(frame, points@)),
{
    let n = points.len();
    if n == 0 {
        return Err(DecodeError::InvalidRegion);
    }
    let mut tr: u128 = 0;
    let mut tg: u128 = 0;
    let mut tb: u128 = 0;
    let mut i: usize = 0;
    while i < n
        invariant
            frame.wf(),
            n == points@.len(),
            0 <= i <= n,
            forall|j: int| 0 <= j < i ==> in_frame(frame, #[trigger] points@[j]),
            tr == channel_sum(colors_at(frame, points@.subrange(0, i as int)), |c: ColorSample| red(c)),
            tg == channel_sum(colors_at(frame, points@.subrange(0, i as int)), |c: ColorSample| green(c)),
            tb == channel_sum(colors_at(frame, points@.subrange(0, i as int)), |c: ColorSample| blue(c)),
            tr <= 255 * i,
            tg <= 255 * i,
            tb <= 255 * i,
        decreases n - i,
    {
        let (x, y) = points[i];
        if x >= frame.width() || y >= frame.height() {
            return Err(DecodeError::InvalidRegion);
        }
        let c = frame.pixel(x, y);
        proof {
            let prev = colors_at(frame, points@.subrange(0, i as int));
            let next = colors_at(frame, points@.subrange(0, i + 1));
            assert(next.drop_last() =~= prev);
            assert(next.last() == c);
        }
        tr = tr + c.r as u128;
        tg = tg + c.g as u128;
        tb = tb + c.b as u128;
        i = i + 1;
    }
    proof {
        assert(points@.subrange(0, n as int) =~= points@);
        lemma_mean_fits(tr as nat, n as nat);
        lemma_mean_fits(tg as nat, n as nat);
        lemma_mean_fits(tb as nat, n as nat);
    }
    let m = n as u128;
    Ok(ColorSample { r: (tr / m) as u8, g: (tg / m) as u8, b: (tb / m) as u8 })
}

/// `c` is the truncated mean colour of `SAMPLES` pixels of `frame`, each
/// inside `region`.
pub open spec fn is_region_estimate(frame: &Frame, region: Region, c: ColorSample) -> bool {
    exists|points: Seq<(usize, usize)>|
        {
            &&& points.len() == SAMPLES
            &&& forall|i: int|
                0 <= i < points.len() ==> region.contains(
                    (#[trigger] points[i]).0 as int,
                    points[i].1 as int,
                )
            &&& c == #[trigger] mean_of(colors_at(frame, points))
        }
}

/// Estimates the colour of `region` by averaging `SAMPLES` pixels drawn at
/// random from it. Fails with `InvalidRegion` exactly when the region is
/// empty or does not lie inside the frame.
pub fn sample_color(frame: &Frame, region: &Region) -> (r: Result<ColorSample, DecodeError>)
    requires
        frame.wf(),
    ensures
        r is Ok <==> region.fits(frame.spec_width(), frame.spec_height()),
        r is Err ==> r == Err::<ColorSample, DecodeError>(DecodeError::InvalidRegion),
        r matches Ok(c) ==> is_region_estimate(frame, *region, c),
{
    if !region.fits_in(frame) {
        return Err(DecodeError::InvalidRegion);
    }
    let mut points: Vec<(usize, usize)> = Vec::new();
    let mut k: usize = 0;
    while k < SAMPLES
        invariant
            region.fits(frame.spec_width(), frame.spec_height()),
            points@.len() == k,
            k <= SAMPLES,
            forall|i: int|
                0 <= i < points@.len() ==> region.contains(
                    (#[trigger] points@[i]).0 as int,
                    points@[i].1 as int,
                ),
        decreases SAMPLES - k,
    {
        let x = draw_between(region.x_min, region.x_max);
        let y = draw_between(region.y_min, region.y_max);
        points.push((x, y));
        k = k + 1;
    }
    let r = mean_color(frame, &points);
    proof {
        assert forall|i: int| 0 <= i < points@.len() implies in_frame(frame, #[trigger] points@[i]) by {
            assert(region.contains(points@[i].0 as int, points@[i].1 as int));
        }
        if let Ok(c) = r {
            assert(c == mean_of(colors_at(frame, points@)));
        }
    }
    r
}

/// The mean of the three channels of a colour, truncated.
pub fn avg_color(color: &ColorSample) -> (r: u8)
    ensures
        r == (color.r + color.g + color.b) / 3,
{
    ((color.r as u16 + color.g as u16 + color.b as u16) / 3) as u8
}

} // verus!
