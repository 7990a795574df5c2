//! The 128-bin peak summary of a decoded track.
use crate::model::BARS;
use vstd::prelude::*;

verus! {

/// One stereo sample frame, in fixed point; any scale common to all frames
/// of a track gives the same summary.
#[derive(Clone, Copy, Debug, PartialEq, Eq, Structural)]
pub struct Frame {
    pub left: i32,
    pub right: i32,
}

pub open spec fn abs(x: int) -> int {
    if x < 0 {
        -x
    } else {
        x
    }
}

/// Twice the mean magnitude of the frame's two channels.
pub open spec fn magnitude(f: Frame) -> int {
    abs(f.left as int) + abs(f.right as int)
}

/// Sum of the magnitudes of the `len` frames from `start`.
pub open spec fn sum_range(frames: Seq<Frame>, start: int, len: nat) -> int
    decreases len,
{
    if len == 0 {
        0
    } else {
        sum_range(frames, start, (len - 1) as nat) + magnitude(frames[start + len - 1])
    }
}

/// Frames per bin: the remainder past the last whole bin is not summarised.
pub open spec fn bin_size(n: nat) -> nat {
    n / (BARS as nat)
}

/// The sum of bin `i`. Each bin's average is this sum scaled by a factor
/// common to all bins, so the sums give the same bars as the averages.
pub open spec fn bin_sums(frames: Seq<Frame>) -> Seq<int> {
    let size = bin_size(frames.len());
    Seq::new(BARS as nat, |i: int| sum_range(frames, i * size, size))
}

/// The greatest element of `s`, or 0 for the empty sequence.
pub open spec fn max_of(s: Seq<int>) -> int
    decreases s.len(),
{
    if s.len() == 0 {
        0
    } else if max_of(s.drop_last()) >= s.last() {
        max_of(s.drop_last())
    } else {
        s.last()
    }
}

/// `255 * sum / max` rounded to the nearest integer, halves up; 0 when the
/// maximum is 0.
pub open spec fn bar(sum: int, max: int) -> int {
    if max == 0 {
        0
    } else {
        (510 * sum + max) / (2 * max)
    }
}

/// The waveform summary of a track.
pub open spec fn waveform(frames: Seq<Frame>) -> Seq<u8> {
    let sums = bin_sums(frames);
    Seq::new(BARS as nat, |i: int| bar(sums[i], max_of(sums)) as u8)
}

/// The bound on one frame's magnitude.
pub open spec fn frame_bound() -> int {
    0x1_0000_0000
}

proof fn lemma_sum_range_bounds(frames: Seq<Frame>, start: int, len: nat)
    ensures
        0 <= sum_range(frames, start, len) <= len * frame_bound(),
    decreases len,
{
    if len > 0 {
        lemma_sum_range_bounds(frames, start, (len - 1) as nat);
        let f = frames[start + len - 1];
        assert(0 <= magnitude(f) <= frame_bound());
        assert((len - 1) * frame_bound() + frame_bound() == len * frame_bound()) by (nonlinear_arith);
    }
}

proof fn lemma_sum_range_covers(frames: Seq<Frame>, start: int, len: nat, p: int)
    requires
        start <= p < start + len,
    ensures
        sum_range(frames, start, len) >= magnitude(frames[p]),
    decreases len,
{
    lemma_sum_range_bounds(frames, start, (len - 1) as nat);
    if p < start + len - 1 {
        lemma_sum_range_covers(frames, start, (len - 1) as nat, p);
    }
}

proof fn lemma_max_of_bounds(s: Seq<int>)
    requires
        forall|i: int| 0 <= i < s.len() ==> #[trigger] s[i] >= 0,
    ensures
        forall|i: int| 0 <= i < s.len() ==> #[trigger] s[i] <= max_of(s),
        s.len() > 0 ==> exists|k: int| 0 <= k < s.len() && #[trigger] s[k] == max_of(s),
    decreases s.len(),
{
    if s.len() > 0 {
        let p = s.drop_last();
        lemma_max_of_bounds(p);
        assert forall|i: int| 0 <= i < s.len() implies #[trigger] s[i] <= max_of(s) by {
            if i < s.len() - 1 {
                assert(p[i] == s[i]);
            }
        }
        if max_of(p) >= s.last() && p.len() > 0 {
            let k = choose|k: int| 0 <= k < p.len() && #[trigger] p[k] == max_of(p);
            assert(s[k] == max_of(s));
        } else {
            assert(s[s.len() - 1] == max_of(s));
        }
    }
}

fn magnitude_of(f: Frame) -> (r: u64)
    ensures
        r == magnitude(f),
{
    let l: u64 = if f.left < 0 {
        (-(f.left as i64)) as u64
    } else {
        f.left as u64
    };
    let r: u64 = if f.right < 0 {
        (-(f.right as i64)) as u64
    } else {
        f.right as u64
    };
    l + r
}

/// The waveform summary: 128 bins of `floor(n / 128)` frames each; bin `i`
/// scores the mean of `|left| / 2 + |right| / 2` over its frames, and its
/// byte is its score over the greatest score, times 255, rounded. All bytes
/// are 0 when every score is 0.
pub fn visualise_samples(frames: &Vec<Frame>) -> (r: Vec<u8>)
    ensures
        r@ == waveform(frames@),
{
    let ghost sums_spec = bin_sums(frames@);
    let n = frames.len();
    let size = n / BARS;
    let mut sums: Vec<u128> = Vec::new();
    let mut max: u128 = 0;
    let mut i: usize = 0;
    while i < BARS
        invariant
            n == frames@.len(),
            size == bin_size(frames@.len()),
            sums_spec == bin_sums(frames@),
            i <= BARS,
            sums@.len() == i,
            forall|j: int| 0 <= j < i ==> #[trigger] sums@[j] as int == sums_spec[j],
            max as int == max_of(sums_spec.take(i as int)),
            max <= size as int * frame_bound(),
        decreases BARS - i,
    {
        assert(i * size + size <= frames.len()) by (nonlinear_arith)
            requires
                i < 128,
                size == n / 128,
                n == frames@.len(),
        ;
        let start = i * size;
        let mut sum: u128 = 0;
        let mut j: usize = 0;
        while j < size
            invariant
                n == frames@.len(),
                start + size <= n,
                j <= size,
                sum as int == sum_range(frames@, start as int, j as nat),
                sum <= j * frame_bound(),
            decreases size - j,
        {
            proof {
                lemma_sum_range_bounds(frames@, start as int, (j + 1) as nat);
            }
            sum = sum + magnitude_of(frames[start + j]) as u128;
            j = j + 1;
        }
        proof {
            assert(sums_spec.take(i + 1).drop_last() =~= sums_spec.take(i as int));
            assert(sums_spec[i as int] == sum_range(frames@, start as int, size as nat));
        }
        if sum > max {
            max = sum;
        }
        sums.push(sum);
        i = i + 1;
    }
    proof {
        assert(sums_spec.take(BARS as int) =~= sums_spec);
        assert forall|j: int| 0 <= j < sums_spec.len() implies #[trigger] sums_spec[j] >= 0 by {
            assert(sums@[j] as int == sums_spec[j]);
        }
        lemma_max_of_bounds(sums_spec);
    }
    let mut bars: Vec<u8> = Vec::new();
    let mut k: usize = 0;
    while k < BARS
        invariant
            sums@.len() == BARS,
            sums_spec == bin_sums(frames@),
            forall|j: int| 0 <= j < BARS ==> #[trigger] sums@[j] as int == sums_spec[j],
            forall|j: int| 0 <= j < BARS ==> #[trigger] sums_spec[j] <= max as int,
            max as int == max_of(sums_spec),
            max <= size as int * frame_bound(),
            size <= usize::MAX,
            k <= BARS,
            bars@ =~= waveform(frames@).take(k as int),
        decreases BARS - k,
    {
        let s = sums[k];
        let b: u8 = if max == 0 {
            0
        } else {
            assert(s <= max);
            assert(510 * s + max <= 511 * max) by (nonlinear_arith)
                requires
                    s <= max,
            ;
            assert(511 * (max as int) < 0x1_0000_0000_0000_0000_0000_0000_0000_0000) by (nonlinear_arith)
                requires
                    max <= size as int * frame_bound(),
                    size <= usize::MAX,
            ;
            let q = (510 * s + max) / (2 * max);
            assert(q <= 255) by (nonlinear_arith)
                requires
                    s <= max,
                    max > 0,
                    q == (510 * s + max) / (2 * max),
            ;
            q as u8
        };
        assert(b as int == bar(sums_spec[k as int], max as int) as u8);
        bars.push(b);
        k = k + 1;
    }
    bars
}

/// The summary has one byte per bin, and its greatest byte is 255 whenever
/// some frame that falls in a bin is not silent.
pub proof fn lemma_waveform_peak(frames: Seq<Frame>, p: int)
    requires
        0 <= p < (BARS as nat) * bin_size(frames.len()),
        magnitude(frames[p]) > 0,
    ensures
        waveform(frames).len() == BARS,
        exists|k: int| 0 <= k < BARS && #[trigger] waveform(frames)[k] == 255,
{
    let size = bin_size(frames.len());
    let sums = bin_sums(frames);
    let b = p / (size as int);
    assert(0 <= b < BARS && b * size <= p < b * size + size) by (nonlinear_arith)
        requires
            0 <= p < 128 * size,
            b == p / (size as int),
            size > 0,
    ;
    lemma_sum_range_covers(frames, b * size, size, p);
    assert forall|i: int| 0 <= i < sums.len() implies #[trigger] sums[i] >= 0 by {
        lemma_sum_range_bounds(frames, i * size, size);
    }
    lemma_max_of_bounds(sums);
    assert(sums[b] > 0);
    let k = choose|k: int| 0 <= k < sums.len() && #[trigger] sums[k] == max_of(sums);
    let m = max_of(sums);
    assert(m > 0);
    assert((510 * m + m) / (2 * m) == 255) by (nonlinear_arith)
        requires
            m > 0,
    ;
    assert(waveform(frames)[k] == 255);
}

} // verus!
