//! Channel mixing: downmix an interleaved block to mono by per-frame
//! averaging, exactly, by summing the frame's numerators and doubling the
//! denominator.

use vstd::prelude::*;
use crate::sample::norm_wf;
use crate::sample::wave_wf;
use crate::errors::DecodeError;

verus! {

/// Number of mono frames an interleaved two-channel block of `n` samples
/// yields: an incomplete trailing frame still produces one output sample.
pub open spec fn mixed_len(n: int) -> int {
    (n + 1) / 2
}

/// Numerator of mono frame `j`: the sum of the frame's two numerators, with
/// a missing trailing sample read as zero. Over the doubled denominator this
/// is the arithmetic mean of the frame.
pub open spec fn frame_sum(s: Seq<i64>, j: int) -> int {
    s[2 * j] + if 2 * j + 1 < s.len() {
        s[2 * j + 1]
    } else {
        0
    }
}

/// The downmixed counterpart of `s`: pairwise frame sums over denominator
/// `2 * den`.
pub open spec fn mixed_seq(s: Seq<i64>) -> Seq<i64> {
    Seq::new(mixed_len(s.len() as int) as nat, |j: int| frame_sum(s, j) as i64)
}

/// Downmixes an interleaved block to mono. Channel count 1 passes the block
/// through unchanged; count 2 averages each frame exactly (the result is
/// the frame sums over the doubled denominator); any other count is
/// rejected as an unsupported layout, carrying the offending count.
pub fn downmix(samples: &Vec<i64>, channels: u16, den: u64) -> (r: Result<
    (Vec<i64>, u64),
    DecodeError,
>)
    requires
        norm_wf(samples@, den as int),
    ensures
        channels == 1 ==> (r matches Ok(p) && p.0@ == samples@ && p.1 == den),
        channels == 2 ==> (r matches Ok(p) && p.0@ == mixed_seq(samples@) && p.1 == 2 * den),
        channels == 1 || channels == 2 ==> (r matches Ok(p) && wave_wf(p.0@, p.1 as int)),
        channels != 1 && channels != 2 ==> r == Err::<(Vec<i64>, u64), DecodeError>(
            DecodeError::UnsupportedChannelLayout(channels),
        ),
{
    if channels == 1 {
        let mut out: Vec<i64> = Vec::new();
        let mut k: usize = 0;
        while k < samples.len()
            invariant
                k <= samples@.len(),
                out@ == samples@.take(k as int),
            decreases samples@.len() - k,
        {
            out.push(samples[k]);
            k = k + 1;
            proof {
                assert(out@ =~= samples@.take(k as int));
            }
        }
        proof {
            assert(samples@.take(samples@.len() as int) =~= samples@);
        }
        Ok((out, den))
    } else if channels == 2 {
        let n = samples.len();
        let frames = n / 2 + n % 2;
        proof {
            assert(frames as int == mixed_len(n as int));
        }
        let mut out: Vec<i64> = Vec::new();
        let mut j: usize = 0;
        while j < frames
            invariant
                n == samples@.len(),
                frames as int == mixed_len(n as int),
                2 * frames <= n + 1,
                j <= frames,
                norm_wf(samples@, den as int),
                out@.len() == j,
                forall|i: int| 0 <= i < j ==> #[trigger] out@[i] == frame_sum(samples@, i),
                forall|i: int|
                    0 <= i < j ==> -2 * (den as int) - 2 <= #[trigger] out@[i] <= 2 * (den as int),
            decreases frames - j,
        {
            let a = samples[2 * j];
            let b: i64 = if 2 * j + 1 < n {
                samples[2 * j + 1]
            } else {
                0
            };
            out.push(a + b);
            j = j + 1;
        }
        proof {
            assert forall|i: int| 0 <= i < out@.len() implies out@[i] == mixed_seq(samples@)[i] by {
                assert(i < mixed_len(samples@.len() as int));
                assert(2 * i < samples@.len());
                assert(-(den as int) - 1 <= samples@[2 * i] <= den as int);
                if 2 * i + 1 < samples@.len() {
                    assert(-(den as int) - 1 <= samples@[2 * i + 1] <= den as int);
                }
                assert(out@[i] == frame_sum(samples@, i));
            }
            assert(out@ =~= mixed_seq(samples@));
        }
        Ok((out, 2 * den))
    } else {
        Err(DecodeError::UnsupportedChannelLayout(channels))
    }
}

} // verus!
