//! Intensity histograms and cumulative distribution functions.
//!
//! A histogram counts, for each intensity 0..=255, how many pixels of a
//! buffer carry that intensity in their first channel. A [`Cdf`] keeps the
//! running (unnormalized) cumulative counts together with the total; the
//! normalized distribution value at intensity `i` is the exact rational
//! `cum[i] / total`, so cumulative probabilities are compared without any
//! rounding.

use vstd::prelude::*;

use crate::pixel::PixelBuffer;

verus! {

/// Sum of the first `k` entries of `s`.
pub open spec fn psum(s: Seq<u64>, k: int) -> int
    decreases k,
{
    if k <= 0 {
        0
    } else {
        psum(s, k - 1) + s[k - 1]
    }
}

/// Number of whole 4-byte pixels in a flat byte sequence.
pub open spec fn npx_of(d: Seq<u8>) -> int {
    d.len() as int / 4
}

/// Number of pixels among the first `n` whose first channel holds `b`.
pub open spec fn count_px(d: Seq<u8>, b: int, n: int) -> int
    decreases n,
{
    if n <= 0 {
        0
    } else {
        count_px(d, b, n - 1) + if d[4 * (n - 1)] == b {
            1int
        } else {
            0int
        }
    }
}

/// Number of pixels of `d` whose first channel holds a value at most `v`.
pub open spec fn cum_px(d: Seq<u8>, v: int) -> int
    decreases v + 1,
{
    if v < 0 {
        0
    } else {
        cum_px(d, v - 1) + count_px(d, v, npx_of(d))
    }
}

proof fn lemma_psum_update(s: Seq<u64>, j: int, x: u64, k: int)
    requires
        0 <= j < s.len(),
        0 <= k <= s.len(),
    ensures
        psum(s.update(j, x), k) == psum(s, k) + if j < k {
            x - s[j]
        } else {
            0int
        },
    decreases k,
{
    if k > 0 {
        lemma_psum_update(s, j, x, k - 1);
    }
}

proof fn lemma_psum_zero(s: Seq<u64>, k: int)
    requires
        0 <= k <= s.len(),
        forall|b: int| 0 <= b < k ==> s[b] == 0,
    ensures
        psum(s, k) == 0,
    decreases k,
{
    if k > 0 {
        lemma_psum_zero(s, k - 1);
    }
}

/// Prefix sums of non-negative entries grow with the prefix.
proof fn lemma_psum_monotone(s: Seq<u64>, k: int, m: int)
    requires
        0 <= k <= m <= s.len(),
    ensures
        psum(s, k) <= psum(s, m),
    decreases m,
{
    if k < m {
        lemma_psum_monotone(s, k, m - 1);
    }
}

/// A histogram's running sums are the cumulative pixel counts of the image
/// it was built from.
pub proof fn lemma_psum_is_cum_px(d: Seq<u8>, hist: Seq<u64>, i: int)
    requires
        forall|b: int| 0 <= b < 256 ==> hist[b] == count_px(d, b, npx_of(d)),
        hist.len() == 256,
        0 <= i < 256,
    ensures
        psum(hist, i + 1) == cum_px(d, i),
    decreases i,
{
    assert(psum(hist, 0) == 0);
    assert(cum_px(d, -1) == 0);
    if i > 0 {
        lemma_psum_is_cum_px(d, hist, i - 1);
    }
    assert(psum(hist, i + 1) == psum(hist, i) + hist[i]);
    assert(cum_px(d, i) == cum_px(d, i - 1) + count_px(d, i, npx_of(d)));
}

/// A bucket's count among the first `n` pixels is between 0 and `n`.
proof fn lemma_count_px_bound(d: Seq<u8>, b: int, n: int)
    requires
        n >= 0,
    ensures
        0 <= count_px(d, b, n) <= n,
    decreases n,
{
    if n > 0 {
        lemma_count_px_bound(d, b, n - 1);
    }
}

/// Builds the 256-bucket frequency table of a buffer's first channel: bucket
/// `b` counts the pixels whose R value is `b`. The sum of all buckets is the
/// pixel count.
pub fn get_histogram(image: &PixelBuffer) -> (hist: Vec<u64>)
    requires
        image.wf(),
    ensures
        hist.len() == 256,
        forall|b: int| 0 <= b < 256 ==> hist@[b] == count_px(image.data@, b, image.npx()),
        psum(hist@, 256) == image.npx(),
{
    let mut hist: Vec<u64> = Vec::new();
    let mut j: usize = 0;
    while j < 256
        invariant
            hist.len() == j,
            j <= 256,
            forall|b: int| 0 <= b < j ==> hist@[b] == 0,
        decreases 256 - j,
    {
        hist.push(0);
        j = j + 1;
    }
    proof {
        lemma_psum_zero(hist@, 256);
    }

    let n = (image.data.len() / 4) as usize;
    proof {
        assert(n == image.npx() && 4 * image.npx() == image.data.len()) by (nonlinear_arith)
            requires
                image.data.len() == image.width as int * image.height as int * 4,
                n == image.data.len() as int / 4,
                image.npx() == image.width as int * image.height as int,
        ;
    }
    let mut i: usize = 0;
    while i < n
        invariant
            image.wf(),
            n == image.npx(),
            4 * n == image.data.len(),
            i <= n,
            hist.len() == 256,
            forall|b: int| 0 <= b < 256 ==> hist@[b] == count_px(image.data@, b, i as int),
            psum(hist@, 256) == i,
        decreases n - i,
    {
        let v = image.data[4 * i];
        let c = hist[v as usize];
        proof {
            lemma_count_px_bound(image.data@, v as int, i as int);
            assert(c < u64::MAX);
            lemma_psum_update(hist@, v as int, (c + 1) as u64, 256);
        }
        hist[v as usize] = c + 1;
        proof {
            assert forall|b: int| 0 <= b < 256 implies hist@[b] == count_px(
                image.data@,
                b,
                i + 1,
            ) by {
                assert(count_px(image.data@, b, i + 1) == count_px(image.data@, b, i as int)
                    + if image.data@[4 * (i as int)] == b {
                    1int
                } else {
                    0int
                });
            }
        }
        i = i + 1;
    }
    hist
}

/// A cumulative distribution over intensities 0..=255, kept exactly.
///
/// `cum[i]` is the number of pixels with intensity at most `i`; `total` is
/// `cum[255]`. The normalized CDF value at `i` is the rational
/// `cum[i] / total`, which is non-decreasing in `i` and reaches exactly 1 at
/// `i == 255` whenever the image has any pixels. A zero `total` (an empty
/// image) leaves the normalized value undefined; callers that normalize must
/// reject that case.
pub struct Cdf {
    pub cum: Vec<u64>,
    pub total: u64,
}

impl Cdf {
    /// Well-formedness: 256 non-decreasing running counts, with the total
    /// equal to the last of them.
    pub open spec fn wf(self) -> bool {
        &&& self.cum.len() == 256
        &&& self.total == self.cum@[255]
        &&& forall|i: int| 0 <= i < 255 ==> #[trigger] self.cum@[i] <= self.cum@[i + 1]
    }
}

/// Builds the cumulative distribution of a 256-bucket histogram: entry `i`
/// is the running sum of buckets `0..=i`. The distribution is non-decreasing
/// and its last entry equals the bucket total, so the normalized value
/// `cum[i] / total` ends at exactly 1 for any non-empty histogram.
pub fn get_cdf(a: &Vec<u64>) -> (c: Cdf)
    requires
        a.len() == 256,
        psum(a@, 256) <= u64::MAX,
    ensures
        c.wf(),
        forall|i: int| 0 <= i < 256 ==> c.cum@[i] == psum(a@, i + 1),
        c.total == psum(a@, 256),
{
    let mut cum: Vec<u64> = Vec::new();
    let mut i: usize = 0;
    while i < 256
        invariant
            a.len() == 256,
            psum(a@, 256) <= u64::MAX,
            cum.len() == i,
            i <= 256,
            forall|j: int| 0 <= j < i ==> cum@[j] == psum(a@, j + 1),
        decreases 256 - i,
    {
        proof {
            lemma_psum_monotone(a@, i + 1, 256);
        }
        let x = if i == 0 {
            a[0]
        } else {
            cum[i - 1] + a[i]
        };
        proof {
            assert(psum(a@, 0) == 0);
            assert(psum(a@, i + 1) == psum(a@, i as int) + a@[i as int]);
        }
        cum.push(x);
        i = i + 1;
    }
    let total = cum[255];
    proof {
        assert forall|j: int| 0 <= j < 255 implies #[trigger] cum@[j] <= cum@[j + 1] by {
            lemma_psum_monotone(a@, j + 1, j + 2);
        }
    }
    Cdf { cum, total }
}

} // verus!
