//! Histogram matching: remapping a source image's intensities so that their
//! distribution approximates a target image's distribution, via CDF
//! inversion.
//!
//! Cumulative probabilities are rationals `cum / total`; two of them are
//! compared exactly by cross-multiplying the integer counts, so the remap is
//! free of rounding.

use vstd::prelude::*;

use crate::error::Error;
use crate::hist::count_px;
use crate::hist::cum_px;
use crate::hist::get_cdf;
use crate::hist::get_histogram;
use crate::hist::lemma_psum_is_cum_px;
use crate::hist::npx_of;
use crate::hist::psum;
use crate::pixel::PixelBuffer;

verus! {

/// The target's cumulative probability at intensity `t` strictly exceeds the
/// source's cumulative probability at intensity `v`. Each probability is the
/// rational `cum_px(d, i) / cum_px(d, 255)`; the comparison clears the two
/// denominators.
pub open spec fn cdf_gt(tdata: Seq<u8>, sdata: Seq<u8>, t: int, v: int) -> bool {
    cum_px(tdata, t) * cum_px(sdata, 255) > cum_px(sdata, v) * cum_px(tdata, 255)
}

/// The smallest intensity in `t..256` whose target cumulative probability
/// strictly exceeds the source's at `v`, or 256 if there is none.
pub open spec fn first_gt(tdata: Seq<u8>, sdata: Seq<u8>, v: int, t: int) -> int
    decreases 256 - t,
{
    if t >= 256 {
        256
    } else if cdf_gt(tdata, sdata, t, v) {
        t
    } else {
        first_gt(tdata, sdata, v, t + 1)
    }
}

/// The remapped intensity for a source pixel of intensity `v`: one less than
/// the first target intensity whose cumulative probability strictly exceeds
/// the source's at `v`. With no such intensity the candidate falls back to
/// `v + 1`, so the result is `v` itself; a crossing at intensity 0 saturates
/// to 0 instead of underflowing.
pub open spec fn remap_px(tdata: Seq<u8>, sdata: Seq<u8>, v: u8) -> u8 {
    let t = first_gt(tdata, sdata, v as int, 0);
    if t == 256 {
        v
    } else if t == 0 {
        0u8
    } else {
        (t - 1) as u8
    }
}

/// Pixel `i` of `snew` is the remap of pixel `i` of the source `sold`
/// against the target `tdata`: the remapped intensity in R, G and B, and an
/// opaque alpha.
pub open spec fn matched_pixel(sold: Seq<u8>, tdata: Seq<u8>, snew: Seq<u8>, i: int) -> bool {
    let nv = remap_px(tdata, sold, sold[4 * i]);
    &&& snew[4 * i] == nv
    &&& snew[4 * i + 1] == nv
    &&& snew[4 * i + 2] == nv
    &&& snew[4 * i + 3] == 255u8
}

/// The comparison `cdf_gt` at one intensity, over the executable cumulative
/// counts.
spec fn gt_at(cum_t: Seq<u64>, total_t: u64, num: u64, total_s: u64, t: int) -> bool {
    cum_t[t] * total_s > num * total_t
}

/// Index of the first entry of `cum_t` at which `gt_at` holds, or 256.
fn find_first_gt(cum_t: &Vec<u64>, total_t: u64, num: u64, total_s: u64) -> (r: usize)
    requires
        cum_t.len() == 256,
    ensures
        r <= 256,
        forall|u: int| 0 <= u < r ==> !gt_at(cum_t@, total_t, num, total_s, u),
        r < 256 ==> gt_at(cum_t@, total_t, num, total_s, r as int),
{
    proof {
        assert(num as int * total_t as int <= u128::MAX) by (nonlinear_arith)
            requires
                num <= u64::MAX,
                total_t <= u64::MAX,
        ;
    }
    let rhs: u128 = (num as u128) * (total_t as u128);
    let mut t: usize = 0;
    while t < 256
        invariant
            cum_t.len() == 256,
            t <= 256,
            rhs == num as int * total_t as int,
            forall|u: int| 0 <= u < t ==> !gt_at(cum_t@, total_t, num, total_s, u),
        decreases 256 - t,
    {
        let c = cum_t[t];
        proof {
            assert(c as int * total_s as int <= u128::MAX) by (nonlinear_arith)
                requires
                    c <= u64::MAX,
                    total_s <= u64::MAX,
            ;
        }
        let lhs: u128 = (c as u128) * (total_s as u128);
        if lhs > rhs {
            return t;
        }
        t = t + 1;
    }
    256
}

/// `first_gt` starting at `a` reaches `r` when nothing below `r` crosses and
/// `r` itself does (or nothing at all crosses and `r` is 256).
proof fn lemma_first_gt_reaches(tdata: Seq<u8>, sdata: Seq<u8>, v: int, a: int, r: int)
    requires
        0 <= a <= r <= 256,
        forall|u: int| a <= u < r ==> !cdf_gt(tdata, sdata, u, v),
        r < 256 ==> cdf_gt(tdata, sdata, r, v),
    ensures
        first_gt(tdata, sdata, v, a) == r,
    decreases r - a,
{
    if a < r {
        lemma_first_gt_reaches(tdata, sdata, v, a + 1, r);
    }
}

/// Rewrites every pixel of `source` so that the distribution of its first
/// channel approximates `target`'s: each intensity is sent to one less than
/// the first target intensity whose cumulative probability strictly exceeds
/// the pixel's, and the result is written to R, G and B with alpha forced
/// opaque. The two buffers' dimensions may differ, as the distributions are
/// normalized. An empty source or target is rejected before any pixel is
/// written, since its cumulative distribution cannot be normalized.
pub fn match_histograms(source: &mut PixelBuffer, target: &PixelBuffer) -> (r: Result<(), Error>)
    requires
        old(source).wf(),
        target.wf(),
    ensures
        final(source).wf(),
        final(source).width == old(source).width,
        final(source).height == old(source).height,
        match r {
            Ok(()) => {
                &&& old(source).npx() > 0
                &&& target.npx() > 0
                &&& forall|i: int|
                    0 <= i < old(source).npx() ==> #[trigger] matched_pixel(
                        old(source).data@,
                        target.data@,
                        final(source).data@,
                        i,
                    )
            },
            Err(e) => {
                &&& e is DegenerateInput
                &&& (old(source).npx() == 0 || target.npx() == 0)
                &&& *final(source) == *old(source)
            },
        },
{
    proof {
        assert(source.npx() == 0 <==> (source.width == 0 || source.height == 0))
            by (nonlinear_arith);
        assert(target.npx() == 0 <==> (target.width == 0 || target.height == 0))
            by (nonlinear_arith);
    }
    if source.width == 0 || source.height == 0 || target.width == 0 || target.height == 0 {
        return Err(Error::DegenerateInput);
    }

    let ghost sdata = source.data@;
    let ghost tdata = target.data@;

    let target_hist = get_histogram(target);
    let source_hist = get_histogram(source);
    proof {
        assert(4 * source.npx() == sdata.len() && 4 * target.npx() == tdata.len())
            by (nonlinear_arith)
            requires
                source.wf(),
                target.wf(),
                sdata == source.data@,
                tdata == target.data@,
        ;
        assert(psum(source_hist@, 256) <= u64::MAX);
        assert(psum(target_hist@, 256) <= u64::MAX);
    }
    let target_cdf = get_cdf(&target_hist);
    let source_cdf = get_cdf(&source_hist);
    proof {
        assert(npx_of(sdata) == source.npx() && npx_of(tdata) == target.npx())
            by (nonlinear_arith)
            requires
                source.wf(),
                target.wf(),
                sdata == source.data@,
                tdata == target.data@,
                npx_of(sdata) == sdata.len() as int / 4,
                npx_of(tdata) == tdata.len() as int / 4,
        ;
        assert forall|u: int| 0 <= u < 256 implies #[trigger] source_cdf.cum@[u] == cum_px(
            sdata,
            u,
        ) by {
            lemma_psum_is_cum_px(sdata, source_hist@, u);
        }
        assert forall|u: int| 0 <= u < 256 implies #[trigger] target_cdf.cum@[u] == cum_px(
            tdata,
            u,
        ) by {
            lemma_psum_is_cum_px(tdata, target_hist@, u);
        }
    }

    let n = (source.data.len() / 4) as usize;
    proof {
        assert(4 * n == sdata.len() && n == source.npx()) by (nonlinear_arith)
            requires
                source.wf(),
                sdata == source.data@,
                n == sdata.len() as int / 4,
                source.npx() == source.width as int * source.height as int,
                sdata.len() == source.width as int * source.height as int * 4,
        ;
    }
    let mut i: usize = 0;
    while i < n
        invariant
            source.wf(),
            source.width == old(source).width,
            source.height == old(source).height,
            source.data.len() == sdata.len(),
            sdata == old(source).data@,
            tdata == target.data@,
            4 * n == sdata.len(),
            n == source.npx(),
            i <= n,
            source_cdf.cum.len() == 256,
            target_cdf.cum.len() == 256,
            source_cdf.total == source_cdf.cum@[255],
            target_cdf.total == target_cdf.cum@[255],
            forall|u: int| 0 <= u < 256 ==> #[trigger] source_cdf.cum@[u] == cum_px(sdata, u),
            forall|u: int| 0 <= u < 256 ==> #[trigger] target_cdf.cum@[u] == cum_px(tdata, u),
            forall|k: int| 4 * i <= k < sdata.len() ==> source.data@[k] == sdata[k],
            forall|j: int|
                0 <= j < i ==> #[trigger] matched_pixel(sdata, tdata, source.data@, j),
        decreases n - i,
    {
        let v = source.data[4 * i];
        assert(v == sdata[4 * (i as int)]);
        let num = source_cdf.cum[v as usize];
        let t0 = find_first_gt(&target_cdf.cum, target_cdf.total, num, source_cdf.total);
        proof {
            assert forall|u: int| 0 <= u < 256 implies #[trigger] gt_at(
                target_cdf.cum@,
                target_cdf.total,
                num,
                source_cdf.total,
                u,
            ) == cdf_gt(tdata, sdata, u, v as int) by {
                assert(target_cdf.cum@[u] == cum_px(tdata, u));
                assert(target_cdf.cum@[255] == cum_px(tdata, 255));
                assert(source_cdf.cum@[v as int] == cum_px(sdata, v as int));
                assert(source_cdf.cum@[255] == cum_px(sdata, 255));
            }
            assert forall|u: int| 0 <= u < t0 implies !cdf_gt(tdata, sdata, u, v as int) by {
                assert(!gt_at(target_cdf.cum@, target_cdf.total, num, source_cdf.total, u));
            }
            if t0 < 256 {
                assert(gt_at(target_cdf.cum@, target_cdf.total, num, source_cdf.total, t0 as int));
                assert(cdf_gt(tdata, sdata, t0 as int, v as int));
            }
            lemma_first_gt_reaches(tdata, sdata, v as int, 0, t0 as int);
        }
        let nv: u8 = if t0 == 256 {
            v
        } else if t0 == 0 {
            0
        } else {
            (t0 - 1) as u8
        };
        assert(nv == remap_px(tdata, sdata, v));
        let ghost data0 = source.data@;
        let base = 4 * i;
        source.data[base] = nv;
        source.data[base + 1] = nv;
        source.data[base + 2] = nv;
        source.data[base + 3] = 255;
        proof {
            assert(source.data@[4 * (i as int)] == nv);
            assert(source.data@[4 * (i as int) + 1] == nv);
            assert(source.data@[4 * (i as int) + 2] == nv);
            assert(source.data@[4 * (i as int) + 3] == 255u8);
            assert(matched_pixel(sdata, tdata, source.data@, i as int));
            assert forall|j: int| 0 <= j < i implies #[trigger] matched_pixel(
                sdata,
                tdata,
                source.data@,
                j,
            ) by {
                assert(matched_pixel(sdata, tdata, data0, j));
                assert(4 * j + 3 < 4 * (i as int));
                assert(source.data@[4 * j] == data0[4 * j]);
                assert(source.data@[4 * j + 1] == data0[4 * j + 1]);
                assert(source.data@[4 * j + 2] == data0[4 * j + 2]);
                assert(source.data@[4 * j + 3] == data0[4 * j + 3]);
            }
        }
        i = i + 1;
    }
    Ok(())
}

/// Matching an image of one uniform intensity against itself leaves every
/// pixel unchanged: the pixel's cumulative probability is 1, no entry of its
/// own distribution strictly exceeds it, and the fallback maps the intensity
/// to itself. (Matching an arbitrary image against itself can move an
/// intensity up to the next populated bucket, so the law is stated for
/// uniform images.)
pub proof fn lemma_match_uniform_identity(d: Seq<u8>, v: u8)
    requires
        npx_of(d) > 0,
        forall|j: int| 0 <= j < npx_of(d) ==> #[trigger] d[4 * j] == v,
    ensures
        remap_px(d, d, v) == v,
{
    assert forall|t: int| 0 <= t < 256 implies !cdf_gt(d, d, t, v as int) by {
        lemma_cum_uniform(d, v, t);
        lemma_cum_uniform(d, v, v as int);
        lemma_cum_uniform(d, v, 255);
        let ct = cum_px(d, t);
        let cv = cum_px(d, v as int);
        let c255 = cum_px(d, 255);
        assert(ct * c255 <= cv * c255) by (nonlinear_arith)
            requires
                ct <= cv,
                c255 >= 0,
        ;
    }
    lemma_first_gt_reaches(d, d, v as int, 0, 256);
}

/// In a buffer whose first channels all hold `v`, the count of a bucket `b`
/// among the first `n` pixels is `n` for `b == v` and 0 otherwise.
proof fn lemma_count_uniform(d: Seq<u8>, v: u8, b: int, n: int)
    requires
        0 <= n <= npx_of(d),
        forall|j: int| 0 <= j < npx_of(d) ==> #[trigger] d[4 * j] == v,
    ensures
        count_px(d, b, n) == if b == v as int {
            n
        } else {
            0int
        },
    decreases n,
{
    if n > 0 {
        lemma_count_uniform(d, v, b, n - 1);
    }
}

/// In a uniform buffer of intensity `v`, the cumulative count at `t` is 0
/// below `v` and the whole pixel count at and above `v`.
proof fn lemma_cum_uniform(d: Seq<u8>, v: u8, t: int)
    requires
        -1 <= t,
        forall|j: int| 0 <= j < npx_of(d) ==> #[trigger] d[4 * j] == v,
    ensures
        cum_px(d, t) == if t < v as int {
            0int
        } else {
            npx_of(d)
        },
    decreases t + 1,
{
    if t >= 0 {
        lemma_cum_uniform(d, v, t - 1);
        lemma_count_uniform(d, v, t, npx_of(d));
    }
}

} // verus!
