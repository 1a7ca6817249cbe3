use vstd::prelude::*;

verus! {

/// Sum of a sequence of band heights, as a mathematical integer.
pub open spec fn height_sum(s: Seq<u32>) -> int
    decreases s.len(),
{
    if s.len() == 0 {
        0
    } else {
        height_sum(s.drop_last()) + s.last()
    }
}

/// Splits an image of `height_px` rows into `chunks` horizontal bands: every
/// band gets `height_px / chunks` rows, and the remainder rows go to the last
/// band, so that the band heights always add up to `height_px` exactly.
pub fn band_heights(height_px: u32, chunks: u32) -> (bands: Vec<u32>)
    requires
        chunks >= 1,
    ensures
        bands@.len() == chunks,
        forall|i: int| 0 <= i < chunks - 1 ==> bands@[i] == height_px / chunks,
        bands@[chunks - 1] == height_px / chunks + height_px % chunks,
        height_sum(bands@) == height_px,
{
    let quota: u32 = height_px / chunks;
    let mut bands: Vec<u32> = Vec::new();
    let mut i: u32 = 0;
    while i < chunks - 1
        invariant
            chunks >= 1,
            i <= chunks - 1,
            quota == height_px / chunks,
            bands@.len() == i,
            forall|j: int| 0 <= j < i ==> bands@[j] == quota,
            height_sum(bands@) == i * quota,
        decreases chunks - 1 - i,
    {
        let ghost prev = bands@;
        bands.push(quota);
        proof {
            assert(bands@.drop_last() =~= prev);
            assert((i + 1) * quota == i * quota + quota) by (nonlinear_arith);
        }
        i = i + 1;
    }
    let rest: u32 = height_px % chunks;
    proof {
        vstd::arithmetic::div_mod::lemma_fundamental_div_mod(height_px as int, chunks as int);
        assert(quota + rest <= height_px) by (nonlinear_arith)
            requires
                chunks >= 1,
                quota == height_px / chunks,
                rest == height_px % chunks,
                height_px == chunks * quota + rest,
        ;
    }
    let last: u32 = quota + rest;
    let ghost prev = bands@;
    bands.push(last);
    proof {
        assert(bands@.drop_last() =~= prev);
        assert((chunks - 1) * quota + (quota + rest) == chunks * quota + rest) by (nonlinear_arith);
        vstd::arithmetic::div_mod::lemma_fundamental_div_mod(height_px as int, chunks as int);
    }
    bands
}

/// Number of bands used for a quality export: four bands per available core.
/// Over-subscription is deliberate: cheap bands finish early and free their
/// core for a remaining band, which lowers tail latency.
pub fn throughput_workers(parallelism: usize) -> (chunks: u32)
    requires
        1 <= parallelism <= 0x3fff_ffff,
    ensures
        chunks == parallelism * 4,
        chunks >= 1,
{
    (parallelism as u32) * 4
}

/// Number of bands used for an interactive preview: one fewer than the
/// available cores (at least one), so the UI thread keeps a core for itself.
pub fn interactive_workers(parallelism: usize) -> (chunks: u32)
    requires
        parallelism <= u32::MAX,
    ensures
        parallelism <= 1 ==> chunks == 1,
        parallelism > 1 ==> chunks == parallelism - 1,
        chunks >= 1,
{
    if parallelism <= 1 {
        1
    } else {
        (parallelism - 1) as u32
    }
}

} // verus!
