use vstd::prelude::*;

use crate::decode::{SampleBuffer, SampleData, SampleSeq};

verus! {

/// The absolute value of a fixed-point sample.
pub open spec fn abs_q(q: int) -> int {
    if q < 0 {
        -q
    } else {
        q
    }
}

/// The largest absolute sample value of a sequence, 0 when empty.
pub open spec fn peak_spec(s: Seq<int>) -> int
    decreases s.len(),
{
    if s.len() == 0 {
        0
    } else {
        let rest = peak_spec(s.drop_last());
        if abs_q(s.last()) > rest {
            abs_q(s.last())
        } else {
            rest
        }
    }
}

/// The sum of squared sample values of a sequence: the radicand from which
/// a root-mean-square is derived.
pub open spec fn energy_spec(s: Seq<int>) -> int
    decreases s.len(),
{
    if s.len() == 0 {
        0int
    } else {
        energy_spec(s.drop_last()) + s.last() * s.last()
    }
}

/// Amplitude statistics of a sample range: the peak absolute fixed-point
/// value, and the summed squares of the fixed-point values. Both are exact;
/// a caller deriving the root-mean-square takes the square root of
/// `energy` over the range length on the 2^31 fixed-point scale.
#[derive(Debug, Clone, Copy, PartialEq, Eq, Structural)]
pub struct AudioStats {
    pub peak_q: u64,
    pub energy: u128,
}

proof fn lemma_energy_bound(s: Seq<int>)
    requires
        forall|i: int| 0 <= i < s.len() ==> -0x8000_0000 <= #[trigger] s[i] <= 0x8000_0000,
    ensures
        0 <= energy_spec(s) <= s.len() * 0x4000_0000_0000_0000,
    decreases s.len(),
{
    if s.len() > 0 {
        lemma_energy_bound(s.drop_last());
        let q = s.last();
        assert(q * q <= 0x4000_0000_0000_0000) by (nonlinear_arith)
            requires
                -0x8000_0000 <= q <= 0x8000_0000,
        ;
        assert(0 <= q * q) by (nonlinear_arith);
    }
}

/// Computes the exact amplitude statistics of the fixed-point samples in
/// the index range [lo, hi).
pub fn range_stats(samples: &Vec<i64>, lo: usize, hi: usize) -> (st: AudioStats)
    requires
        lo <= hi <= samples@.len(),
        forall|i: int| 0 <= i < samples@.len() ==> -0x8000_0000 <= #[trigger] samples@[i]
            <= 0x8000_0000,
    ensures
        ({
            let sub = samples@.map_values(|q: i64| q as int).subrange(lo as int, hi as int);
            st.peak_q == peak_spec(sub) && st.energy == energy_spec(sub)
        }),
{
    let ghost all = samples@.map_values(|q: i64| q as int);
    let mut peak: u64 = 0;
    let mut energy: u128 = 0;
    let mut i: usize = lo;
    while i < hi
        invariant
            lo <= i <= hi <= samples@.len(),
            all == samples@.map_values(|q: i64| q as int),
            forall|k: int| 0 <= k < samples@.len() ==> -0x8000_0000 <= #[trigger] samples@[k]
                <= 0x8000_0000,
            peak == peak_spec(all.subrange(lo as int, i as int)),
            energy == energy_spec(all.subrange(lo as int, i as int)),
            peak <= 0x8000_0000,
            energy <= (i - lo) * 0x4000_0000_0000_0000,
        decreases hi - i,
    {
        let q = samples[i];
        let a: u64 = if q < 0 {
            (-q) as u64
        } else {
            q as u64
        };
        if a > peak {
            peak = a;
        }
        proof {
            assert(q as int * q as int <= 0x4000_0000_0000_0000) by (nonlinear_arith)
                requires
                    -0x8000_0000 <= q as int <= 0x8000_0000,
            ;
            assert(0 <= q as int * q as int) by (nonlinear_arith);
        }
        let sq = q * q;
        energy = energy + sq as u128;
        proof {
            let prev = all.subrange(lo as int, i as int);
            let cur = all.subrange(lo as int, i + 1);
            assert(cur.drop_last() =~= prev);
            assert(cur.last() == q as int);
        }
        i += 1;
    }
    AudioStats { peak_q: peak, energy }
}

/// Computes the exact amplitude statistics of a whole buffer's fixed-point
/// samples; a float-sourced buffer, whose values the fixed-point carrier
/// does not hold, yields none.
pub fn audio_stats(buf: &SampleBuffer) -> (r: Option<AudioStats>)
    requires
        buf.wf(),
    ensures
        match r {
            Some(st) => buf@.samples matches SampleSeq::Fixed(s) && st.peak_q == peak_spec(s)
                && st.energy == energy_spec(s),
            None => buf@.samples is FloatBits,
        },
{
    match &buf.data {
        SampleData::Fixed(v) => {
            proof {
                assert forall|i: int| 0 <= i < v@.len() implies -0x8000_0000 <= #[trigger] v@[i]
                    <= 0x8000_0000 by {
                    assert(buf@.samples->Fixed_0[i] == v@[i] as int);
                }
            }
            let n = v.len();
            let st = range_stats(v, 0, n);
            proof {
                let s = v@.map_values(|q: i64| q as int);
                assert(s.subrange(0, n as int) =~= s);
            }
            Some(st)
        }
        SampleData::FloatBits(_) => None,
    }
}

} // verus!
