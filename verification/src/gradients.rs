//! The records of a gradient that each texel of its ramp texture blends
//! between.  A ramp has `GRADIENT_SIZE` texels; texel `t` takes the last
//! record whose ratio is below `t` and the record after it (the last
//! record when there is none after it), or the first record twice when no
//! ratio is below `t`.

use vstd::prelude::*;

verus! {

/// The number of texels of a gradient ramp texture.
pub const GRADIENT_SIZE: usize = 256;

/// Some record of the gradient has a ratio below `t`.
pub open spec fn some_ratio_below(ratios: Seq<u8>, t: int) -> bool {
    exists|i: int| 0 <= i < ratios.len() && ratios[i] < t
}

/// `pair` is the pair of records that texel `t` blends between.
pub open spec fn is_stop_pair(ratios: Seq<u8>, t: int, pair: (usize, usize)) -> bool {
    if some_ratio_below(ratios, t) {
        &&& pair.0 < ratios.len()
        &&& ratios[pair.0 as int] < t
        &&& forall|j: int| pair.0 < j < ratios.len() ==> ratios[j] >= t
        &&& pair.1 == (if pair.0 + 1 < ratios.len() { pair.0 + 1 } else { pair.0 as int })
    } else {
        pair == (0usize, 0usize)
    }
}

/// The pair of records that texel `t` of a ramp blends between.  The
/// second record is the first one or the one right after it.
pub fn gradient_stop_pair(ratios: &Vec<u8>, t: usize) -> (r: (usize, usize))
    requires
        ratios@.len() > 0,
    ensures
        is_stop_pair(ratios@, t as int, r),
        r.1 == r.0 || r.1 == r.0 + 1,
        r.1 < ratios@.len(),
{
    let len = ratios.len();
    let mut i: usize = len;
    while i > 0
        invariant
            i <= len,
            len == ratios@.len(),
            forall|j: int| i <= j < len ==> ratios@[j] >= t,
        decreases i,
    {
        if (ratios[i - 1] as usize) < t {
            let last = i - 1;
            let next = if i < len { i } else { last };
            return (last, next);
        }
        i -= 1;
    }
    (0, 0)
}

/// The stop pairs of every texel of a gradient's ramp, in texel order;
/// none when the gradient has no record (its ramp stays transparent
/// black).
pub fn gradient_ramp_stops(ratios: &Vec<u8>) -> (r: Vec<(usize, usize)>)
    ensures
        ratios@.len() == 0 ==> r@.len() == 0,
        ratios@.len() > 0 ==> r@.len() == GRADIENT_SIZE,
        forall|t: int| 0 <= t < r@.len() ==> #[trigger] is_stop_pair(ratios@, t, r@[t]),
{
    let mut out: Vec<(usize, usize)> = Vec::new();
    if ratios.len() == 0 {
        return out;
    }
    let mut t: usize = 0;
    while t < GRADIENT_SIZE
        invariant
            t <= GRADIENT_SIZE,
            ratios@.len() > 0,
            out@.len() == t,
            forall|k: int| 0 <= k < t ==> #[trigger] is_stop_pair(ratios@, k, out@[k]),
        decreases GRADIENT_SIZE - t,
    {
        let pair = gradient_stop_pair(ratios, t);
        out.push(pair);
        t += 1;
    }
    out
}

} // verus!
