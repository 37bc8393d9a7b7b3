//! Integer structure of the recursive Gaussian blur's vertical pass.
//!
//! The vertical pass filters the columns of a row-major plane in stripes of
//! adjacent columns: first as many stripes of `j` columns as fit, then as many
//! of `k` columns as fit in what is left, then single columns. Each stripe can
//! be filtered into a buffer of its own (`cols * height` samples, row-major
//! with stride `cols`); `RecursiveGaussian::stripe_row` gathers one output row
//! back from those buffers. The filter arithmetic itself is floating point
//! and is not part of this module.
use vstd::prelude::*;

verus! {

/// Implements "Recursive Implementation of the Gaussian Filter Using Truncated
/// Cosine Functions" by Charalampidis [2016].
pub struct RecursiveGaussian;

/// A run of adjacent columns starting at column `x`.
#[derive(Clone, Copy, Debug, PartialEq, Eq, Structural)]
pub struct Stripe {
    pub x: usize,
    pub cols: usize,
}

/// The stripes that cover columns `x..width`: `j` columns while they fit,
/// then `k` columns while they fit, then one column at a time.
pub open spec fn greedy_stripes(x: int, width: int, j: int, k: int) -> Seq<Stripe>
    decreases width - x,
{
    if x >= width {
        Seq::empty()
    } else if j > 0 && x + j <= width {
        seq![Stripe { x: x as usize, cols: j as usize }] + greedy_stripes(x + j, width, j, k)
    } else if k > 0 && x + k <= width {
        seq![Stripe { x: x as usize, cols: k as usize }] + greedy_stripes(x + k, width, j, k)
    } else {
        seq![Stripe { x: x as usize, cols: 1 }] + greedy_stripes(x + 1, width, j, k)
    }
}

/// `s` covers the columns `from..width` with non-empty stripes laid end to
/// end, in order.
pub open spec fn tiles_from(s: Seq<Stripe>, from: int, width: int) -> bool {
    &&& s.len() == 0 ==> from == width
    &&& s.len() > 0 ==> s[0].x == from && s.last().x + s.last().cols == width
    &&& forall|i: int| 0 <= i < s.len() ==> #[trigger] s[i].cols > 0
    &&& forall|i: int| 0 <= i < s.len() - 1 ==> #[trigger] s[i + 1].x == s[i].x + s[i].cols
}

/// `s` covers the columns `0..width`.
pub open spec fn tiles(s: Seq<Stripe>, width: int) -> bool {
    tiles_from(s, 0, width)
}

/// Column where stripe `i` of a tiling starts, counted from the widths of the
/// stripes before it.
pub open spec fn stripe_start(s: Seq<Stripe>, from: int, i: int) -> int
    decreases i,
{
    if i <= 0 {
        from
    } else {
        stripe_start(s, from, i - 1) + s[i - 1].cols
    }
}

/// Sample of output row `y` at column `stripes[i].x + c`, read from the
/// buffer of stripe `i`.
pub open spec fn stripe_sample<T>(bufs: Seq<Vec<T>>, stripes: Seq<Stripe>, y: int, i: int, c: int) -> T {
    bufs[i]@[y * stripes[i].cols + c]
}

/// Each stripe of a tiling lies inside `from..width` and starts where the
/// stripes before it end.
pub proof fn lemma_tiling_bounds(s: Seq<Stripe>, from: int, width: int)
    requires
        tiles_from(s, from, width),
    ensures
        forall|i: int| 0 <= i < s.len() ==> #[trigger] s[i].x == stripe_start(s, from, i),
        forall|i: int| 0 <= i < s.len() ==> from <= s[i].x && #[trigger] s[i].x + s[i].cols <= width,
        s.len() == 0 ==> from == width,
        s.len() > 0 ==> stripe_start(s, from, s.len() as int) == width,
{
    assert forall|i: int| 0 <= i < s.len() implies #[trigger] s[i].x == stripe_start(s, from, i) by {
        lemma_start_matches(s, from, width, i);
    }
    assert forall|i: int| 0 <= i < s.len() implies from <= s[i].x && #[trigger] s[i].x + s[i].cols
        <= width by {
        lemma_ends_before(s, from, width, i);
        lemma_start_matches(s, from, width, i);
    }
    if s.len() > 0 {
        lemma_start_matches(s, from, width, s.len() - 1);
    }
}

proof fn lemma_start_matches(s: Seq<Stripe>, from: int, width: int, i: int)
    requires
        tiles_from(s, from, width),
        0 <= i < s.len(),
    ensures
        s[i].x == stripe_start(s, from, i),
        from <= s[i].x,
    decreases i,
{
    if i > 0 {
        lemma_start_matches(s, from, width, i - 1);
        assert(s[(i - 1) + 1].x == s[i - 1].x + s[i - 1].cols);
        assert(s[i - 1].cols > 0);
    }
}

proof fn lemma_ends_before(s: Seq<Stripe>, from: int, width: int, i: int)
    requires
        tiles_from(s, from, width),
        0 <= i < s.len(),
    ensures
        s[i].x + s[i].cols <= width,
    decreases s.len() - i,
{
    if i < s.len() - 1 {
        lemma_ends_before(s, from, width, i + 1);
        assert(s[i + 1].x == s[i].x + s[i].cols);
        assert(s[i + 1].cols > 0);
    }
}

/// The greedy stripes tile the columns they cover, and every stripe is `j`,
/// `k` or one column wide.
pub proof fn lemma_greedy_tiles(x: int, width: int, j: int, k: int)
    requires
        0 <= x <= width <= usize::MAX,
        j > k > 0,
    ensures
        tiles_from(greedy_stripes(x, width, j, k), x, width),
        forall|i: int|
            0 <= i < greedy_stripes(x, width, j, k).len() ==> {
                let c = #[trigger] greedy_stripes(x, width, j, k)[i].cols;
                c == j || c == k || c == 1
            },
    decreases width - x,
{
    let s = greedy_stripes(x, width, j, k);
    if x < width {
        let step: int = if x + j <= width {
            j
        } else if x + k <= width {
            k
        } else {
            1
        };
        let rest = greedy_stripes(x + step, width, j, k);
        lemma_greedy_tiles(x + step, width, j, k);
        assert(s == seq![Stripe { x: x as usize, cols: step as usize }] + rest);
        assert forall|i: int| 0 <= i < s.len() - 1 implies #[trigger] s[i + 1].x == s[i].x
            + s[i].cols by {
            if i > 0 {
                assert(s[i] == rest[i - 1]);
                assert(s[i + 1] == rest[(i - 1) + 1]);
            }
        }
        assert forall|i: int| 0 <= i < s.len() implies #[trigger] s[i].cols > 0 by {
            if i > 0 {
                assert(s[i] == rest[i - 1]);
            }
        }
        assert forall|i: int| 0 <= i < s.len() implies {
            let c = #[trigger] s[i].cols;
            c == j || c == k || c == 1
        } by {
            if i > 0 {
                assert(s[i] == rest[i - 1]);
            }
        }
    }
}

/// Column stripes tile the plane: for `j > k > 0` the stripes of
/// `column_stripes` start at column 0, each begins where the previous one
/// ends, the last one ends at `width`, and every stripe is `j`, `k` or one
/// column wide; so every column is filtered exactly once.
pub proof fn law_stripes_tile_columns(width: int, j: int, k: int)
    requires
        0 <= width <= usize::MAX,
        j > k > 0,
    ensures
        tiles(greedy_stripes(0, width, j, k), width),
        forall|i: int|
            0 <= i < greedy_stripes(0, width, j, k).len() ==> {
                let c = #[trigger] greedy_stripes(0, width, j, k)[i].cols;
                c == j || c == k || c == 1
            },
{
    lemma_greedy_tiles(0, width, j, k);
}

proof fn lemma_greedy_maximal(x: int, width: int, j: int, k: int)
    requires
        0 <= x <= width <= usize::MAX,
        j > k > 0,
    ensures
        forall|i: int|
            0 <= i < greedy_stripes(x, width, j, k).len() ==> {
                let st = #[trigger] greedy_stripes(x, width, j, k)[i];
                &&& st.cols == j || st.x + j > width
                &&& st.cols == j || st.cols == k || st.x + k > width
            },
    decreases width - x,
{
    let s = greedy_stripes(x, width, j, k);
    if x < width {
        let step: int = if x + j <= width {
            j
        } else if x + k <= width {
            k
        } else {
            1
        };
        let rest = greedy_stripes(x + step, width, j, k);
        lemma_greedy_maximal(x + step, width, j, k);
        assert(s == seq![Stripe { x: x as usize, cols: step as usize }] + rest);
        assert forall|i: int| 0 <= i < s.len() implies {
            let st = #[trigger] s[i];
            &&& st.cols == j || st.x + j > width
            &&& st.cols == j || st.cols == k || st.x + k > width
        } by {
            if i > 0 {
                assert(s[i] == rest[i - 1]);
            }
        }
    }
}

/// The stripe plan is greedy: a stripe is narrower than `j` only where `j`
/// columns no longer fit before `width`, and it is a single column only where
/// `k` columns no longer fit either. Together with the tiling law this fixes
/// the plan: as many `j`-wide stripes as fit, then as many `k`-wide, then
/// single columns.
pub proof fn law_stripes_take_widest_that_fits(width: int, j: int, k: int)
    requires
        0 <= width <= usize::MAX,
        j > k > 0,
    ensures
        forall|i: int|
            0 <= i < greedy_stripes(0, width, j, k).len() ==> {
                let st = #[trigger] greedy_stripes(0, width, j, k)[i];
                &&& st.cols == j || st.x + j > width
                &&& st.cols == j || st.cols == k || st.x + k > width
            },
{
    lemma_greedy_maximal(0, width, j, k);
}

impl RecursiveGaussian {
    /// The column stripes in which the vertical pass filters a plane `width`
    /// columns wide: `j` columns at a time while they fit, then `k` columns at
    /// a time while they fit, then single columns.
    pub fn column_stripes(&self, width: usize, j: usize, k: usize) -> (res: Vec<Stripe>)
        requires
            j > k,
            k > 0,
        ensures
            res@ == greedy_stripes(0, width as int, j as int, k as int),
    {
        let mut res: Vec<Stripe> = Vec::new();
        let ghost all = greedy_stripes(0, width as int, j as int, k as int);
        let mut x: usize = 0;
        while j <= width - x
            invariant
                j > k > 0,
                x <= width,
                res@ + greedy_stripes(x as int, width as int, j as int, k as int) == all,
            decreases width - x,
        {
            let ghost before = res@;
            res.push(Stripe { x, cols: j });
            proof {
                let rest = greedy_stripes(x + j, width as int, j as int, k as int);
                assert(greedy_stripes(x as int, width as int, j as int, k as int) == seq![
                    Stripe { x, cols: j },
                ] + rest);
                assert(res@ + rest =~= before + (seq![Stripe { x, cols: j }] + rest));
            }
            x = x + j;
        }
        while k <= width - x
            invariant
                j > k > 0,
                x <= width,
                x + j > width,
                res@ + greedy_stripes(x as int, width as int, j as int, k as int) == all,
            decreases width - x,
        {
            let ghost before = res@;
            res.push(Stripe { x, cols: k });
            proof {
                let rest = greedy_stripes(x + k, width as int, j as int, k as int);
                assert(greedy_stripes(x as int, width as int, j as int, k as int) == seq![
                    Stripe { x, cols: k },
                ] + rest);
                assert(res@ + rest =~= before + (seq![Stripe { x, cols: k }] + rest));
            }
            x = x + k;
        }
        while x < width
            invariant
                j > k > 0,
                x <= width,
                x + j > width,
                x + k > width,
                res@ + greedy_stripes(x as int, width as int, j as int, k as int) == all,
            decreases width - x,
        {
            let ghost before = res@;
            res.push(Stripe { x, cols: 1 });
            proof {
                let rest = greedy_stripes(x + 1, width as int, j as int, k as int);
                assert(greedy_stripes(x as int, width as int, j as int, k as int) == seq![
                    Stripe { x, cols: 1 },
                ] + rest);
                assert(res@ + rest =~= before + (seq![Stripe { x, cols: 1 }] + rest));
            }
            x = x + 1;
        }
        assert(greedy_stripes(x as int, width as int, j as int, k as int) =~= Seq::<Stripe>::empty());
        assert(res@ =~= all);
        res
    }

    /// Gathers output row `y` from the per-stripe buffers: the sample at
    /// column `stripes[i].x + c` is sample `y * stripes[i].cols + c` of buffer
    /// `i`, which is where a pass writing directly into the row-major plane
    /// would have put it.
    pub fn stripe_row<T: Copy>(
        &self,
        stripes: &Vec<Stripe>,
        bufs: &Vec<Vec<T>>,
        width: usize,
        height: usize,
        y: usize,
    ) -> (row: Vec<T>)
        requires
            tiles(stripes@, width as int),
            bufs@.len() == stripes@.len(),
            forall|i: int|
                0 <= i < stripes@.len() ==> #[trigger] bufs@[i]@.len() == stripes@[i].cols * height,
            y < height,
        ensures
            row@.len() == width,
            forall|i: int, c: int|
                0 <= i < stripes@.len() && 0 <= c < stripes@[i].cols ==> row@[stripes@[i].x + c]
                    == #[trigger] stripe_sample(bufs@, stripes@, y as int, i, c) && stripe_sample(
                    bufs@,
                    stripes@,
                    y as int,
                    i,
                    c,
                ) == bufs@[i]@[y * stripes@[i].cols + c],
    {
        proof {
            lemma_tiling_bounds(stripes@, 0, width as int);
        }
        let n = stripes.len();
        let mut row: Vec<T> = Vec::with_capacity(width);
        let mut i: usize = 0;
        while i < n
            invariant
                n == stripes@.len(),
                tiles(stripes@, width as int),
                bufs@.len() == stripes@.len(),
                forall|i2: int|
                    0 <= i2 < stripes@.len() ==> #[trigger] bufs@[i2]@.len() == stripes@[i2].cols
                        * height,
                y < height,
                i <= n,
                forall|i2: int| 0 <= i2 < n ==> #[trigger] stripes@[i2].x == stripe_start(stripes@, 0, i2),
                forall|i2: int| 0 <= i2 < n ==> #[trigger] stripes@[i2].x + stripes@[i2].cols <= width,
                n > 0 ==> stripe_start(stripes@, 0, n as int) == width,
                n == 0 ==> width == 0,
                row@.len() == stripe_start(stripes@, 0, i as int),
                forall|i2: int, c: int|
                    0 <= i2 < i && 0 <= c < stripes@[i2].cols ==> row@[stripes@[i2].x + c]
                        == #[trigger] stripe_sample(bufs@, stripes@, y as int, i2, c),
            decreases n - i,
        {
            let s = stripes[i];
            let buf = &bufs[i];
            assert(buf@.len() == s.cols * height);
            assert(y * s.cols + s.cols <= s.cols * height) by (nonlinear_arith)
                requires
                    y < height,
                    s.cols >= 0,
            ;
            let blen = buf.len();
            assert(y * s.cols <= blen);
            let base = y * s.cols;
            let ghost before = row@;
            let mut c: usize = 0;
            while c < s.cols
                invariant
                    i < stripes@.len(),
                    blen == buf@.len(),
                    s == stripes@[i as int],
                    buf@ == bufs@[i as int]@,
                    buf@.len() == s.cols * height,
                    base == y * s.cols,
                    base + s.cols <= buf@.len(),
                    c <= s.cols,
                    row@.len() == before.len() + c,
                    forall|k: int| 0 <= k < before.len() ==> row@[k] == before[k],
                    forall|k: int|
                        before.len() <= k < before.len() + c ==> #[trigger] row@[k] == buf@[base + (k
                            - before.len())],
                decreases s.cols - c,
            {
                row.push(buf[base + c]);
                c = c + 1;
            }
            assert forall|i2: int, c2: int|
                0 <= i2 < i + 1 && 0 <= c2 < stripes@[i2].cols implies row@[stripes@[i2].x + c2]
                == #[trigger] stripe_sample(bufs@, stripes@, y as int, i2, c2) by {
                if i2 < i {
                    assert(stripes@[i2].x + c2 < before.len()) by {
                        assert(stripes@[i2].x + stripes@[i2].cols <= stripe_start(stripes@, 0, i as int)) by {
                            lemma_start_monotone(stripes@, i2 + 1, i as int);
                        }
                    }
                    assert(row@[stripes@[i2].x + c2] == before[stripes@[i2].x + c2]);
                } else {
                    assert(stripes@[i2].x == before.len());
                    assert(row@[before.len() + c2] == buf@[base + ((before.len() + c2) - before.len())]);
                }
            }
            i = i + 1;
        }
        row
    }
}

/// Positions touched by one step of a recursive scan over a line of `len`
/// samples.
#[derive(Clone, Copy, Debug, PartialEq, Eq, Structural)]
pub struct Taps {
    /// The sample entering the window from behind, if inside the line.
    pub left: Option<usize>,
    /// The sample entering the window ahead, if inside the line.
    pub right: Option<usize>,
    /// The output position written by this step, once the scan has warmed up.
    pub out: Option<usize>,
}

impl RecursiveGaussian {
    /// Number of steps of a recursive scan with window radius `radius` over a
    /// line of `len` samples: the scan starts `radius - 1` steps before the
    /// first sample so that its state is warm when output begins.
    pub fn scan_steps(&self, radius: usize, len: usize) -> (n: usize)
        requires
            radius >= 1,
            len + radius <= usize::MAX,
        ensures
            n == len + radius - 1,
    {
        len + radius - 1
    }

    /// The positions of step `step` of a recursive scan: the trailing tap
    /// `2 * radius` samples behind the leading one, the leading tap, and the
    /// output position `radius - 1` behind the leading tap; taps outside the
    /// line read as absent (zero), and no output is written while warming up.
    /// Every position returned lies inside the line.
    pub fn scan_taps(&self, step: usize, radius: usize, len: usize) -> (t: Taps)
        requires
            radius >= 1,
            len + radius <= usize::MAX,
            step < len + radius - 1,
        ensures
            t.left == (if step >= 2 * radius {
                Some((step - 2 * radius) as usize)
            } else {
                None::<usize>
            }),
            t.right == (if step < len {
                Some(step)
            } else {
                None::<usize>
            }),
            t.out == scan_out(step as int, radius as int),
            t.left matches Some(i) ==> i < len,
            t.right matches Some(i) ==> i < len,
            t.out matches Some(i) ==> i < len,
    {
        let left = if step / 2 >= radius {
            Some(step - 2 * radius)
        } else {
            None
        };
        let right = if step < len {
            Some(step)
        } else {
            None
        };
        let out = if step + 1 >= radius {
            Some(step + 1 - radius)
        } else {
            None
        };
        Taps { left, right, out }
    }
}

/// The output position written by step `step` of a scan with window radius
/// `radius`: none while warming up, then `radius - 1` behind the leading tap.
pub open spec fn scan_out(step: int, radius: int) -> Option<usize> {
    if step + 1 >= radius {
        Some((step + 1 - radius) as usize)
    } else {
        None::<usize>
    }
}

/// Every sample of a line is written by exactly one step of the scan: among
/// the steps of a scan over `len` samples, the output position that
/// `scan_taps` reports is `p` for step `p + radius - 1` and for no other.
pub proof fn law_scan_writes_each_position_once(radius: usize, len: usize, p: usize)
    requires
        radius >= 1,
        len + radius <= usize::MAX,
        p < len,
    ensures
        p + radius - 1 < len + radius - 1,
        scan_out(p + radius - 1, radius as int) == Some(p),
        forall|s: int|
            0 <= s < len + radius - 1 && #[trigger] scan_out(s, radius as int) == Some(p) ==> s
                == p + radius - 1,
{
}

/// Stripe starts never decrease along a tiling.
proof fn lemma_start_monotone(s: Seq<Stripe>, a: int, b: int)
    requires
        0 <= a <= b <= s.len(),
    ensures
        stripe_start(s, 0, a) <= stripe_start(s, 0, b),
    decreases b - a,
{
    if a < b {
        lemma_start_monotone(s, a, b - 1);
    }
}

} // verus!
