//! Per-pixel accumulation counters and whole-buffer sums.
//!
//! A pixel holds three channel counters driven by the same escape-count
//! signal, so the three stay equal whenever they start equal. Counters
//! saturate at `u32::MAX` instead of wrapping, which keeps buffer addition
//! total, commutative and associative.

use vstd::prelude::*;

verus! {

/// One pixel of the histogram: three unsigned accumulation counters.
#[derive(Clone, Copy, PartialEq, Eq, Structural, Debug)]
pub struct Pixel {
    pub r: u32,
    pub g: u32,
    pub b: u32,
}

/// Counter addition, sticking at `u32::MAX`.
pub open spec fn sat_add_spec(a: u32, b: u32) -> u32 {
    if a + b > u32::MAX {
        u32::MAX
    } else {
        (a + b) as u32
    }
}

/// Elementwise saturating sum of two pixels.
pub open spec fn pix_add(a: Pixel, b: Pixel) -> Pixel {
    Pixel { r: sat_add_spec(a.r, b.r), g: sat_add_spec(a.g, b.g), b: sat_add_spec(a.b, b.b) }
}

/// A pixel with one more count on every channel.
pub open spec fn pix_bump(p: Pixel) -> Pixel {
    pix_add(p, Pixel { r: 1, g: 1, b: 1 })
}

/// The largest of the three channel counters.
pub open spec fn pix_max_spec(p: Pixel) -> u32 {
    if p.r >= p.g && p.r >= p.b {
        p.r
    } else if p.g >= p.b {
        p.g
    } else {
        p.b
    }
}

impl Pixel {
    /// Elementwise saturating sum.
    pub fn add(self, other: Pixel) -> (sum: Pixel)
        ensures
            sum == pix_add(self, other),
    {
        Pixel {
            r: self.r.saturating_add(other.r),
            g: self.g.saturating_add(other.g),
            b: self.b.saturating_add(other.b),
        }
    }

    /// Elementwise saturating sum, in place.
    pub fn add_assign(&mut self, other: &Pixel)
        ensures
            *final(self) == pix_add(*old(self), *other),
    {
        self.r = self.r.saturating_add(other.r);
        self.g = self.g.saturating_add(other.g);
        self.b = self.b.saturating_add(other.b);
    }

    /// The largest channel counter of this pixel.
    pub fn max(&self) -> (m: u32)
        ensures
            m == pix_max_spec(*self),
    {
        let gb = if self.g >= self.b {
            self.g
        } else {
            self.b
        };
        if self.r >= gb {
            self.r
        } else {
            gb
        }
    }

    /// One more count on every channel.
    pub fn bump(self) -> (p: Pixel)
        ensures
            p == pix_bump(self),
    {
        self.add(Pixel { r: 1, g: 1, b: 1 })
    }
}

/// Elementwise sum of two buffers of the same length.
pub open spec fn buf_add(a: Seq<Pixel>, b: Seq<Pixel>) -> Seq<Pixel>
    recommends
        a.len() == b.len(),
{
    Seq::new(a.len(), |i: int| pix_add(a[i], b[i]))
}

/// Pixel addition is commutative.
pub proof fn lemma_pix_add_commutative(a: Pixel, b: Pixel)
    ensures
        pix_add(a, b) == pix_add(b, a),
{
}

/// Pixel addition is associative.
pub proof fn lemma_pix_add_associative(a: Pixel, b: Pixel, c: Pixel)
    ensures
        pix_add(pix_add(a, b), c) == pix_add(a, pix_add(b, c)),
{
}

/// Buffer reduction is commutative: summing two worker buffers in either
/// order yields the same buffer.
pub proof fn lemma_buf_add_commutative(a: Seq<Pixel>, b: Seq<Pixel>)
    requires
        a.len() == b.len(),
    ensures
        buf_add(a, b) == buf_add(b, a),
{
    assert(buf_add(a, b) =~= buf_add(b, a));
}

/// Buffer reduction is associative: grouping worker buffers either way yields
/// the same buffer.
pub proof fn lemma_buf_add_associative(a: Seq<Pixel>, b: Seq<Pixel>, c: Seq<Pixel>)
    requires
        a.len() == b.len(),
        b.len() == c.len(),
    ensures
        buf_add(buf_add(a, b), c) == buf_add(a, buf_add(b, c)),
{
    assert(buf_add(buf_add(a, b), c) =~= buf_add(a, buf_add(b, c)));
}

} // verus!
