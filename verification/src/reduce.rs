//! The reducer: elementwise summation of the workers' private histogram
//! buffers, the global maximum count, and linear normalization to 8-bit RGBA.

use vstd::prelude::*;
use vstd::arithmetic::div_mod::lemma_fundamental_div_mod_converse;
use crate::pixel::{buf_add, lemma_buf_add_associative, lemma_buf_add_commutative, pix_add, pix_max_spec, Pixel};

verus! {

/// The elementwise sum of a sequence of equal-length buffers; the sum of a
/// single buffer is that buffer.
pub open spec fn sum_bufs(bufs: Seq<Seq<Pixel>>) -> Seq<Pixel>
    recommends
        bufs.len() >= 1,
    decreases bufs.len(),
{
    if bufs.len() == 0 {
        Seq::empty()
    } else if bufs.len() == 1 {
        bufs[0]
    } else {
        buf_add(sum_bufs(bufs.drop_last()), bufs.last())
    }
}

/// The largest channel counter anywhere in the buffer, and at least 1 so the
/// normalization never divides by zero.
pub open spec fn buf_max(buf: Seq<Pixel>) -> u32
    decreases buf.len(),
{
    if buf.len() == 0 {
        1u32
    } else {
        let rest = buf_max(buf.drop_last());
        if pix_max_spec(buf.last()) >= rest {
            pix_max_spec(buf.last())
        } else {
            rest
        }
    }
}

/// A channel counter normalized linearly to 8 bits: `v * 255 / m` rounded
/// half up, clamped to `[0, 255]`.
pub open spec fn norm_channel(v: u32, m: u32) -> u8
    recommends
        m >= 1,
{
    let s = ((v as int) * 510 + (m as int)) / (2 * (m as int));
    if s > 255 {
        255u8
    } else {
        s as u8
    }
}

/// The RGBA bytes of a normalized buffer: four bytes per pixel, row-major,
/// the three counters scaled by `255 / m` and a constant full-opacity alpha.
pub open spec fn rgba_of(buf: Seq<Pixel>, m: u32) -> Seq<u8>
    recommends
        m >= 1,
{
    Seq::new(
        4 * buf.len(),
        |i: int|
            {
                let p = buf[i / 4];
                if i % 4 == 0 {
                    norm_channel(p.r, m)
                } else if i % 4 == 1 {
                    norm_channel(p.g, m)
                } else if i % 4 == 2 {
                    norm_channel(p.b, m)
                } else {
                    255u8
                }
            },
    )
}

/// The global maximum is at least 1 and dominates every pixel of the buffer.
pub proof fn lemma_buf_max_bounds(buf: Seq<Pixel>)
    ensures
        1 <= buf_max(buf),
        forall|i: int| 0 <= i < buf.len() ==> #[trigger] pix_max_spec(buf[i]) <= buf_max(buf),
    decreases buf.len(),
{
    if buf.len() > 0 {
        lemma_buf_max_bounds(buf.drop_last());
        assert(forall|i: int|
            0 <= i < buf.len() - 1 ==> buf.drop_last()[i] == buf[i]);
    }
}

/// Normalized channel values lie in `[0, 255]`, and a channel that attains
/// the global maximum normalizes to exactly 255.
pub proof fn lemma_normalization_peak(v: u32, m: u32)
    requires
        1 <= m,
    ensures
        norm_channel(v, m) <= 255,
        v == m ==> norm_channel(v, m) == 255,
{
    if v == m {
        assert(511 * (m as int) == 255 * (2 * (m as int)) + (m as int));
        lemma_fundamental_div_mod_converse(511 * (m as int), 2 * (m as int), 255, m as int);
        assert((v as int) * 510 + (m as int) == 511 * (m as int));
    }
}

/// A pixel that attains the global maximum count renders at full intensity:
/// one of its three channel bytes is exactly 255, and every channel byte of
/// every pixel stays within `[0, 255]`.
pub proof fn lemma_peak_pixel_is_white(buf: Seq<Pixel>, i: int)
    requires
        0 <= i < buf.len(),
        pix_max_spec(buf[i]) == buf_max(buf),
    ensures
        rgba_of(buf, buf_max(buf))[4 * i] == 255 || rgba_of(buf, buf_max(buf))[4 * i + 1] == 255
            || rgba_of(buf, buf_max(buf))[4 * i + 2] == 255,
{
    let m = buf_max(buf);
    lemma_buf_max_bounds(buf);
    lemma_normalization_peak(buf[i].r, m);
    lemma_normalization_peak(buf[i].g, m);
    lemma_normalization_peak(buf[i].b, m);
    assert((4 * i) / 4 == i && (4 * i) % 4 == 0);
    assert((4 * i + 1) / 4 == i && (4 * i + 1) % 4 == 1);
    assert((4 * i + 2) / 4 == i && (4 * i + 2) % 4 == 2);
}

/// Elementwise saturating addition of `other` into `acc`.
pub fn add_buf(acc: &mut Vec<Pixel>, other: &Vec<Pixel>)
    requires
        old(acc).len() == other.len(),
    ensures
        final(acc)@ == buf_add(old(acc)@, other@),
{
    let ghost base = acc@;
    let mut i: usize = 0;
    while i < other.len()
        invariant
            i <= other.len(),
            acc@.len() == base.len(),
            base.len() == other@.len(),
            forall|k: int| 0 <= k < i ==> acc@[k] == pix_add(base[k], other@[k]),
            forall|k: int| i <= k < base.len() ==> acc@[k] == base[k],
        decreases other.len() - i,
    {
        let cell = acc[i];
        acc[i] = cell.add(other[i]);
        i = i + 1;
    }
    assert(acc@ =~= buf_add(base, other@));
}

/// Reduce the workers' buffers into one: the elementwise sum over all of
/// them, starting from the first. Requires one buffer per worker, all of the
/// same size.
pub fn reduce_buffers(buffers: &Vec<Vec<Pixel>>) -> (acc: Vec<Pixel>)
    requires
        buffers.len() >= 1,
        forall|i: int|
            0 <= i < buffers@.len() ==> (#[trigger] buffers@[i])@.len() == buffers@[0]@.len(),
    ensures
        acc@ == sum_bufs(buffers@.map_values(|b: Vec<Pixel>| b@)),
        acc.len() == buffers@[0]@.len(),
{
    let ghost all = buffers@.map_values(|b: Vec<Pixel>| b@);
    let first = &buffers[0];
    let mut acc: Vec<Pixel> = Vec::new();
    let mut i: usize = 0;
    while i < first.len()
        invariant
            i <= first.len(),
            first == &buffers@[0],
            buffers@.len() >= 1,
            acc@ =~= buffers@[0]@.subrange(0, i as int),
        decreases first.len() - i,
    {
        acc.push(first[i]);
        i = i + 1;
    }
    proof {
        assert(acc@ =~= all[0]);
        assert(all.subrange(0, 1) =~= seq![all[0]]);
        assert(acc@ == sum_bufs(all.subrange(0, 1)));
    }
    let mut j: usize = 1;
    while j < buffers.len()
        invariant
            1 <= j <= buffers@.len(),
            all == buffers@.map_values(|b: Vec<Pixel>| b@),
            all.len() == buffers@.len(),
            forall|k: int|
                0 <= k < buffers@.len() ==> (#[trigger] buffers@[k])@.len() == buffers@[0]@.len(),
            acc@ == sum_bufs(all.subrange(0, j as int)),
            acc@.len() == buffers@[0]@.len(),
        decreases buffers.len() - j,
    {
        proof {
            lemma_sum_len(all.subrange(0, j as int));
        }
        add_buf(&mut acc, &buffers[j]);
        proof {
            assert(all.subrange(0, j + 1).drop_last() =~= all.subrange(0, j as int));
            assert(all.subrange(0, j + 1).last() == all[j as int]);
        }
        j = j + 1;
    }
    proof {
        assert(all.subrange(0, all.len() as int) =~= all);
    }
    acc
}

/// The sum of equal-length buffers has the length of its first buffer.
pub proof fn lemma_sum_len(bufs: Seq<Seq<Pixel>>)
    requires
        bufs.len() >= 1,
    ensures
        sum_bufs(bufs).len() == bufs[0].len(),
    decreases bufs.len(),
{
    if bufs.len() > 1 {
        lemma_sum_len(bufs.drop_last());
    }
}

/// The global maximum channel count of a reduced buffer, never below 1.
pub fn max_count(buffer: &Vec<Pixel>) -> (m: u32)
    ensures
        m == buf_max(buffer@),
{
    let mut m: u32 = 1;
    let mut i: usize = 0;
    while i < buffer.len()
        invariant
            i <= buffer.len(),
            m == buf_max(buffer@.subrange(0, i as int)),
        decreases buffer.len() - i,
    {
        let pm = buffer[i].max();
        if pm > m {
            m = pm;
        }
        proof {
            assert(buffer@.subrange(0, i + 1).drop_last() =~= buffer@.subrange(0, i as int));
            assert(buffer@.subrange(0, i + 1).last() == buffer@[i as int]);
        }
        i = i + 1;
    }
    proof {
        assert(buffer@.subrange(0, buffer@.len() as int) =~= buffer@);
    }
    m
}

/// One channel counter scaled to 8 bits.
fn scale_channel(v: u32, m: u32) -> (b: u8)
    requires
        m >= 1,
    ensures
        b == norm_channel(v, m),
{
    let s: u64 = ((v as u64) * 510 + (m as u64)) / (2 * (m as u64));
    if s > 255 {
        255
    } else {
        s as u8
    }
}

/// Normalize a reduced buffer into RGBA bytes: each channel becomes
/// `v * 255 / max_cnt` rounded half up and clamped to `[0, 255]`; the alpha
/// byte is always 255.
pub fn normalize(buffer: &Vec<Pixel>, max_cnt: u32) -> (out: Vec<u8>)
    requires
        max_cnt >= 1,
    ensures
        out@ == rgba_of(buffer@, max_cnt),
{
    let mut out: Vec<u8> = Vec::new();
    let mut i: usize = 0;
    while i < buffer.len()
        invariant
            i <= buffer.len(),
            max_cnt >= 1,
            out@.len() == 4 * i,
            out@ =~= rgba_of(buffer@, max_cnt).subrange(0, 4 * i as int),
        decreases buffer.len() - i,
    {
        let p = buffer[i];
        out.push(scale_channel(p.r, max_cnt));
        out.push(scale_channel(p.g, max_cnt));
        out.push(scale_channel(p.b, max_cnt));
        out.push(255);
        proof {
            assert(out@ =~= rgba_of(buffer@, max_cnt).subrange(0, 4 * (i + 1)));
        }
        i = i + 1;
    }
    proof {
        assert(rgba_of(buffer@, max_cnt).subrange(0, 4 * buffer@.len() as int) =~= rgba_of(
            buffer@,
            max_cnt,
        ));
    }
    out
}

/// Pulling any one buffer out of a reduction: the sum of all buffers is the
/// sum of the others plus that one.
pub proof fn lemma_sum_pull_out(s: Seq<Seq<Pixel>>, j: int, len0: nat)
    requires
        s.len() >= 2,
        0 <= j < s.len(),
        forall|i: int| 0 <= i < s.len() ==> (#[trigger] s[i]).len() == len0,
    ensures
        sum_bufs(s) == buf_add(sum_bufs(s.remove(j)), s[j]),
    decreases s.len(),
{
    if j == s.len() - 1 {
        assert(s.remove(j) =~= s.drop_last());
    } else {
        let sdl = s.drop_last();
        if sdl.len() == 1 {
            assert(s.remove(j) =~= seq![s[1]]);
            assert(sum_bufs(sdl) == s[0]);
            assert(sum_bufs(s) == buf_add(s[0], s[1]));
            assert(sum_bufs(seq![s[1]]) == s[1]);
            lemma_buf_add_commutative(s[0], s[1]);
        } else {
            lemma_sum_pull_out(sdl, j, len0);
            lemma_sum_len(sdl.remove(j));
            assert(sdl.remove(j)[0].len() == len0);
            let a = sum_bufs(sdl.remove(j));
            lemma_buf_add_associative(a, s[j], s.last());
            lemma_buf_add_commutative(s[j], s.last());
            lemma_buf_add_associative(a, s.last(), s[j]);
            assert(s.remove(j).drop_last() =~= sdl.remove(j));
            assert(s.remove(j).last() == s.last());
        }
    }
}

/// Reduction is order-independent: summing the workers' buffers in any order
/// — any two sequences holding the same buffers the same number of times —
/// yields the same final buffer.
pub proof fn lemma_sum_bufs_any_order(s1: Seq<Seq<Pixel>>, s2: Seq<Seq<Pixel>>, len0: nat)
    requires
        s1.len() >= 1,
        s1.to_multiset() == s2.to_multiset(),
        forall|i: int| 0 <= i < s1.len() ==> (#[trigger] s1[i]).len() == len0,
    ensures
        sum_bufs(s1) == sum_bufs(s2),
    decreases s1.len(),
{
    broadcast use vstd::seq_lib::group_to_multiset_ensures;

    assert(s1.len() == s1.to_multiset().len());
    assert(s2.len() == s2.to_multiset().len());
    assert forall|i: int| 0 <= i < s2.len() implies (#[trigger] s2[i]).len() == len0 by {
        assert(s2.contains(s2[i]));
        assert(s2.to_multiset().count(s2[i]) > 0);
        assert(s1.contains(s2[i]));
        let k = choose|k: int| 0 <= k < s1.len() && s1[k] == s2[i];
        assert(s1[k].len() == len0);
    };
    let x = s1.last();
    assert(s1.contains(x));
    assert(s2.to_multiset().count(x) > 0);
    assert(s2.contains(x));
    let j = choose|j: int| 0 <= j < s2.len() && s2[j] == x;
    if s1.len() == 1 {
        assert(s2 =~= seq![x]);
    } else {
        assert(s1.drop_last() =~= s1.remove(s1.len() - 1));
        assert(s1.remove(s1.len() - 1).to_multiset() =~= s1.to_multiset().remove(x));
        assert(s2.remove(j).to_multiset() =~= s2.to_multiset().remove(x));
        lemma_sum_bufs_any_order(s1.drop_last(), s2.remove(j), len0);
        lemma_sum_pull_out(s2, j, len0);
    }
}

/// Reduce, find the global maximum, and normalize: the full post-collection
/// pipeline. Returns the RGBA bytes and the maximum count they were scaled
/// by.
pub fn finalize(buffers: &Vec<Vec<Pixel>>) -> (out: (Vec<u8>, u32))
    requires
        buffers.len() >= 1,
        forall|i: int|
            0 <= i < buffers@.len() ==> (#[trigger] buffers@[i])@.len() == buffers@[0]@.len(),
    ensures
        out.1 == buf_max(sum_bufs(buffers@.map_values(|b: Vec<Pixel>| b@))),
        out.0@ == rgba_of(sum_bufs(buffers@.map_values(|b: Vec<Pixel>| b@)), out.1),
        out.1 >= 1,
{
    let total = reduce_buffers(buffers);
    let m = max_count(&total);
    proof {
        lemma_buf_max_bounds(total@);
    }
    let bytes = normalize(&total, m);
    (bytes, m)
}

} // verus!
