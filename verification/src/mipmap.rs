//! Mipmap sizing for the texture converter: how many mipmap levels the
//! GPU texture of a decoded image gets, derived from its dimensions and
//! capped at four.

use vstd::prelude::*;

verus! {

/// `floor(log2(n))` for `n >= 1`; `0` below `2`.
pub open spec fn floor_log2(n: int) -> int
    decreases n,
{
    if n < 2 {
        0
    } else {
        1 + floor_log2(n / 2)
    }
}

pub proof fn lemma_floor_log2_nonneg(n: int)
    ensures
        floor_log2(n) >= 0,
    decreases n,
{
    if n >= 2 {
        lemma_floor_log2_nonneg(n / 2);
    }
}

pub proof fn lemma_floor_log2_below(n: int)
    requires
        n >= 1,
    ensures
        floor_log2(n) < n,
    decreases n,
{
    if n >= 2 {
        lemma_floor_log2_below(n / 2);
    }
}

/// `floor(log2(x))`, by repeated halving.
pub fn floor_log2_u32(x: u32) -> (r: u32)
    requires
        1 <= x,
    ensures
        r == floor_log2(x as int),
{
    let mut n: u32 = x;
    let mut l: u32 = 0;
    while n >= 2
        invariant
            1 <= n <= x,
            l + floor_log2(n as int) == floor_log2(x as int),
        decreases n,
    {
        proof {
            lemma_floor_log2_nonneg(n as int / 2);
            lemma_floor_log2_below(x as int);
        }
        n = n / 2;
        l = l + 1;
    }
    l
}

/// The computed mipmap cap of an image: the smaller dimension's
/// `floor(log2(..))`, itself capped at `4`.
pub open spec fn mipmap_cap(width: int, height: int) -> int {
    let wl = floor_log2(width);
    let hl = floor_log2(height);
    let m = if wl <= hl {
        wl
    } else {
        hl
    };
    if m <= 4 {
        m
    } else {
        4
    }
}

/// The mipmap cap `min(floor(log2(width)), floor(log2(height)), 4)`.
pub fn max_mipmap_count(width: u32, height: u32) -> (count: u32)
    requires
        1 <= width,
        1 <= height,
    ensures
        count == mipmap_cap(width as int, height as int),
{
    let wl = floor_log2_u32(width);
    let hl = floor_log2_u32(height);
    let m = if wl <= hl {
        wl
    } else {
        hl
    };
    if m <= 4 {
        m
    } else {
        4
    }
}

/// What the texture converter asks of the GPU: no mipmaps at all, or
/// auto-generated mipmaps up to the given cap.
#[derive(Clone, Copy, PartialEq, Eq, Structural, Debug)]
pub enum MipmapSetting {
    NoMipmap,
    AutoGeneratedMax(u32),
}

/// Chooses the mipmap setting for an image: mipmapping is disabled when
/// the computed cap is exactly one, and otherwise auto-generation up to
/// the cap is requested.
pub fn mipmap_setting(width: u32, height: u32) -> (s: MipmapSetting)
    requires
        1 <= width,
        1 <= height,
    ensures
        mipmap_cap(width as int, height as int) == 1 ==> s is NoMipmap,
        mipmap_cap(width as int, height as int) != 1 ==> (s matches MipmapSetting::AutoGeneratedMax(c)
            && c == mipmap_cap(width as int, height as int)),
{
    let c = max_mipmap_count(width, height);
    if c == 1 {
        MipmapSetting::NoMipmap
    } else {
        MipmapSetting::AutoGeneratedMax(c)
    }
}

/// The level count a texture ends up with: the computed cap, and a
/// single (base) level wherever the cap would fall below one.
pub fn mipmap_level_count(width: u32, height: u32) -> (levels: u32)
    requires
        1 <= width,
        1 <= height,
    ensures
        mipmap_cap(width as int, height as int) <= 1 ==> levels == 1,
        mipmap_cap(width as int, height as int) > 1 ==> levels == mipmap_cap(width as int, height as int),
{
    let c = max_mipmap_count(width, height);
    if c <= 1 {
        1
    } else {
        c
    }
}

} // verus!
