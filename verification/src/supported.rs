//! The file-type recognition surface consumed by the file picker:
//! which file names the loader accepts, decided case-insensitively on
//! the extension of the path's final component.

use vstd::prelude::*;
use vstd::string::{StrSliceExecFns, StringSliceAdditionalSpecFns};

verus! {

/// ASCII lowercasing of one byte.
pub open spec fn lower_byte(b: u8) -> u8 {
    if 65u8 <= b && b <= 90u8 {
        (b + 32) as u8
    } else {
        b
    }
}

/// Bytewise ASCII lowercasing.
pub open spec fn lower_bytes(s: Seq<u8>) -> Seq<u8> {
    s.map_values(|b: u8| lower_byte(b))
}

/// Index of the last occurrence of `b` in `s`, or `-1` if absent.
pub open spec fn last_index_of(s: Seq<u8>, b: u8) -> int
    decreases s.len(),
{
    if s.len() == 0 {
        -1
    } else if s[s.len() - 1] == b {
        s.len() - 1
    } else {
        last_index_of(s.drop_last(), b)
    }
}

/// `e` spells the three lowercase letters `a`, `b`, `c`.
pub open spec fn ext3(e: Seq<u8>, a: u8, b: u8, c: u8) -> bool {
    e.len() == 3 && e[0] == a && e[1] == b && e[2] == c
}

/// `e` spells the four lowercase letters `a`, `b`, `c`, `d`.
pub open spec fn ext4(e: Seq<u8>, a: u8, b: u8, c: u8, d: u8) -> bool {
    e.len() == 4 && e[0] == a && e[1] == b && e[2] == c && e[3] == d
}

/// The fixed allow-list, over lowercased extension bytes (spelled as
/// ASCII codes, the letters beside each line).
pub open spec fn is_allowed_ext(e: Seq<u8>) -> bool {
    ||| ext3(e, 106u8, 112u8, 103u8)  // jpg
    ||| ext4(e, 106u8, 112u8, 101u8, 103u8)  // jpeg
    ||| ext3(e, 112u8, 110u8, 103u8)  // png
    ||| ext3(e, 103u8, 105u8, 102u8)  // gif
    ||| ext4(e, 119u8, 101u8, 98u8, 112u8)  // webp
    ||| ext3(e, 116u8, 105u8, 102u8)  // tif
    ||| ext4(e, 116u8, 105u8, 102u8, 102u8)  // tiff
    ||| ext3(e, 116u8, 103u8, 97u8)  // tga
    ||| ext3(e, 98u8, 109u8, 112u8)  // bmp
    ||| ext3(e, 105u8, 99u8, 111u8)  // ico
    ||| ext3(e, 104u8, 100u8, 114u8)  // hdr
    ||| ext3(e, 112u8, 98u8, 109u8)  // pbm
    ||| ext3(e, 112u8, 97u8, 109u8)  // pam
    ||| ext3(e, 112u8, 112u8, 109u8)  // ppm
    ||| ext3(e, 112u8, 103u8, 109u8)  // pgm
}

fn ext_is3(e: &Vec<u8>, a: u8, b: u8, c: u8) -> (r: bool)
    ensures
        r == ext3(e@, a, b, c),
{
    e.len() == 3 && e[0] == a && e[1] == b && e[2] == c
}

fn ext_is4(e: &Vec<u8>, a: u8, b: u8, c: u8, d: u8) -> (r: bool)
    ensures
        r == ext4(e@, a, b, c, d),
{
    e.len() == 4 && e[0] == a && e[1] == b && e[2] == c && e[3] == d
}

/// Whether a path (as UTF-8 bytes) names a supported file: its final
/// `/`-separated component has an extension — a last dot that is
/// neither the component's first byte nor absent — and the lowercased
/// bytes after that dot are on the allow-list.
pub open spec fn supported_path(s: Seq<u8>) -> bool {
    let dot = last_index_of(s, 46u8);
    let name_start = last_index_of(s, 47u8) + 1;
    &&& dot > name_start
    &&& is_allowed_ext(lower_bytes(s.subrange(dot + 1, s.len() as int)))
}

fn to_lower(b: u8) -> (r: u8)
    ensures
        r == lower_byte(b),
{
    if b >= 65u8 && b <= 90u8 {
        b + 32
    } else {
        b
    }
}

fn find_last(v: &Vec<u8>, b: u8) -> (r: Option<usize>)
    ensures
        match r {
            Some(i) => i < v@.len() && last_index_of(v@, b) == i,
            None => last_index_of(v@, b) == -1,
        },
{
    let mut i: usize = v.len();
    proof {
        assert(v@.take(v@.len() as int) =~= v@);
    }
    while i > 0
        invariant
            i <= v@.len(),
            last_index_of(v@, b) == last_index_of(v@.take(i as int), b),
        decreases i,
    {
        i = i - 1;
        if v[i] == b {
            proof {
                assert(v@.take(i + 1).len() == i + 1);
                assert(v@.take(i + 1)[i as int] == v@[i as int]);
            }
            return Some(i);
        }
        proof {
            assert(v@.take(i + 1)[i as int] == v@[i as int]);
            assert(v@.take(i + 1).drop_last() =~= v@.take(i as int));
        }
    }
    proof {
        assert(v@.take(0).len() == 0);
    }
    None
}

/// Whether the loader accepts this file name: true exactly for the
/// fixed, case-insensitive extension allow-list (jpg, jpeg, png, gif,
/// webp, tif, tiff, tga, bmp, ico, hdr, pbm, pam, ppm, pgm).
#[verifier::loop_isolation(false)]
pub fn is_file_supported(filename: &str) -> (r: bool)
    ensures
        r == supported_path(filename.spec_bytes()),
{
    let bytes: Vec<u8> = filename.as_bytes_vec();
    let blen: usize = bytes.len();
    let dot = find_last(&bytes, 46u8);
    let slash = find_last(&bytes, 47u8);
    let d: usize = match dot {
        None => {
            return false;
        },
        Some(d) => d,
    };
    let ns: usize = match slash {
        None => 0,
        Some(s) => s + 1,
    };
    if d <= ns {
        return false;
    }
    let mut e: Vec<u8> = Vec::new();
    let mut k: usize = d + 1;
    while k < bytes.len()
        invariant
            d + 1 <= k <= bytes@.len(),
            e@ == lower_bytes(bytes@.subrange(d + 1, k as int)),
        decreases bytes@.len() - k,
    {
        e.push(to_lower(bytes[k]));
        k = k + 1;
        proof {
            assert(bytes@.subrange(d + 1, k as int).drop_last() =~= bytes@.subrange(
                d + 1,
                k - 1,
            ));
            assert(lower_bytes(bytes@.subrange(d + 1, k as int)) =~= lower_bytes(
                bytes@.subrange(d + 1, k - 1),
            ).push(lower_byte(bytes@[k - 1])));
        }
    }
    proof {
        assert(bytes@.subrange(d + 1, bytes@.len() as int) =~= bytes@.subrange(
            d + 1,
            k as int,
        ));
    }
    let ok = ext_is3(&e, 106u8, 112u8, 103u8)  // jpg
        || ext_is4(&e, 106u8, 112u8, 101u8, 103u8)  // jpeg
        || ext_is3(&e, 112u8, 110u8, 103u8)  // png
        || ext_is3(&e, 103u8, 105u8, 102u8)  // gif
        || ext_is4(&e, 119u8, 101u8, 98u8, 112u8)  // webp
        || ext_is3(&e, 116u8, 105u8, 102u8)  // tif
        || ext_is4(&e, 116u8, 105u8, 102u8, 102u8)  // tiff
        || ext_is3(&e, 116u8, 103u8, 97u8)  // tga
        || ext_is3(&e, 98u8, 109u8, 112u8)  // bmp
        || ext_is3(&e, 105u8, 99u8, 111u8)  // ico
        || ext_is3(&e, 104u8, 100u8, 114u8)  // hdr
        || ext_is3(&e, 112u8, 98u8, 109u8)  // pbm
        || ext_is3(&e, 112u8, 97u8, 109u8)  // pam
        || ext_is3(&e, 112u8, 112u8, 109u8)  // ppm
        || ext_is3(&e, 112u8, 103u8, 109u8);  // pgm
    ok
}

} // verus!
