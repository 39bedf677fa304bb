//! The format sniffer: classifies a file's first bytes as a streaming
//! (animated) container or a single-frame format, without decoding
//! anything.

use vstd::prelude::*;

verus! {

/// How many bytes of the file the sniffer is handed at most.
pub const SNIFF_PREFIX_LEN: usize = 512;

/// The bytes begin with a GIF signature: `GIF87a` or `GIF89a`.
pub open spec fn is_gif_signature(s: Seq<u8>) -> bool {
    &&& s.len() >= 6
    &&& s[0] == 0x47u8
    &&& s[1] == 0x49u8
    &&& s[2] == 0x46u8
    &&& s[3] == 0x38u8
    &&& (s[4] == 0x37u8 || s[4] == 0x39u8)
    &&& s[5] == 0x61u8
}

/// How the sniffer classifies a file.
#[derive(Clone, Copy, PartialEq, Eq, Structural, Debug)]
pub enum FormatClass {
    /// A streaming, multi-frame container (GIF): decoded frame by
    /// frame.
    Animated,
    /// Anything else: decoded in one piece.
    SingleFrame,
}

/// Relies on `image::guess_format`: its magic-byte table maps a buffer
/// to `ImageFormat::Gif` exactly for the two entries `GIF87a` and
/// `GIF89a`, matched as prefixes, and no other entry of the table can
/// match a buffer that starts with either.
#[verifier::external_body]
fn guessed_gif(prefix: &[u8]) -> (r: bool)
    ensures
        r == is_gif_signature(prefix@),
{
    matches!(image::guess_format(prefix), Ok(image::ImageFormat::Gif))
}

/// Classifies a file from its first bytes. `prefix` is `None` where
/// the file could not be opened or held fewer bytes than the sniffing
/// window: classification never fails, it falls back to the
/// single-frame path.
pub fn sniff_format(prefix: Option<&[u8]>) -> (r: FormatClass)
    ensures
        r is Animated <==> (prefix matches Some(p) && is_gif_signature(p@)),
{
    match prefix {
        Some(p) => if guessed_gif(p) {
            FormatClass::Animated
        } else {
            FormatClass::SingleFrame
        },
        None => FormatClass::SingleFrame,
    }
}

} // verus!
