use image_loader::session::frame_delay_nanos;
use image_loader::sniff::{sniff_format, FormatClass, SNIFF_PREFIX_LEN};

fn padded(prefix: &[u8]) -> Vec<u8> {
    let mut p = prefix.to_vec();
    p.resize(SNIFF_PREFIX_LEN, 0);
    p
}

#[test]
fn gif89a_prefix_is_animated() {
    let p = padded(b"GIF89a");
    assert!(matches!(sniff_format(Some(&p)), FormatClass::Animated));
}

#[test]
fn gif87a_prefix_is_animated() {
    let p = padded(b"GIF87a");
    assert!(matches!(sniff_format(Some(&p)), FormatClass::Animated));
}

#[test]
fn png_prefix_is_single_frame() {
    let p = padded(b"\x89PNG\r\n\x1a\n");
    assert!(matches!(sniff_format(Some(&p)), FormatClass::SingleFrame));
}

#[test]
fn truncated_gif_signature_is_single_frame() {
    // Five bytes of signature only: not a GIF signature.
    assert!(matches!(sniff_format(Some(b"GIF89")), FormatClass::SingleFrame));
}

#[test]
fn unreadable_prefix_is_single_frame() {
    assert!(matches!(sniff_format(None), FormatClass::SingleFrame));
}

#[test]
fn arbitrary_text_is_single_frame() {
    let p = padded(b"hello, this is not an image at all");
    assert!(matches!(sniff_format(Some(&p)), FormatClass::SingleFrame));
}

#[test]
fn frame_delay_divides_milliseconds_into_nanoseconds() {
    assert_eq!(frame_delay_nanos(100, 10), 10_000_000);
    assert_eq!(frame_delay_nanos(40, 1), 40_000_000);
    assert_eq!(frame_delay_nanos(1, 3), 333_333);
    assert_eq!(frame_delay_nanos(0, 5), 0);
    assert_eq!(frame_delay_nanos(u32::MAX, 1), 4_294_967_295_000_000);
}

#[test]
fn zero_denominator_means_no_delay() {
    assert_eq!(frame_delay_nanos(123, 0), 0);
    assert_eq!(frame_delay_nanos(0, 0), 0);
}
