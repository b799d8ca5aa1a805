use exif::tag::{EXIF_IFD_POINTER, GPS_INFO_IFD_POINTER, INTEROP_IFD_POINTER};
use exif::{is_tiff, BigEndian, Context, Endian, LittleEndian, Tag};

#[test]
fn signature_of_either_byte_order() {
    assert!(is_tiff(b"MM\0\x2a"));
    assert!(is_tiff(b"II\x2a\0"));
    assert!(is_tiff(b"MM\0\x2a\0\0\0\x08"));
    assert!(is_tiff(b"II\x2a\0 and anything after it"));
}

#[test]
fn other_starts_are_no_signature() {
    assert!(!is_tiff(b""));
    assert!(!is_tiff(b"MM\0"));
    assert!(!is_tiff(b"II\x2a"));
    assert!(!is_tiff(b"MM\x2a\0"));
    assert!(!is_tiff(b"II\0\x2a"));
    assert!(!is_tiff(b"MI\0\x2a"));
    assert!(!is_tiff(b"IM\x2a\0"));
    assert!(!is_tiff(b"\0MM\0\x2a"));
    assert!(!is_tiff(b"MM\0\x2b"));
    assert!(!is_tiff(b"\xff\xd8\xff\xe1"));
}

#[test]
fn integers_in_big_endian() {
    let data = [0x01u8, 0x02, 0x03, 0x04, 0x05, 0x06, 0x07, 0x08, 0xff];
    assert_eq!(BigEndian::loadu16(&data, 0), 0x0102);
    assert_eq!(BigEndian::loadu16(&data, 7), 0x08ff);
    assert_eq!(BigEndian::loadu32(&data, 0), 0x0102_0304);
    assert_eq!(BigEndian::loadu32(&data, 5), 0x0607_08ff);
    assert_eq!(BigEndian::loadu64(&data, 0), 0x0102_0304_0506_0708);
    assert_eq!(BigEndian::loadu64(&data, 1), 0x0203_0405_0607_08ff);
    assert_eq!(BigEndian::loadu16(&[0xff, 0xff], 0), 0xffff);
    assert_eq!(BigEndian::loadu32(&[0xff; 4], 0), 0xffff_ffff);
    assert_eq!(BigEndian::loadu64(&[0xff; 8], 0), u64::MAX);
}

#[test]
fn integers_in_little_endian() {
    let data = [0x01u8, 0x02, 0x03, 0x04, 0x05, 0x06, 0x07, 0x08, 0xff];
    assert_eq!(LittleEndian::loadu16(&data, 0), 0x0201);
    assert_eq!(LittleEndian::loadu16(&data, 7), 0xff08);
    assert_eq!(LittleEndian::loadu32(&data, 0), 0x0403_0201);
    assert_eq!(LittleEndian::loadu32(&data, 5), 0xff08_0706);
    assert_eq!(LittleEndian::loadu64(&data, 0), 0x0807_0605_0403_0201);
    assert_eq!(LittleEndian::loadu64(&data, 1), 0xff08_0706_0504_0302);
    assert_eq!(LittleEndian::loadu16(&[0xff, 0xff], 0), 0xffff);
    assert_eq!(LittleEndian::loadu32(&[0xff; 4], 0), 0xffff_ffff);
    assert_eq!(LittleEndian::loadu64(&[0xff; 8], 0), u64::MAX);
}

#[test]
fn pointer_tags_of_the_primary_context() {
    assert_eq!(EXIF_IFD_POINTER, 0x8769);
    assert_eq!(GPS_INFO_IFD_POINTER, 0x8825);
    assert_eq!(INTEROP_IFD_POINTER, 0xa005);
    assert_eq!(Tag(Context::Tiff, 0x8769).child_context(), Some(Context::Exif));
    assert_eq!(Tag(Context::Tiff, 0x8825).child_context(), Some(Context::Gps));
    assert_eq!(Tag(Context::Tiff, 0xa005).child_context(), Some(Context::Interop));
    assert_eq!(Tag(Context::Tiff, 0x0112).child_context(), None);
    assert_eq!(Tag(Context::Tiff, 0).child_context(), None);
    for ctx in [Context::Exif, Context::Gps, Context::Interop] {
        for number in [0x8769u16, 0x8825, 0xa005, 0x0112] {
            assert_eq!(Tag(ctx, number).child_context(), None);
        }
    }
}

#[test]
fn parts_of_a_tag() {
    let tag = Tag(Context::Gps, 0x001d);
    assert_eq!(tag.context(), Context::Gps);
    assert_eq!(tag.number(), 0x001d);
    assert_eq!(tag, Tag(Context::Gps, 0x001d));
    assert_ne!(tag, Tag(Context::Exif, 0x001d));
    assert_ne!(tag, Tag(Context::Gps, 0x001e));
}
