use cem::collider::{Aabb, Collider};
use cem::encode::{count, read_seq, write_seq};
use cem::math::{Matrix4, Point2, Point3, Vector3, Vector4, INFINITY, NEG_INFINITY, NEG_ZERO, ONE, ZERO};
use cem::{Decode, Encode, Error, ErrorKind, ModelHeader, Version, MAGIC};

fn bytes_of<T: Encode>(value: &T) -> Vec<u8> {
    let mut out = Vec::new();
    value.write(&mut out).unwrap();
    out
}

#[test]
fn u32_is_written_least_significant_byte_first() {
    assert_eq!(bytes_of(&0x0403_0201u32), vec![1, 2, 3, 4]);
    assert_eq!(bytes_of(&1_000_000u32), vec![0x40, 0x42, 0x0F, 0x00]);
    assert_eq!(bytes_of(&u32::MAX), vec![0xFF, 0xFF, 0xFF, 0xFF]);
}

#[test]
fn u16_is_written_least_significant_byte_first() {
    assert_eq!(bytes_of(&0x0201u16), vec![1, 2]);
    assert_eq!(bytes_of(&1000u16), vec![0xE8, 0x03]);
}

#[test]
fn u32_is_read_least_significant_byte_first() {
    let data = [9u8, 1, 2, 3, 4, 9];
    assert_eq!(u32::read(&data, 1), Ok((0x0403_0201, 5)));
    assert_eq!(u32::read(&data, 2), Ok((0x0904_0302, 6)));
}

#[test]
fn u16_is_read_least_significant_byte_first() {
    let data = [0xE8u8, 0x03, 0x01];
    assert_eq!(u16::read(&data, 0), Ok((1000, 2)));
    assert_eq!(u16::read(&data, 1), Ok((0x0103, 3)));
}

#[test]
fn i32_is_read_as_twos_complement() {
    let minus_million = (-1_000_000i32).to_le_bytes();
    assert_eq!(i32::read(&minus_million, 0), Ok((-1_000_000, 4)));
    assert_eq!(i32::read(&[0xFF, 0xFF, 0xFF, 0xFF], 0), Ok((-1, 4)));
    assert_eq!(i32::read(&[0, 0, 0, 0x80], 0), Ok((i32::MIN, 4)));
    assert_eq!(i32::read(&[0xFF, 0xFF, 0xFF, 0x7F], 0), Ok((i32::MAX, 4)));
}

#[test]
fn u8_is_read_as_it_stands() {
    assert_eq!(u8::read(&[7, 8], 1), Ok((8, 2)));
    assert_eq!(u8::read(&[7, 8], 2), Err(Error::UnexpectedEof));
}

#[test]
fn short_input_is_a_transport_failure() {
    assert_eq!(u32::read(&[1, 2, 3], 0), Err(Error::UnexpectedEof));
    assert_eq!(u32::read(&[1, 2, 3, 4], 1), Err(Error::UnexpectedEof));
    assert_eq!(u32::read(&[1, 2, 3, 4], 100), Err(Error::UnexpectedEof));
    assert_eq!(u16::read(&[1], 0), Err(Error::UnexpectedEof));
    assert_eq!(u16::read(&[], usize::MAX), Err(Error::UnexpectedEof));
    assert_eq!(i32::read(&[1, 2, 3], 0), Err(Error::UnexpectedEof));
    assert_eq!(Error::UnexpectedEof.kind(), ErrorKind::Transport);
}

#[test]
fn pairs_and_triples_follow_each_other() {
    let data = [1u8, 0, 0, 0, 2, 0, 3, 0, 0, 0];
    assert_eq!(<(u32, u16, u32)>::read(&data, 0), Ok(((1, 2, 3), 10)));
    assert_eq!(<(u32, u16)>::read(&data, 0), Ok(((1, 2), 6)));
    assert_eq!(<(u32, u32, u32)>::read(&data, 0), Err(Error::UnexpectedEof));
    assert_eq!(bytes_of(&(1u32, 2u16, 3u32)), data.to_vec());
    assert_eq!(bytes_of(&(1u32, 2u16)), data[..6].to_vec());
}

#[test]
fn a_list_carries_its_length() {
    let list: Vec<u16> = vec![10, 20, 30];
    let bytes = bytes_of(&list);
    assert_eq!(bytes, vec![3, 0, 0, 0, 10, 0, 20, 0, 30, 0]);
    assert_eq!(Vec::<u16>::read(&bytes, 0), Ok((list, 10)));
    assert_eq!(Vec::<u16>::read(&bytes[..9], 0), Err(Error::UnexpectedEof));
    let empty: Vec<u32> = Vec::new();
    assert_eq!(bytes_of(&empty), vec![0, 0, 0, 0]);
    assert_eq!(Vec::<u32>::read(&[0, 0, 0, 0], 0), Ok((empty, 4)));
}

#[test]
fn a_huge_count_fails_without_allocating() {
    let data = [0xFFu8, 0xFF, 0xFF, 0xFF, 1, 2, 3, 4];
    assert_eq!(Vec::<u32>::read(&data, 0), Err(Error::UnexpectedEof));
}

#[test]
fn sequences_are_read_and_written_in_order() {
    let data = [1u8, 0, 2, 0, 3, 0];
    assert_eq!(read_seq::<u16>(&data, 0, 3), Ok((vec![1, 2, 3], 6)));
    assert_eq!(read_seq::<u16>(&data, 2, 2), Ok((vec![2, 3], 6)));
    assert_eq!(read_seq::<u16>(&data, 0, 0), Ok((vec![], 0)));
    assert_eq!(read_seq::<u16>(&data, 0, 4), Err(Error::UnexpectedEof));
    let mut out = vec![0xAA];
    assert_eq!(write_seq::<u16>(&vec![1, 2, 3], &mut out), Ok(()));
    assert_eq!(out, vec![0xAA, 1, 0, 2, 0, 3, 0]);
}

#[test]
fn a_count_keeps_the_low_32_bits() {
    assert_eq!(count(0), 0);
    assert_eq!(count(7), 7);
    assert_eq!(count(u32::MAX as usize), u32::MAX);
}

#[test]
fn scene_root_comes_back() {
    let name = String::from("Scene Root");
    let bytes = bytes_of(&name);
    assert_eq!(bytes.len(), 4 + 10 + 1);
    assert_eq!(&bytes[..4], &[11, 0, 0, 0]);
    assert_eq!(&bytes[4..14], b"Scene Root");
    assert_eq!(bytes[14], 0);
    assert_eq!(String::read(&bytes, 0), Ok((String::from("Scene Root"), 15)));
}

#[test]
fn a_character_outside_latin1_becomes_a_question_mark() {
    let bytes = bytes_of(&String::from("a\u{391}b"));
    assert_eq!(bytes, vec![4, 0, 0, 0, b'a', b'?', b'b', 0]);
    let bytes = bytes_of(&String::from("\u{100}\u{255}\u{256}\u{10FFFF}"));
    assert_eq!(bytes, vec![5, 0, 0, 0, b'?', b'?', b'?', b'?', 0]);
}

#[test]
fn latin1_characters_keep_their_code() {
    let text = String::from("caf\u{e9} \u{ff}\u{80}");
    let bytes = bytes_of(&text);
    assert_eq!(bytes, vec![8, 0, 0, 0, b'c', b'a', b'f', 0xE9, b' ', 0xFF, 0x80, 0]);
    assert_eq!(String::read(&bytes, 0), Ok((text, 12)));
}

#[test]
fn the_text_ends_at_the_first_zero_but_the_field_is_consumed() {
    let mut data = vec![12u8, 0, 0, 0];
    data.extend_from_slice(b"Hi\0garbage\0\0");
    assert_eq!(data.len(), 16);
    data.push(0x55);
    assert_eq!(String::read(&data, 0), Ok((String::from("Hi"), 16)));
}

#[test]
fn a_field_without_a_zero_is_all_text() {
    let data = [3u8, 0, 0, 0, b'a', b'b', b'c'];
    assert_eq!(String::read(&data, 0), Ok((String::from("abc"), 7)));
    assert_eq!(String::read(&[0, 0, 0, 0], 0), Ok((String::new(), 4)));
}

#[test]
fn a_field_longer_than_the_input_is_a_transport_failure() {
    let data = [5u8, 0, 0, 0, b'a', b'b', b'c', 0];
    assert_eq!(String::read(&data, 0), Err(Error::UnexpectedEof));
    assert_eq!(String::read(&[5u8, 0, 0], 0), Err(Error::UnexpectedEof));
    assert_eq!(String::read(&[0xFF, 0xFF, 0xFF, 0xFF, 0], 0), Err(Error::UnexpectedEof));
}

#[test]
fn trailing_nul_characters_are_trimmed_on_the_way_out() {
    assert_eq!(bytes_of(&String::from("ab\0\0")), vec![3, 0, 0, 0, b'a', b'b', 0]);
    assert_eq!(bytes_of(&String::from("\0")), vec![1, 0, 0, 0, 0]);
    assert_eq!(bytes_of(&String::new()), vec![1, 0, 0, 0, 0]);
    assert_eq!(bytes_of(&String::from("a\0b\0")), vec![4, 0, 0, 0, b'a', 0, b'b', 0]);
}

#[test]
fn writing_appends_and_keeps_what_was_there() {
    let mut out = vec![1u8, 2, 3];
    String::from("x").write(&mut out).unwrap();
    7u16.write(&mut out).unwrap();
    assert_eq!(out, vec![1, 2, 3, 2, 0, 0, 0, b'x', 0, 7, 0]);
}

fn point(x: f32, y: f32, z: f32) -> Point3 {
    Point3 { x: x.to_bits(), y: y.to_bits(), z: z.to_bits() }
}

#[test]
fn the_named_bit_patterns_are_those_of_the_numbers() {
    assert_eq!(ZERO, 0.0f32.to_bits());
    assert_eq!(NEG_ZERO, (-0.0f32).to_bits());
    assert_eq!(ONE, 1.0f32.to_bits());
    assert_eq!(INFINITY, f32::INFINITY.to_bits());
    assert_eq!(NEG_INFINITY, f32::NEG_INFINITY.to_bits());
}

#[test]
fn points_travel_component_by_component() {
    let p = point(1.0, -2.5, 1.0e-3);
    let bytes = bytes_of(&p);
    let mut expected = Vec::new();
    expected.extend_from_slice(&1.0f32.to_le_bytes());
    expected.extend_from_slice(&(-2.5f32).to_le_bytes());
    expected.extend_from_slice(&1.0e-3f32.to_le_bytes());
    assert_eq!(bytes, expected);
    assert_eq!(Point3::read(&bytes, 0), Ok((p, 12)));
    let v = Vector3 { x: 1, y: 2, z: 3 };
    assert_eq!(Vector3::read(&bytes_of(&v), 0), Ok((v, 12)));
    let t = Point2 { x: 0.5f32.to_bits(), y: 0.25f32.to_bits() };
    assert_eq!(bytes_of(&t), vec![0, 0, 0, 0x3F, 0, 0, 0x80, 0x3E]);
    assert_eq!(Point2::read(&bytes_of(&t), 0), Ok((t, 8)));
    assert_eq!(Point3::read(&bytes[..11], 0), Err(Error::UnexpectedEof));
}

#[test]
fn a_not_a_number_keeps_its_payload() {
    let p = Point3 { x: 0x7FC0_1234, y: 0xFFFF_FFFF, z: 0x7F80_0001 };
    assert_eq!(Point3::read(&bytes_of(&p), 0), Ok((p, 12)));
}

fn numbered_matrix() -> (Matrix4, Vec<u8>) {
    let mut wire = Vec::new();
    for i in 0..16u32 {
        wire.extend_from_slice(&(100 + i).to_le_bytes());
    }
    let m = Matrix4 {
        x: Vector4 { x: 100, y: 104, z: 108, w: 112 },
        y: Vector4 { x: 101, y: 105, z: 109, w: 113 },
        z: Vector4 { x: 102, y: 106, z: 110, w: 114 },
        w: Vector4 { x: 103, y: 107, z: 111, w: 115 },
    };
    (m, wire)
}

#[test]
fn the_matrix_is_read_in_the_order_of_the_format() {
    let (m, wire) = numbered_matrix();
    assert_eq!(Matrix4::read(&wire, 0), Ok((m, 64)));
    assert_eq!(Matrix4::read(&wire[..63], 0), Err(Error::UnexpectedEof));
}

#[test]
fn the_matrix_is_written_in_the_order_of_the_format() {
    let (m, wire) = numbered_matrix();
    assert_eq!(bytes_of(&m), wire);
}

#[test]
fn the_identity_matrix_has_ones_on_the_diagonal() {
    let m = Matrix4::identity();
    let one = 1.0f32.to_bits();
    assert_eq!(m.x, Vector4 { x: one, y: 0, z: 0, w: 0 });
    assert_eq!(m.y, Vector4 { x: 0, y: one, z: 0, w: 0 });
    assert_eq!(m.z, Vector4 { x: 0, y: 0, z: one, w: 0 });
    assert_eq!(m.w, Vector4 { x: 0, y: 0, z: 0, w: one });
    assert_eq!(Matrix4::read(&bytes_of(&m), 0), Ok((m, 64)));
}

#[test]
fn the_box_travels_lower_corner_first() {
    let b = Aabb { lower: point(-1.0, -2.0, -3.0), upper: point(1.0, 2.0, 3.0) };
    let bytes = bytes_of(&b);
    assert_eq!(bytes.len(), 24);
    assert_eq!(&bytes[..4], &(-1.0f32).to_le_bytes());
    assert_eq!(&bytes[12..16], &1.0f32.to_le_bytes());
    assert_eq!(Aabb::read(&bytes, 0), Ok((b, 24)));
}

#[test]
fn an_empty_point_cloud_gives_the_zero_box() {
    let c = Collider::from_bounds(Aabb::unbounded(), 0.0f32.to_bits());
    assert_eq!(c.radius, 0.0f32.to_bits());
    assert_eq!(c.aabb, Aabb { lower: point(0.0, 0.0, 0.0), upper: point(0.0, 0.0, 0.0) });
    assert_eq!(c, Collider::default());
    assert_eq!(Aabb::default(), Aabb::zero());
}

#[test]
fn a_box_that_a_point_entered_is_kept() {
    let b = Aabb { lower: point(0.5, 0.5, 0.5), upper: point(0.5, 0.5, 0.5) };
    let c = Collider::from_bounds(b, 0.0f32.to_bits());
    assert_eq!(c, Collider { aabb: b, radius: 0 });
    let half = Aabb {
        lower: point(f32::INFINITY, f32::INFINITY, f32::INFINITY),
        upper: point(f32::NEG_INFINITY, f32::NEG_INFINITY, 0.0),
    };
    assert!(!half.is_unbounded());
    assert_eq!(Collider::from_bounds(half, 7).aabb, half);
    assert!(Aabb::unbounded().is_unbounded());
    assert!(!Aabb::zero().is_unbounded());
}

#[test]
fn the_unbounded_box_is_inverted() {
    let b = Aabb::unbounded();
    assert_eq!(f32::from_bits(b.lower.x), f32::INFINITY);
    assert_eq!(f32::from_bits(b.lower.y), f32::INFINITY);
    assert_eq!(f32::from_bits(b.lower.z), f32::INFINITY);
    assert_eq!(f32::from_bits(b.upper.x), f32::NEG_INFINITY);
    assert_eq!(f32::from_bits(b.upper.y), f32::NEG_INFINITY);
    assert_eq!(f32::from_bits(b.upper.z), f32::NEG_INFINITY);
}

#[test]
fn the_header_takes_eight_bytes() {
    let h = ModelHeader { magic: MAGIC, major: 2, minor: 0 };
    let bytes = bytes_of(&h);
    assert_eq!(bytes, vec![0x53, 0x53, 0x4D, 0x46, 2, 0, 0, 0]);
    assert_eq!(&bytes[..4], b"SSMF");
    assert_eq!(ModelHeader::read(&bytes, 0), Ok((h, 8)));
    assert_eq!(ModelHeader::read(&bytes[..7], 0), Err(Error::UnexpectedEof));
}

#[test]
fn a_header_announces_its_revision() {
    assert_eq!(ModelHeader { magic: MAGIC, major: 1, minor: 3 }.version(), Some(Version::V1));
    assert_eq!(ModelHeader { magic: MAGIC, major: 2, minor: 0 }.version(), Some(Version::V2));
    assert_eq!(ModelHeader { magic: MAGIC, major: 5, minor: 0 }.version(), Some(Version::V5));
    assert_eq!(ModelHeader { magic: MAGIC, major: 2, minor: 1 }.version(), None);
    assert_eq!(ModelHeader { magic: MAGIC, major: 1, minor: 0 }.version(), None);
    assert_eq!(ModelHeader { magic: MAGIC, major: 3, minor: 0 }.version(), None);
    assert_eq!(ModelHeader { magic: MAGIC + 1, major: 2, minor: 0 }.version(), None);
    assert_eq!(ModelHeader { magic: 0, major: 1, minor: 3 }.version(), None);
    assert_eq!(Version::V1.header(), ModelHeader { magic: MAGIC, major: 1, minor: 3 });
    assert_eq!(Version::V2.header(), ModelHeader { magic: MAGIC, major: 2, minor: 0 });
    assert_eq!(Version::V5.header(), ModelHeader { magic: MAGIC, major: 5, minor: 0 });
}

#[test]
fn detection_selects_the_codec_or_reports_both_headers() {
    let v2 = bytes_of(&Version::V2.header());
    assert_eq!(cem::detect(&v2, 0), Ok((Version::V2, 8)));
    let v1 = bytes_of(&Version::V1.header());
    assert_eq!(cem::detect(&v1, 0), Ok((Version::V1, 8)));
    let v5 = bytes_of(&Version::V5.header());
    assert_eq!(cem::detect(&v5, 0), Ok((Version::V5, 8)));
    let odd = ModelHeader { magic: MAGIC, major: 4, minor: 0 };
    let err = cem::detect(&bytes_of(&odd), 0).unwrap_err();
    assert_eq!(err, Error::WrongHeader { expected: Version::V2.header(), actual: odd });
    assert_eq!(err.kind(), ErrorKind::FormatMismatch);
    assert_eq!(cem::detect(&v2[..5], 0), Err(Error::UnexpectedEof));
}

#[test]
fn every_error_has_its_class() {
    let h = Version::V2.header();
    assert_eq!(Error::UnexpectedEof.kind(), ErrorKind::Transport);
    assert_eq!(Error::WrongHeader { expected: h, actual: h }.kind(), ErrorKind::FormatMismatch);
    assert_eq!(Error::InvalidBool(2).kind(), ErrorKind::Violation);
    assert_eq!(Error::StringTooLong.kind(), ErrorKind::Violation);
    assert_eq!(Error::NoMaterials.kind(), ErrorKind::Violation);
    assert_eq!(Error::NoLodLevels.kind(), ErrorKind::Violation);
    assert_eq!(Error::NoFrames.kind(), ErrorKind::Violation);
    assert_eq!(Error::TooDeep.kind(), ErrorKind::Violation);
    assert_eq!(Error::Unimplemented.kind(), ErrorKind::Unimplemented);
}
