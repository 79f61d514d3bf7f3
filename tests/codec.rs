use corepack::cursor::{MapCursor, SeqCursor};
use corepack::de::Deserializer;
use corepack::defs::Marker;
use corepack::error::Error;
use corepack::ext_visitor::{ExtField, ExtVisitor};
use corepack::head::Head;
use corepack::pull::{Framer, HeadReader, Step};
use corepack::ser::Serializer;

const NAMES: [&str; 4] = ["A", "B", "C", "D"];

fn encoded(f: impl FnOnce(&mut Serializer)) -> Vec<u8> {
    let mut s = Serializer::new();
    f(&mut s);
    s.into_bytes()
}

#[test]
fn test_str() {
    let bytes = encoded(|s| s.write_str("Hello World!").unwrap());
    assert_eq!(bytes[0], 0xac);
    assert_eq!(&bytes[1..], b"Hello World!");
    let mut de = Deserializer::new(&bytes);
    assert_eq!(de.decode_str().unwrap(), "Hello World!");
    assert_eq!(de.remaining(), 0);
}

#[test]
fn test_enum() {
    let bytes = encoded(|s| s.write_unit_variant("B").unwrap());
    assert_eq!(bytes, vec![0x81, 0xa1, b'B', 0xc0]);
    let mut de = Deserializer::new(&bytes);
    assert_eq!(de.decode_variant(&NAMES).unwrap(), 1);
    de.decode_nil().unwrap();
    assert_eq!(de.remaining(), 0);
}

#[test]
fn test_enum_newtype() {
    let bytes = encoded(|s| {
        s.begin_variant("A").unwrap();
        s.write_uint(42);
    });
    assert_eq!(bytes, vec![0x81, 0xa1, b'A', 42]);
    let mut de = Deserializer::new(&bytes);
    assert_eq!(de.decode_variant(&NAMES).unwrap(), 0);
    assert_eq!(de.decode_u64().unwrap(), 42);
    assert_eq!(de.remaining(), 0);
}

#[test]
fn test_enum_tuple() {
    let bytes = encoded(|s| {
        s.begin_tuple_variant("C", 2).unwrap();
        s.write_int(-3);
        s.write_int(22);
    });
    assert_eq!(bytes, vec![0x81, 0xa1, b'C', 0x92, 0xfd, 22]);
    let mut de = Deserializer::new(&bytes);
    assert_eq!(de.decode_variant(&NAMES).unwrap(), 2);
    let mut c = de.begin_array().unwrap();
    c.next().unwrap();
    assert_eq!(de.decode_i8().unwrap(), -3);
    c.next().unwrap();
    assert_eq!(de.decode_i8().unwrap(), 22);
    c.finish().unwrap();
    assert_eq!(de.remaining(), 0);
}

#[test]
fn test_enum_struct() {
    let bytes = encoded(|s| {
        s.begin_struct_variant("D", 2).unwrap();
        s.write_str("a").unwrap();
        s.write_int(9001);
        s.write_str("b").unwrap();
        s.write_str("Hello world!").unwrap();
    });
    let mut expected = vec![0x81, 0xa1, b'D', 0x82, 0xa1, b'a', 0xcd, 0x23, 0x29, 0xa1, b'b', 0xac];
    expected.extend_from_slice(b"Hello world!");
    assert_eq!(bytes, expected);
    let mut de = Deserializer::new(&bytes);
    assert_eq!(de.decode_variant(&NAMES).unwrap(), 3);
    let mut m = de.begin_map().unwrap();
    m.next_key().unwrap();
    assert_eq!(de.decode_str().unwrap(), "a");
    m.next_value().unwrap();
    assert_eq!(de.decode_i64().unwrap(), 9001);
    m.next_key().unwrap();
    assert_eq!(de.decode_str().unwrap(), "b");
    m.next_value().unwrap();
    assert_eq!(de.decode_str().unwrap(), "Hello world!");
    m.finish().unwrap();
    assert_eq!(de.remaining(), 0);
}

#[test]
fn test_option() {
    let some = encoded(|s| s.write_option(Some(Head::Uint(7))));
    let plain = encoded(|s| s.write_uint(7));
    assert_eq!(some, plain);
    assert_eq!(some, vec![7]);
    let mut de = Deserializer::new(&some);
    assert_eq!(de.decode_option().unwrap(), Some(Head::Uint(7)));
}

#[test]
fn test_unit_option() {
    let some_unit = encoded(|s| s.write_option(Some(Head::Array(0))));
    let unit = encoded(|s| s.write_unit());
    assert_eq!(some_unit, unit);
    assert_eq!(some_unit, vec![0x90]);
    let mut de = Deserializer::new(&some_unit);
    let present = de.decode_option().unwrap();
    assert_eq!(present, Some(Head::Array(0)));
    assert_eq!(de.remaining(), 0);
    let mut de = Deserializer::new(&unit);
    de.decode_unit().unwrap();
    assert_eq!(Deserializer::new(&[0xc0]).decode_unit(), Err(Error::TypeMismatch));
    assert_eq!(Deserializer::new(&[0xc0]).decode_option().unwrap(), None);
}

#[test]
fn test_char() {
    let mut buf = [0u8; 4];
    let bytes = encoded(|s| s.write_str('b'.encode_utf8(&mut buf)).unwrap());
    assert_eq!(bytes, vec![0xa1, b'b']);
    let mut de = Deserializer::new(&bytes);
    let s = de.decode_str().unwrap();
    assert_eq!(s.chars().next(), Some('b'));
}

#[test]
fn option_none_is_nil() {
    let none = encoded(|s| s.write_option(None));
    assert_eq!(none, vec![0xc0]);
    let mut de = Deserializer::new(&none);
    assert_eq!(de.decode_option().unwrap(), None);
}

#[test]
fn uint_widths() {
    assert_eq!(encoded(|s| s.write_uint(0)), vec![0x00]);
    assert_eq!(encoded(|s| s.write_uint(127)), vec![0x7f]);
    assert_eq!(encoded(|s| s.write_uint(128)), vec![0xcc, 0x80]);
    assert_eq!(encoded(|s| s.write_uint(255)), vec![0xcc, 0xff]);
    assert_eq!(encoded(|s| s.write_uint(256)), vec![0xcd, 0x01, 0x00]);
    assert_eq!(encoded(|s| s.write_uint(65535)), vec![0xcd, 0xff, 0xff]);
    assert_eq!(encoded(|s| s.write_uint(65536)), vec![0xce, 0x00, 0x01, 0x00, 0x00]);
    assert_eq!(
        encoded(|s| s.write_uint(u64::MAX)),
        vec![0xcf, 0xff, 0xff, 0xff, 0xff, 0xff, 0xff, 0xff, 0xff]
    );
}

#[test]
fn int_widths() {
    assert_eq!(encoded(|s| s.write_int(-1)), vec![0xff]);
    assert_eq!(encoded(|s| s.write_int(-32)), vec![0xe0]);
    assert_eq!(encoded(|s| s.write_int(-33)), vec![0xd0, 0xdf]);
    assert_eq!(encoded(|s| s.write_int(-128)), vec![0xd0, 0x80]);
    assert_eq!(encoded(|s| s.write_int(-129)), vec![0xd1, 0xff, 0x7f]);
    assert_eq!(encoded(|s| s.write_int(-32768)), vec![0xd1, 0x80, 0x00]);
    assert_eq!(encoded(|s| s.write_int(-32769)), vec![0xd2, 0xff, 0xff, 0x7f, 0xff]);
    assert_eq!(encoded(|s| s.write_int(100)), vec![100]);
    let min = encoded(|s| s.write_int(i64::MIN));
    assert_eq!(min, vec![0xd3, 0x80, 0, 0, 0, 0, 0, 0, 0]);
    assert_eq!(Deserializer::new(&min).decode_i64().unwrap(), i64::MIN);
}

#[test]
fn int_round_trips() {
    for n in [0i64, 1, -1, 31, -32, -33, 127, 128, -128, -129, 255, 256, 32767, -32768, 65535, 65536, i64::MAX, i64::MIN] {
        let b = encoded(|s| s.write_int(n));
        assert_eq!(Deserializer::new(&b).decode_i64().unwrap(), n);
    }
    for n in [0u64, 127, 128, 255, 256, 65535, 65536, u32::MAX as u64, u32::MAX as u64 + 1, u64::MAX] {
        let b = encoded(|s| s.write_uint(n));
        assert_eq!(Deserializer::new(&b).decode_u64().unwrap(), n);
    }
}

#[test]
fn wide_int_into_narrow_target() {
    let wide = [0xcf, 0, 0, 0, 0, 0, 0, 0, 5];
    assert_eq!(Deserializer::new(&wide).decode_u8().unwrap(), 5);
    assert_eq!(Deserializer::new(&wide).decode_i8().unwrap(), 5);
    let signed = [0xd3, 0xff, 0xff, 0xff, 0xff, 0xff, 0xff, 0xff, 0xfe];
    assert_eq!(Deserializer::new(&signed).decode_i16().unwrap(), -2);
    assert_eq!(Deserializer::new(&signed).decode_u8(), Err(Error::TypeMismatch));
    let big = [0xcd, 0x01, 0x00];
    assert_eq!(Deserializer::new(&big).decode_u8(), Err(Error::TypeMismatch));
    assert_eq!(Deserializer::new(&big).decode_u16().unwrap(), 256);
    assert_eq!(Deserializer::new(&big).decode_i32().unwrap(), 256);
    let over = [0xcc, 0x80];
    assert_eq!(Deserializer::new(&over).decode_i8(), Err(Error::TypeMismatch));
    let u32max = [0xce, 0xff, 0xff, 0xff, 0xff];
    assert_eq!(Deserializer::new(&u32max).decode_u32().unwrap(), u32::MAX);
    assert_eq!(Deserializer::new(&u32max).decode_i32(), Err(Error::TypeMismatch));
}

fn str_of_len(n: usize) -> String {
    "x".repeat(n)
}

#[test]
fn str_boundary_widths() {
    for (n, tag, head_len) in [
        (0usize, 0xa0u8, 1usize),
        (15, 0xaf, 1),
        (16, 0xb0, 1),
        (31, 0xbf, 1),
        (32, 0xd9, 2),
        (255, 0xd9, 2),
        (256, 0xda, 3),
        (65535, 0xda, 3),
        (65536, 0xdb, 5),
    ] {
        let s = str_of_len(n);
        let b = encoded(|w| w.write_str(&s).unwrap());
        assert_eq!(b[0], tag);
        assert_eq!(b.len(), head_len + n);
        assert_eq!(Deserializer::new(&b).decode_str().unwrap(), s.as_str());
    }
}

#[test]
fn bin_boundary_widths() {
    for (n, tag, head_len) in [
        (0usize, 0xc4u8, 2usize),
        (255, 0xc4, 2),
        (256, 0xc5, 3),
        (65535, 0xc5, 3),
        (65536, 0xc6, 5),
    ] {
        let data = vec![7u8; n];
        let b = encoded(|w| w.write_bin(&data).unwrap());
        assert_eq!(b[0], tag);
        assert_eq!(b.len(), head_len + n);
        assert_eq!(Deserializer::new(&b).decode_bin().unwrap(), data.as_slice());
    }
}

#[test]
fn array_and_map_boundary_widths() {
    for (n, atag, mtag, head_len) in [
        (0usize, 0x90u8, 0x80u8, 1usize),
        (15, 0x9f, 0x8f, 1),
        (16, 0xdc, 0xde, 3),
        (65535, 0xdc, 0xde, 3),
        (65536, 0xdd, 0xdf, 5),
    ] {
        let a = encoded(|w| w.begin_array(Some(n)).unwrap());
        assert_eq!(a[0], atag);
        assert_eq!(a.len(), head_len);
        assert_eq!(Deserializer::new(&a).begin_array().unwrap().len() as usize, n);
        let m = encoded(|w| w.begin_map(Some(n)).unwrap());
        assert_eq!(m[0], mtag);
        assert_eq!(m.len(), head_len);
        assert_eq!(Deserializer::new(&m).begin_map().unwrap().len() as usize, n);
    }
}

#[test]
fn ext_forms() {
    for (n, tag) in [(1usize, 0xd4u8), (2, 0xd5), (4, 0xd6), (8, 0xd7), (16, 0xd8)] {
        let data = vec![9u8; n];
        let b = encoded(|w| w.write_ext(-5, &data).unwrap());
        assert_eq!(b[0], tag);
        assert_eq!(b[1], 0xfb);
        assert_eq!(b.len(), 2 + n);
        let (ty, p) = Deserializer::new(&b).decode_ext().unwrap();
        assert_eq!(ty, -5);
        assert_eq!(p, data.as_slice());
    }
    let data = vec![1u8, 2, 3];
    let b = encoded(|w| w.write_ext(3, &data).unwrap());
    assert_eq!(b, vec![0xc7, 3, 3, 1, 2, 3]);
    let big = vec![0u8; 300];
    let b = encoded(|w| w.write_ext(1, &big).unwrap());
    assert_eq!(&b[..4], &[0xc8, 0x01, 0x2c, 0x01]);
    let (ty, p) = Deserializer::new(&b).decode_ext().unwrap();
    assert_eq!((ty, p.len()), (1, 300));
}

#[test]
fn scalars_round_trip() {
    let b = encoded(|w| {
        w.write_nil();
        w.write_bool(true);
        w.write_bool(false);
        w.write_f32_bits(1.5f32.to_bits());
        w.write_f64_bits((-2.25f64).to_bits());
    });
    assert_eq!(&b[..3], &[0xc0, 0xc3, 0xc2]);
    assert_eq!(b[3], 0xca);
    assert_eq!(b[8], 0xcb);
    let mut de = Deserializer::new(&b);
    de.decode_nil().unwrap();
    assert!(de.decode_bool().unwrap());
    assert!(!de.decode_bool().unwrap());
    assert_eq!(f32::from_bits(de.decode_f32_bits().unwrap()), 1.5);
    assert_eq!(f64::from_bits(de.decode_f64_bits().unwrap()), -2.25);
    assert_eq!(de.remaining(), 0);
}

#[test]
fn str_and_bin_not_interchangeable() {
    let s = encoded(|w| w.write_str("hi").unwrap());
    assert_eq!(Deserializer::new(&s).decode_bin(), Err(Error::TypeMismatch));
    let b = encoded(|w| w.write_bin(b"hi").unwrap());
    assert_eq!(Deserializer::new(&b).decode_str(), Err(Error::TypeMismatch));
}

#[test]
fn invalid_utf8_is_rejected() {
    let b = [0xa2, 0xff, 0xfe];
    assert_eq!(Deserializer::new(&b).decode_str(), Err(Error::TypeMismatch));
    assert_eq!(Deserializer::new(&b).decode_str_bytes().unwrap(), &[0xff, 0xfe]);
}

#[test]
fn end_of_stream_and_invalid_tag() {
    assert_eq!(Deserializer::new(&[]).read_head(), Err(Error::EndOfStream));
    assert_eq!(Deserializer::new(&[0xcd, 0x01]).decode_u16(), Err(Error::EndOfStream));
    assert_eq!(Deserializer::new(&[0xa3, b'a']).decode_str(), Err(Error::EndOfStream));
    assert_eq!(Deserializer::new(&[0xc1]).read_head(), Err(Error::InvalidTag));
    let mut de = Deserializer::new(&[1, 2]);
    assert_eq!(de.take(3), Err(Error::EndOfStream));
    assert_eq!(de.take(2).unwrap(), &[1, 2]);
}

#[test]
fn type_mismatch_consumes_header() {
    let b = [0x92, 1, 2];
    let mut de = Deserializer::new(&b);
    assert_eq!(de.decode_u8(), Err(Error::TypeMismatch));
    assert_eq!(de.position(), 1);
    assert_eq!(de.decode_u8().unwrap(), 1);
}

#[test]
fn unsized_sequence_is_refused() {
    let mut s = Serializer::new();
    assert_eq!(s.begin_array(None), Err(Error::SizeHint));
    assert_eq!(s.begin_map(None), Err(Error::SizeHint));
    assert!(s.into_bytes().is_empty());
}

#[test]
fn seq_cursor_arity() {
    let mut c = SeqCursor::new(2);
    assert_eq!(c.finish(), Err(Error::ArityViolation));
    c.next().unwrap();
    assert_eq!(c.remaining(), 1);
    assert_eq!(c.finish(), Err(Error::ArityViolation));
    c.next().unwrap();
    assert!(!c.has_next());
    assert_eq!(c.next(), Err(Error::ArityViolation));
    c.finish().unwrap();
    SeqCursor::new(0).finish().unwrap();
}

#[test]
fn map_cursor_arity() {
    let mut m = MapCursor::new(1);
    assert_eq!(m.next_value(), Err(Error::ArityViolation));
    m.next_key().unwrap();
    assert_eq!(m.next_key(), Err(Error::ArityViolation));
    assert_eq!(m.finish(), Err(Error::ArityViolation));
    m.next_value().unwrap();
    assert_eq!(m.next_key(), Err(Error::ArityViolation));
    m.finish().unwrap();
}

#[test]
fn ext_visitor_order() {
    let mut v = ExtVisitor::new(-3, vec![1, 2, 3]);
    assert_eq!(v.size_hint(), Some(2));
    assert_eq!(v.next_key(), Some("type"));
    assert_eq!(v.next_value(), Ok(ExtField::Type(-3)));
    assert_eq!(v.next_key(), Some("data"));
    assert_eq!(v.size_hint(), Some(1));
    assert_eq!(v.next_value(), Ok(ExtField::Data(vec![1, 2, 3])));
    assert_eq!(v.next_key(), None);
    assert_eq!(v.size_hint(), Some(0));
    assert_eq!(v.next_value(), Err(Error::EndOfStream));
}

#[test]
fn unknown_variant_and_wrong_shape() {
    let b = encoded(|s| s.write_unit_variant("Z").unwrap());
    assert_eq!(Deserializer::new(&b).decode_variant(&NAMES), Err(Error::TypeMismatch));
    let two = [0x82, 0xa1, b'A', 0xc0, 0xa1, b'B', 0xc0];
    assert_eq!(Deserializer::new(&two).decode_variant(&NAMES), Err(Error::TypeMismatch));
    let dup = ["B", "B"];
    let b = encoded(|s| s.write_unit_variant("B").unwrap());
    assert_eq!(Deserializer::new(&b).decode_variant(&dup).unwrap(), 0);
}

#[test]
fn markers_classify_and_round_trip() {
    assert_eq!(Marker::from_u8(0xc1), Marker::Reserved);
    assert_eq!(Marker::from_u8(0xe0), Marker::FixNeg(-32));
    assert_eq!(Marker::from_u8(0x85), Marker::FixMap(5));
    for b in 0u8..=255 {
        if b != 0xc1 {
            assert_eq!(Marker::from_u8(b).to_u8(), b);
        }
    }
}

#[test]
fn head_round_trips() {
    let heads = [
        Head::Nil,
        Head::Bool(true),
        Head::Uint(300),
        Head::Int(-300),
        Head::F32(7),
        Head::F64(9),
        Head::Str(40),
        Head::Bin(70000),
        Head::Array(3),
        Head::Pairs(20),
        Head::Ext(4, 1000),
    ];
    for h in heads {
        let b = encoded(|s| s.write_head(h));
        let mut de = Deserializer::new(&b);
        assert_eq!(de.read_head().unwrap(), h);
        assert_eq!(de.remaining(), 0);
    }
    let b = encoded(|s| s.write_head(Head::Int(5)));
    assert_eq!(Deserializer::new(&b).read_head().unwrap(), Head::Uint(5));
}

#[test]
fn take_str_checks_utf8() {
    let b = [b'o', b'k', 0xff];
    let mut de = Deserializer::new(&b);
    assert_eq!(de.take_str(2).unwrap(), "ok");
    assert_eq!(de.take_str(1), Err(Error::TypeMismatch));
    assert_eq!(Deserializer::new(&b).take_str(4), Err(Error::EndOfStream));
}

#[test]
fn multibyte_utf8_round_trip() {
    let b = encoded(|s| s.write_str("h\u{e9}llo \u{1f600}").unwrap());
    assert_eq!(b[0], 0xa0 + 11);
    let mut de = Deserializer::new(&b);
    assert_eq!(de.decode_str().unwrap(), "h\u{e9}llo \u{1f600}");
    assert_eq!(de.remaining(), 0);
}

#[test]
fn error_positions() {
    let bad = [0xa2, 0xff, 0xfe, 7];
    let mut de = Deserializer::new(&bad);
    assert_eq!(de.decode_str(), Err(Error::TypeMismatch));
    assert_eq!(de.position(), 3);
    let short = [0xc4, 5, 1];
    let mut de = Deserializer::new(&short);
    assert_eq!(de.decode_bin(), Err(Error::EndOfStream));
    assert_eq!(de.position(), 2);
    let wrong = [0x81, 0xa1, b'Z', 0xc0];
    let mut de = Deserializer::new(&wrong);
    assert_eq!(de.decode_variant(&NAMES), Err(Error::TypeMismatch));
    assert_eq!(de.position(), 3);
}

#[test]
fn head_reader_pulls_one_header() {
    let mut r = HeadReader::new();
    assert_eq!(r.push(0xcd), Step::More);
    assert_eq!(r.push(0x01), Step::More);
    assert_eq!(r.push(0x2c), Step::Ready(Head::Uint(300)));
    assert_eq!(r.push(0x05), Step::Ready(Head::Uint(5)));
    assert_eq!(r.push(0xc1), Step::Invalid);
}

#[test]
fn framer_stops_after_one_value() {
    let bytes = encoded(|s| {
        s.begin_struct_variant("D", 2).unwrap();
        s.write_str("a").unwrap();
        s.write_int(9001);
        s.write_str("b").unwrap();
        s.write_bin(&[1, 2, 3]).unwrap();
    });
    let mut stream = bytes.clone();
    stream.extend_from_slice(&[0xc0, 0xc0]);
    let mut f = Framer::new();
    let mut taken = 0usize;
    for b in stream {
        taken += 1;
        if f.push(b).unwrap() {
            break;
        }
    }
    assert_eq!(taken, bytes.len());
    let mut f = Framer::new();
    assert_eq!(f.push(0xc1), Err(Error::InvalidTag));
}
