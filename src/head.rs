//! The header grammar: what a value's header is, the minimal bytes it is
//! written as, and how a byte sequence is read back as a header.
use vstd::prelude::*;
use crate::defs::{marker_of, Marker};

verus! {

/// A decoded value header: a scalar, or the length or count that announces
/// the payload or the elements that follow.
#[derive(Debug, Clone, Copy, PartialEq, Eq, Structural)]
pub enum Head {
    Nil,
    Bool(bool),
    /// A non-negative integer, or one written in an unsigned form.
    Uint(u64),
    /// An integer written in a signed form.
    Int(i64),
    /// The bits of a 32-bit float.
    F32(u32),
    /// The bits of a 64-bit float.
    F64(u64),
    /// A UTF-8 string of this many bytes follows.
    Str(u32),
    /// A binary blob of this many bytes follows.
    Bin(u32),
    /// This many elements follow.
    Array(u32),
    /// This many key/value pairs follow.
    Pairs(u32),
    /// An extension value with this discriminator and payload length.
    Ext(i8, u32),
}

pub open spec fn be16(x: u16) -> Seq<u8> {
    seq![(x >> 8) as u8, x as u8]
}

pub open spec fn be32(x: u32) -> Seq<u8> {
    seq![(x >> 24) as u8, (x >> 16) as u8, (x >> 8) as u8, x as u8]
}

pub open spec fn be64(x: u64) -> Seq<u8> {
    seq![
        (x >> 56) as u8,
        (x >> 48) as u8,
        (x >> 40) as u8,
        (x >> 32) as u8,
        (x >> 24) as u8,
        (x >> 16) as u8,
        (x >> 8) as u8,
        x as u8,
    ]
}

pub open spec fn be16_at(b: Seq<u8>, i: int) -> u16 {
    ((b[i] as u16) << 8) | (b[i + 1] as u16)
}

pub open spec fn be32_at(b: Seq<u8>, i: int) -> u32 {
    ((b[i] as u32) << 24) | ((b[i + 1] as u32) << 16) | ((b[i + 2] as u32) << 8) | (b[i + 3] as u32)
}

pub open spec fn be64_at(b: Seq<u8>, i: int) -> u64 {
    ((b[i] as u64) << 56) | ((b[i + 1] as u64) << 48) | ((b[i + 2] as u64) << 40) | ((b[i + 3] as u64) << 32)
        | ((b[i + 4] as u64) << 24) | ((b[i + 5] as u64) << 16) | ((b[i + 6] as u64) << 8) | (b[i + 7] as u64)
}

/// The narrowest encoding of an unsigned integer.
pub open spec fn enc_uint(n: u64) -> Seq<u8> {
    if n <= 0x7f {
        seq![n as u8]
    } else if n <= 0xff {
        seq![0xcc, n as u8]
    } else if n <= 0xffff {
        seq![0xcdu8] + be16(n as u16)
    } else if n <= 0xffff_ffff {
        seq![0xceu8] + be32(n as u32)
    } else {
        seq![0xcfu8] + be64(n)
    }
}

/// The narrowest encoding of a signed integer; non-negative ones use the unsigned forms.
pub open spec fn enc_int(n: i64) -> Seq<u8> {
    if n >= 0 {
        enc_uint(n as u64)
    } else if n >= -32 {
        seq![n as u8]
    } else if n >= -0x80 {
        seq![0xd0, n as u8]
    } else if n >= -0x8000 {
        seq![0xd1u8] + be16(n as u16)
    } else if n >= -0x8000_0000 {
        seq![0xd2u8] + be32(n as u32)
    } else {
        seq![0xd3u8] + be64(n as u64)
    }
}

pub open spec fn enc_str_head(len: u32) -> Seq<u8> {
    if len <= 31 {
        seq![(0xa0 + len) as u8]
    } else if len <= 0xff {
        seq![0xd9, len as u8]
    } else if len <= 0xffff {
        seq![0xdau8] + be16(len as u16)
    } else {
        seq![0xdbu8] + be32(len)
    }
}

pub open spec fn enc_bin_head(len: u32) -> Seq<u8> {
    if len <= 0xff {
        seq![0xc4, len as u8]
    } else if len <= 0xffff {
        seq![0xc5u8] + be16(len as u16)
    } else {
        seq![0xc6u8] + be32(len)
    }
}

pub open spec fn enc_array_head(n: u32) -> Seq<u8> {
    if n <= 15 {
        seq![(0x90 + n) as u8]
    } else if n <= 0xffff {
        seq![0xdcu8] + be16(n as u16)
    } else {
        seq![0xddu8] + be32(n)
    }
}

pub open spec fn enc_map_head(n: u32) -> Seq<u8> {
    if n <= 15 {
        seq![(0x80 + n) as u8]
    } else if n <= 0xffff {
        seq![0xdeu8] + be16(n as u16)
    } else {
        seq![0xdfu8] + be32(n)
    }
}

pub open spec fn enc_ext_head(ty: i8, len: u32) -> Seq<u8> {
    if len == 1 {
        seq![0xd4, ty as u8]
    } else if len == 2 {
        seq![0xd5, ty as u8]
    } else if len == 4 {
        seq![0xd6, ty as u8]
    } else if len == 8 {
        seq![0xd7, ty as u8]
    } else if len == 16 {
        seq![0xd8, ty as u8]
    } else if len <= 0xff {
        seq![0xc7, len as u8, ty as u8]
    } else if len <= 0xffff {
        seq![0xc8u8] + be16(len as u16) + seq![ty as u8]
    } else {
        seq![0xc9u8] + be32(len) + seq![ty as u8]
    }
}

/// The bytes a header is written as: always the narrowest form.
pub open spec fn enc_head(h: Head) -> Seq<u8> {
    match h {
        Head::Nil => seq![0xc0],
        Head::Bool(b) => if b { seq![0xc3] } else { seq![0xc2] },
        Head::Uint(n) => enc_uint(n),
        Head::Int(n) => enc_int(n),
        Head::F32(x) => seq![0xcau8] + be32(x),
        Head::F64(x) => seq![0xcbu8] + be64(x),
        Head::Str(len) => enc_str_head(len),
        Head::Bin(len) => enc_bin_head(len),
        Head::Array(n) => enc_array_head(n),
        Head::Pairs(n) => enc_map_head(n),
        Head::Ext(ty, len) => enc_ext_head(ty, len),
    }
}

/// The header that decoding gives back for one that was encoded: a
/// non-negative signed integer is written, and so read, in an unsigned form.
pub open spec fn canon(h: Head) -> Head {
    match h {
        Head::Int(n) => if n >= 0 { Head::Uint(n as u64) } else { h },
        _ => h,
    }
}

/// `Some((h, n))` when `b` has the complete `n`-byte header `h` at its start.
pub open spec fn sized(b: Seq<u8>, n: int, h: Head) -> Option<(Head, int)> {
    if b.len() >= n { Some((h, n)) } else { None }
}

/// The header at the start of `b`, with the number of bytes it takes; `None`
/// when `b` is empty, starts with the reserved byte or ends inside the header.
/// Every width is accepted, not only the narrowest.
pub open spec fn head_of(b: Seq<u8>) -> Option<(Head, int)> {
    if b.len() == 0 {
        None
    } else {
        match marker_of(b[0]) {
            Marker::FixPos(n) => Some((Head::Uint(n as u64), 1)),
            Marker::FixNeg(n) => Some((Head::Int(n as i64), 1)),
            Marker::FixMap(n) => Some((Head::Pairs(n as u32), 1)),
            Marker::FixArray(n) => Some((Head::Array(n as u32), 1)),
            Marker::FixStr(n) => Some((Head::Str(n as u32), 1)),
            Marker::Nil => Some((Head::Nil, 1)),
            Marker::Reserved => None,
            Marker::False => Some((Head::Bool(false), 1)),
            Marker::True => Some((Head::Bool(true), 1)),
            Marker::Bin8 => sized(b, 2, Head::Bin(b[1] as u32)),
            Marker::Bin16 => sized(b, 3, Head::Bin(be16_at(b, 1) as u32)),
            Marker::Bin32 => sized(b, 5, Head::Bin(be32_at(b, 1))),
            Marker::Ext8 => sized(b, 3, Head::Ext(b[2] as i8, b[1] as u32)),
            Marker::Ext16 => sized(b, 4, Head::Ext(b[3] as i8, be16_at(b, 1) as u32)),
            Marker::Ext32 => sized(b, 6, Head::Ext(b[5] as i8, be32_at(b, 1))),
            Marker::F32 => sized(b, 5, Head::F32(be32_at(b, 1))),
            Marker::F64 => sized(b, 9, Head::F64(be64_at(b, 1))),
            Marker::U8 => sized(b, 2, Head::Uint(b[1] as u64)),
            Marker::U16 => sized(b, 3, Head::Uint(be16_at(b, 1) as u64)),
            Marker::U32 => sized(b, 5, Head::Uint(be32_at(b, 1) as u64)),
            Marker::U64 => sized(b, 9, Head::Uint(be64_at(b, 1))),
            Marker::I8 => sized(b, 2, Head::Int(b[1] as i8 as i64)),
            Marker::I16 => sized(b, 3, Head::Int(be16_at(b, 1) as i16 as i64)),
            Marker::I32 => sized(b, 5, Head::Int(be32_at(b, 1) as i32 as i64)),
            Marker::I64 => sized(b, 9, Head::Int(be64_at(b, 1) as i64)),
            Marker::FixExt1 => sized(b, 2, Head::Ext(b[1] as i8, 1)),
            Marker::FixExt2 => sized(b, 2, Head::Ext(b[1] as i8, 2)),
            Marker::FixExt4 => sized(b, 2, Head::Ext(b[1] as i8, 4)),
            Marker::FixExt8 => sized(b, 2, Head::Ext(b[1] as i8, 8)),
            Marker::FixExt16 => sized(b, 2, Head::Ext(b[1] as i8, 16)),
            Marker::Str8 => sized(b, 2, Head::Str(b[1] as u32)),
            Marker::Str16 => sized(b, 3, Head::Str(be16_at(b, 1) as u32)),
            Marker::Str32 => sized(b, 5, Head::Str(be32_at(b, 1))),
            Marker::Array16 => sized(b, 3, Head::Array(be16_at(b, 1) as u32)),
            Marker::Array32 => sized(b, 5, Head::Array(be32_at(b, 1))),
            Marker::Map16 => sized(b, 3, Head::Pairs(be16_at(b, 1) as u32)),
            Marker::Map32 => sized(b, 5, Head::Pairs(be32_at(b, 1))),
        }
    }
}

pub proof fn lemma_be16(x: u16, b: Seq<u8>, i: int)
    requires
        0 <= i,
        i + 2 <= b.len(),
        b[i] == be16(x)[0],
        b[i + 1] == be16(x)[1],
    ensures
        be16_at(b, i) == x,
{
    let b0 = b[i];
    let b1 = b[i + 1];
    assert(b0 == (x >> 8) as u8 && b1 == x as u8 ==> ((b0 as u16) << 8) | (b1 as u16) == x)
        by (bit_vector);
}

pub proof fn lemma_be32(x: u32, b: Seq<u8>, i: int)
    requires
        0 <= i,
        i + 4 <= b.len(),
        b.subrange(i, i + 4) == be32(x),
    ensures
        be32_at(b, i) == x,
{
    assert(b[i] == b.subrange(i, i + 4)[0]);
    assert(b[i + 1] == b.subrange(i, i + 4)[1]);
    assert(b[i + 2] == b.subrange(i, i + 4)[2]);
    assert(b[i + 3] == b.subrange(i, i + 4)[3]);
    let b0 = b[i];
    let b1 = b[i + 1];
    let b2 = b[i + 2];
    let b3 = b[i + 3];
    assert(b0 == (x >> 24) as u8 && b1 == (x >> 16) as u8 && b2 == (x >> 8) as u8 && b3 == x as u8
        ==> ((b0 as u32) << 24) | ((b1 as u32) << 16) | ((b2 as u32) << 8) | (b3 as u32) == x)
        by (bit_vector);
}

pub proof fn lemma_be64(x: u64, b: Seq<u8>, i: int)
    requires
        0 <= i,
        i + 8 <= b.len(),
        b.subrange(i, i + 8) == be64(x),
    ensures
        be64_at(b, i) == x,
{
    let s = b.subrange(i, i + 8);
    assert(b[i] == s[0] && b[i + 1] == s[1] && b[i + 2] == s[2] && b[i + 3] == s[3]);
    assert(b[i + 4] == s[4] && b[i + 5] == s[5] && b[i + 6] == s[6] && b[i + 7] == s[7]);
    let b0 = b[i];
    let b1 = b[i + 1];
    let b2 = b[i + 2];
    let b3 = b[i + 3];
    let b4 = b[i + 4];
    let b5 = b[i + 5];
    let b6 = b[i + 6];
    let b7 = b[i + 7];
    assert(b0 == (x >> 56) as u8 && b1 == (x >> 48) as u8 && b2 == (x >> 40) as u8 && b3 == (x >> 32) as u8
        && b4 == (x >> 24) as u8 && b5 == (x >> 16) as u8 && b6 == (x >> 8) as u8 && b7 == x as u8
        ==> ((b0 as u64) << 56) | ((b1 as u64) << 48) | ((b2 as u64) << 40) | ((b3 as u64) << 32)
            | ((b4 as u64) << 24) | ((b5 as u64) << 16) | ((b6 as u64) << 8) | (b7 as u64) == x)
        by (bit_vector);
}

proof fn lemma_sign_casts(n: i64, t: i8)
    ensures
        -32 <= n < 0 ==> (n as u8) >= 0xe0 && ((n as u8) as i8) as i64 == n,
        -0x80 <= n < 0 ==> ((n as u8) as i8) as i64 == n,
        -0x8000 <= n < 0 ==> ((n as u16) as i16) as i64 == n,
        -0x8000_0000 <= n < 0 ==> ((n as u32) as i32) as i64 == n,
        (n as u64) as i64 == n,
        (t as u8) as i8 == t,
{
    assert(-32 <= n < 0 ==> (n as u8) >= 0xe0 && ((n as u8) as i8) as i64 == n) by (bit_vector);
    assert(-0x80 <= n < 0 ==> ((n as u8) as i8) as i64 == n) by (bit_vector);
    assert(-0x8000 <= n < 0 ==> ((n as u16) as i16) as i64 == n) by (bit_vector);
    assert(-0x8000_0000 <= n < 0 ==> ((n as u32) as i32) as i64 == n) by (bit_vector);
    assert((n as u64) as i64 == n) by (bit_vector);
    assert((t as u8) as i8 == t) by (bit_vector);
}

proof fn lemma_wide16(t: u8, x: u16, rest: Seq<u8>)
    ensures
        (seq![t] + be16(x) + rest).len() == 3 + rest.len(),
        (seq![t] + be16(x) + rest)[0] == t,
        be16_at(seq![t] + be16(x) + rest, 1) == x,
{
    let b = seq![t] + be16(x) + rest;
    lemma_be16(x, b, 1);
}

proof fn lemma_wide32(t: u8, x: u32, rest: Seq<u8>)
    ensures
        (seq![t] + be32(x) + rest).len() == 5 + rest.len(),
        (seq![t] + be32(x) + rest)[0] == t,
        be32_at(seq![t] + be32(x) + rest, 1) == x,
{
    let b = seq![t] + be32(x) + rest;
    assert(b.subrange(1, 5) =~= be32(x));
    lemma_be32(x, b, 1);
}

proof fn lemma_wide64(t: u8, x: u64, rest: Seq<u8>)
    ensures
        (seq![t] + be64(x) + rest).len() == 9 + rest.len(),
        (seq![t] + be64(x) + rest)[0] == t,
        be64_at(seq![t] + be64(x) + rest, 1) == x,
{
    let b = seq![t] + be64(x) + rest;
    assert(b.subrange(1, 9) =~= be64(x));
    lemma_be64(x, b, 1);
}

/// Reading back the bytes of an encoded header, whatever follows them, gives
/// the header (in its canonical form) and consumes exactly its bytes.
pub proof fn lemma_head_round_trip(h: Head, rest: Seq<u8>)
    ensures
        head_of(enc_head(h) + rest) == Some((canon(h), enc_head(h).len() as int)),
{
    let e = enc_head(h);
    let b = e + rest;
    match h {
        Head::Uint(n) => lemma_uint_round_trip(n, rest),
        Head::Int(n) => {
            if n >= 0 {
                lemma_uint_round_trip(n as u64, rest);
            } else {
                lemma_sign_casts(n, 0);
                if n >= -0x80 {
                } else if n >= -0x8000 {
                    lemma_wide16(0xd1, n as u16, rest);
                } else if n >= -0x8000_0000 {
                    lemma_wide32(0xd2, n as u32, rest);
                } else {
                    lemma_wide64(0xd3, n as u64, rest);
                }
            }
        },
        Head::F32(x) => lemma_wide32(0xca, x, rest),
        Head::F64(x) => lemma_wide64(0xcb, x, rest),
        Head::Str(len) => {
            if len <= 0xff {
            } else if len <= 0xffff {
                lemma_wide16(0xda, len as u16, rest);
            } else {
                lemma_wide32(0xdb, len, rest);
            }
        },
        Head::Bin(len) => {
            if len <= 0xff {
            } else if len <= 0xffff {
                lemma_wide16(0xc5, len as u16, rest);
            } else {
                lemma_wide32(0xc6, len, rest);
            }
        },
        Head::Array(n) => {
            if n <= 15 {
            } else if n <= 0xffff {
                lemma_wide16(0xdc, n as u16, rest);
            } else {
                lemma_wide32(0xdd, n, rest);
            }
        },
        Head::Pairs(n) => {
            if n <= 15 {
            } else if n <= 0xffff {
                lemma_wide16(0xde, n as u16, rest);
            } else {
                lemma_wide32(0xdf, n, rest);
            }
        },
        Head::Ext(ty, len) => {
            lemma_sign_casts(0, ty);
            if len == 1 || len == 2 || len == 4 || len == 8 || len == 16 || len <= 0xff {
            } else if len <= 0xffff {
                lemma_wide16(0xc8, len as u16, seq![ty as u8] + rest);
                assert(b =~= seq![0xc8u8] + be16(len as u16) + (seq![ty as u8] + rest));
            } else {
                lemma_wide32(0xc9, len, seq![ty as u8] + rest);
                assert(b =~= seq![0xc9u8] + be32(len) + (seq![ty as u8] + rest));
            }
        },
        _ => {},
    }
}

proof fn lemma_uint_round_trip(n: u64, rest: Seq<u8>)
    ensures
        head_of(enc_uint(n) + rest) == Some((Head::Uint(n), enc_uint(n).len() as int)),
{
    if n <= 0xff {
    } else if n <= 0xffff {
        lemma_wide16(0xcd, n as u16, rest);
    } else if n <= 0xffff_ffff {
        lemma_wide32(0xce, n as u32, rest);
    } else {
        lemma_wide64(0xcf, n, rest);
    }
}

} // verus!
