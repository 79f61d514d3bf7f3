//! The MessagePack tag byte: classification of a leading byte into a marker,
//! and the byte each marker is written as.
use vstd::prelude::*;

verus! {

/// What a leading byte says about the value that follows.
#[derive(Debug, Clone, Copy, PartialEq, Eq, Structural)]
pub enum Marker {
    FixPos(u8),
    FixNeg(i8),
    FixMap(u8),
    FixArray(u8),
    FixStr(u8),
    Nil,
    Reserved,
    False,
    True,
    Bin8,
    Bin16,
    Bin32,
    Ext8,
    Ext16,
    Ext32,
    F32,
    F64,
    U8,
    U16,
    U32,
    U64,
    I8,
    I16,
    I32,
    I64,
    FixExt1,
    FixExt2,
    FixExt4,
    FixExt8,
    FixExt16,
    Str8,
    Str16,
    Str32,
    Array16,
    Array32,
    Map16,
    Map32,
}

/// The marker that a leading byte stands for.
pub open spec fn marker_of(b: u8) -> Marker {
    if b <= 0x7f {
        Marker::FixPos(b)
    } else if b <= 0x8f {
        Marker::FixMap((b - 0x80) as u8)
    } else if b <= 0x9f {
        Marker::FixArray((b - 0x90) as u8)
    } else if b <= 0xbf {
        Marker::FixStr((b - 0xa0) as u8)
    } else if b >= 0xe0 {
        Marker::FixNeg(b as i8)
    } else {
        match b {
            0xc0 => Marker::Nil,
            0xc2 => Marker::False,
            0xc3 => Marker::True,
            0xc4 => Marker::Bin8,
            0xc5 => Marker::Bin16,
            0xc6 => Marker::Bin32,
            0xc7 => Marker::Ext8,
            0xc8 => Marker::Ext16,
            0xc9 => Marker::Ext32,
            0xca => Marker::F32,
            0xcb => Marker::F64,
            0xcc => Marker::U8,
            0xcd => Marker::U16,
            0xce => Marker::U32,
            0xcf => Marker::U64,
            0xd0 => Marker::I8,
            0xd1 => Marker::I16,
            0xd2 => Marker::I32,
            0xd3 => Marker::I64,
            0xd4 => Marker::FixExt1,
            0xd5 => Marker::FixExt2,
            0xd6 => Marker::FixExt4,
            0xd7 => Marker::FixExt8,
            0xd8 => Marker::FixExt16,
            0xd9 => Marker::Str8,
            0xda => Marker::Str16,
            0xdb => Marker::Str32,
            0xdc => Marker::Array16,
            0xdd => Marker::Array32,
            0xde => Marker::Map16,
            0xdf => Marker::Map32,
            _ => Marker::Reserved,
        }
    }
}

impl Marker {
    /// A marker that some byte stands for: inline values in range, not the reserved byte.
    pub open spec fn wf(self) -> bool {
        match self {
            Marker::FixPos(n) => n <= 0x7f,
            Marker::FixNeg(n) => -32 <= n <= -1,
            Marker::FixMap(n) => n <= 15,
            Marker::FixArray(n) => n <= 15,
            Marker::FixStr(n) => n <= 31,
            Marker::Reserved => false,
            _ => true,
        }
    }

    /// The byte a marker is written as.
    pub open spec fn byte(self) -> u8 {
        match self {
            Marker::FixPos(n) => n,
            Marker::FixNeg(n) => n as u8,
            Marker::FixMap(n) => (0x80 + n) as u8,
            Marker::FixArray(n) => (0x90 + n) as u8,
            Marker::FixStr(n) => (0xa0 + n) as u8,
            Marker::Nil => 0xc0,
            Marker::Reserved => 0xc1,
            Marker::False => 0xc2,
            Marker::True => 0xc3,
            Marker::Bin8 => 0xc4,
            Marker::Bin16 => 0xc5,
            Marker::Bin32 => 0xc6,
            Marker::Ext8 => 0xc7,
            Marker::Ext16 => 0xc8,
            Marker::Ext32 => 0xc9,
            Marker::F32 => 0xca,
            Marker::F64 => 0xcb,
            Marker::U8 => 0xcc,
            Marker::U16 => 0xcd,
            Marker::U32 => 0xce,
            Marker::U64 => 0xcf,
            Marker::I8 => 0xd0,
            Marker::I16 => 0xd1,
            Marker::I32 => 0xd2,
            Marker::I64 => 0xd3,
            Marker::FixExt1 => 0xd4,
            Marker::FixExt2 => 0xd5,
            Marker::FixExt4 => 0xd6,
            Marker::FixExt8 => 0xd7,
            Marker::FixExt16 => 0xd8,
            Marker::Str8 => 0xd9,
            Marker::Str16 => 0xda,
            Marker::Str32 => 0xdb,
            Marker::Array16 => 0xdc,
            Marker::Array32 => 0xdd,
            Marker::Map16 => 0xde,
            Marker::Map32 => 0xdf,
        }
    }

    /// Classifies a leading byte.
    pub fn from_u8(b: u8) -> (m: Marker)
        ensures
            m == marker_of(b),
            m.wf() <==> b != 0xc1,
    {
        proof {
            lemma_fixneg_byte(b);
        }
        if b <= 0x7f {
            Marker::FixPos(b)
        } else if b <= 0x8f {
            Marker::FixMap(b - 0x80)
        } else if b <= 0x9f {
            Marker::FixArray(b - 0x90)
        } else if b <= 0xbf {
            Marker::FixStr(b - 0xa0)
        } else if b >= 0xe0 {
            Marker::FixNeg(b as i8)
        } else {
            match b {
                0xc0 => Marker::Nil,
                0xc2 => Marker::False,
                0xc3 => Marker::True,
                0xc4 => Marker::Bin8,
                0xc5 => Marker::Bin16,
                0xc6 => Marker::Bin32,
                0xc7 => Marker::Ext8,
                0xc8 => Marker::Ext16,
                0xc9 => Marker::Ext32,
                0xca => Marker::F32,
                0xcb => Marker::F64,
                0xcc => Marker::U8,
                0xcd => Marker::U16,
                0xce => Marker::U32,
                0xcf => Marker::U64,
                0xd0 => Marker::I8,
                0xd1 => Marker::I16,
                0xd2 => Marker::I32,
                0xd3 => Marker::I64,
                0xd4 => Marker::FixExt1,
                0xd5 => Marker::FixExt2,
                0xd6 => Marker::FixExt4,
                0xd7 => Marker::FixExt8,
                0xd8 => Marker::FixExt16,
                0xd9 => Marker::Str8,
                0xda => Marker::Str16,
                0xdb => Marker::Str32,
                0xdc => Marker::Array16,
                0xdd => Marker::Array32,
                0xde => Marker::Map16,
                0xdf => Marker::Map32,
                _ => Marker::Reserved,
            }
        }
    }

    /// The byte that a well-formed marker is written as.
    pub fn to_u8(self) -> (b: u8)
        requires
            self.wf(),
        ensures
            b == self.byte(),
            marker_of(b) == self,
    {
        proof {
            lemma_marker_byte_round_trip(self);
        }
        match self {
            Marker::FixPos(n) => n,
            Marker::FixNeg(n) => n as u8,
            Marker::FixMap(n) => 0x80 + n,
            Marker::FixArray(n) => 0x90 + n,
            Marker::FixStr(n) => 0xa0 + n,
            Marker::Nil => 0xc0,
            Marker::Reserved => 0xc1,
            Marker::False => 0xc2,
            Marker::True => 0xc3,
            Marker::Bin8 => 0xc4,
            Marker::Bin16 => 0xc5,
            Marker::Bin32 => 0xc6,
            Marker::Ext8 => 0xc7,
            Marker::Ext16 => 0xc8,
            Marker::Ext32 => 0xc9,
            Marker::F32 => 0xca,
            Marker::F64 => 0xcb,
            Marker::U8 => 0xcc,
            Marker::U16 => 0xcd,
            Marker::U32 => 0xce,
            Marker::U64 => 0xcf,
            Marker::I8 => 0xd0,
            Marker::I16 => 0xd1,
            Marker::I32 => 0xd2,
            Marker::I64 => 0xd3,
            Marker::FixExt1 => 0xd4,
            Marker::FixExt2 => 0xd5,
            Marker::FixExt4 => 0xd6,
            Marker::FixExt8 => 0xd7,
            Marker::FixExt16 => 0xd8,
            Marker::Str8 => 0xd9,
            Marker::Str16 => 0xda,
            Marker::Str32 => 0xdb,
            Marker::Array16 => 0xdc,
            Marker::Array32 => 0xdd,
            Marker::Map16 => 0xde,
            Marker::Map32 => 0xdf,
        }
    }
}

proof fn lemma_fixneg_byte(b: u8)
    ensures
        b >= 0xe0 ==> -32 <= (b as i8) <= -1,
{
    assert(b >= 0xe0 ==> -32 <= (b as i8) <= -1) by (bit_vector);
}

/// Writing a well-formed marker as a byte and classifying that byte gives the marker back.
pub proof fn lemma_marker_byte_round_trip(m: Marker)
    requires
        m.wf(),
    ensures
        marker_of(m.byte()) == m,
        m.byte() != 0xc1,
{
    if let Marker::FixNeg(n) = m {
        assert(-32 <= n <= -1 ==> (n as u8) >= 0xe0 && ((n as u8) as i8) == n) by (bit_vector);
    }
}

/// Classifying a byte other than the reserved one and writing the marker back gives the byte.
pub proof fn lemma_byte_marker_round_trip(b: u8)
    requires
        b != 0xc1,
    ensures
        marker_of(b).wf(),
        marker_of(b).byte() == b,
{
    lemma_fixneg_byte(b);
    assert(b >= 0xe0 ==> ((b as i8) as u8) == b) by (bit_vector);
}

} // verus!
