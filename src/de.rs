//! The decoder: reads one header at a time from a borrowed byte slice and
//! checks it against what the caller expects. Strings, blobs and extension
//! payloads are handed out as sub-slices of the input, without copying.
use vstd::prelude::*;
use vstd::string::StringSliceAdditionalSpecFns;
use vstd::utf8::valid_utf8;
use crate::cursor::{MapCursor, SeqCursor};
use crate::defs::{marker_of, Marker};
use crate::error::Error;
use crate::head::{be16_at, be32_at, be64_at, head_of, Head};

verus! {

/// The error for bytes that hold no complete header.
pub open spec fn head_error(b: Seq<u8>) -> Error {
    if b.len() > 0 && b[0] == 0xc1 {
        Error::InvalidTag
    } else {
        Error::EndOfStream
    }
}

/// The bytes left once the header at the start of `b`, if complete, is read.
pub open spec fn after_head(b: Seq<u8>) -> Seq<u8> {
    match head_of(b) {
        Some((_, n)) => b.skip(n),
        None => b,
    }
}

/// The integer a header carries, whatever its width and signedness.
pub open spec fn int_value(h: Head) -> Option<int> {
    match h {
        Head::Uint(n) => Some(n as int),
        Head::Int(n) => Some(n as int),
        _ => None,
    }
}

/// Decoding an integer that must lie in `[lo, hi]`: the value and the bytes consumed.
pub open spec fn int_result(b: Seq<u8>, lo: int, hi: int) -> Result<(int, int), Error> {
    match head_of(b) {
        None => Err(head_error(b)),
        Some((h, n)) => match int_value(h) {
            Some(v) => if lo <= v <= hi {
                Ok((v, n))
            } else {
                Err(Error::TypeMismatch)
            },
            None => Err(Error::TypeMismatch),
        },
    }
}

/// Decoding an optional value: nil is `None`, any other header `Some` of it.
pub open spec fn option_result(b: Seq<u8>) -> Result<(Option<Head>, int), Error> {
    match head_of(b) {
        None => Err(head_error(b)),
        Some((Head::Nil, n)) => Ok((None, n)),
        Some((h, n)) => Ok((Some(h), n)),
    }
}

/// The payload length a header announces, for strings (`kind == 0`), blobs
/// (`kind == 1`) or extension values (`kind == 2`).
pub open spec fn payload_len(h: Head, kind: int) -> Option<int> {
    match h {
        Head::Str(len) => if kind == 0 { Some(len as int) } else { None },
        Head::Bin(len) => if kind == 1 { Some(len as int) } else { None },
        Head::Ext(_, len) => if kind == 2 { Some(len as int) } else { None },
        _ => None,
    }
}

/// Decoding a header of the given kind and the payload it announces: the
/// header, the payload and the bytes consumed.
pub open spec fn payload_result(b: Seq<u8>, kind: int) -> Result<(Head, Seq<u8>, int), Error> {
    match head_of(b) {
        None => Err(head_error(b)),
        Some((h, n)) => match payload_len(h, kind) {
            None => Err(Error::TypeMismatch),
            Some(len) => if n + len <= b.len() {
                Ok((h, b.subrange(n, n + len), n + len))
            } else {
                Err(Error::EndOfStream)
            },
        },
    }
}

/// The name at the start of an encoded enum variant (a one-entry map keyed by
/// a string), with the bytes up to the variant's value.
pub open spec fn variant_key(b: Seq<u8>) -> Result<(Seq<u8>, int), Error> {
    match head_of(b) {
        None => Err(head_error(b)),
        Some((Head::Pairs(c), n)) => if c == 1 {
            match payload_result(b.skip(n), 0) {
                Ok((_, key, m)) => Ok((key, n + m)),
                Err(e) => Err(e),
            }
        } else {
            Err(Error::TypeMismatch)
        },
        Some(_) => Err(Error::TypeMismatch),
    }
}

/// Where the reader stands after decoding a variant's name fails: past every
/// header and payload that was read in full, nothing further.
pub open spec fn variant_error_rest(b: Seq<u8>) -> Seq<u8> {
    match head_of(b) {
        Some((Head::Pairs(c), n)) => if c == 1 {
            match payload_result(b.skip(n), 0) {
                Ok((_, _, m)) => b.skip(n + m),
                Err(_) => after_head(b.skip(n)),
            }
        } else {
            b.skip(n)
        },
        _ => after_head(b),
    }
}

pub open spec fn names_bytes(names: Seq<&str>) -> Seq<Seq<u8>> {
    names.map_values(|s: &str| s.spec_bytes())
}

/// `i` is the first position of `key` among `names`.
pub open spec fn is_first_match(names: Seq<Seq<u8>>, key: Seq<u8>, i: int) -> bool {
    &&& 0 <= i < names.len()
    &&& names[i] == key
    &&& forall|j: int| 0 <= j < i ==> names[j] != key
}

fn bytes_eq(a: &[u8], b: &[u8]) -> (r: bool)
    ensures
        r == (a@ == b@),
{
    if a.len() != b.len() {
        return false;
    }
    let mut i: usize = 0;
    while i < a.len()
        invariant
            a@.len() == b@.len(),
            i <= a@.len(),
            forall|k: int| 0 <= k < i ==> a@[k] == b@[k],
        decreases a@.len() - i,
    {
        if a[i] != b[i] {
            return false;
        }
        i = i + 1;
    }
    assert(a@ =~= b@);
    true
}

/// The number of bytes of a header that starts with this marker, the marker included.
pub open spec fn head_len(m: Marker) -> int {
    match m {
        Marker::U8 | Marker::I8 | Marker::Bin8 | Marker::Str8 => 2,
        Marker::FixExt1 | Marker::FixExt2 | Marker::FixExt4 | Marker::FixExt8 | Marker::FixExt16 => 2,
        Marker::U16 | Marker::I16 | Marker::Bin16 | Marker::Str16 | Marker::Array16 | Marker::Map16
        | Marker::Ext8 => 3,
        Marker::Ext16 => 4,
        Marker::U32 | Marker::I32 | Marker::F32 | Marker::Bin32 | Marker::Str32 | Marker::Array32
        | Marker::Map32 => 5,
        Marker::Ext32 => 6,
        Marker::U64 | Marker::I64 | Marker::F64 => 9,
        _ => 1,
    }
}

fn head_len_exec(m: Marker) -> (r: usize)
    ensures
        r == head_len(m),
{
    match m {
        Marker::U8 | Marker::I8 | Marker::Bin8 | Marker::Str8 => 2,
        Marker::FixExt1 | Marker::FixExt2 | Marker::FixExt4 | Marker::FixExt8 | Marker::FixExt16 => 2,
        Marker::U16 | Marker::I16 | Marker::Bin16 | Marker::Str16 | Marker::Array16 | Marker::Map16
        | Marker::Ext8 => 3,
        Marker::Ext16 => 4,
        Marker::U32 | Marker::I32 | Marker::F32 | Marker::Bin32 | Marker::Str32 | Marker::Array32
        | Marker::Map32 => 5,
        Marker::Ext32 => 6,
        Marker::U64 | Marker::I64 | Marker::F64 => 9,
        _ => 1,
    }
}

fn be16_exec(b: &[u8], i: usize) -> (r: u16)
    requires
        i + 2 <= b@.len(),
    ensures
        r == be16_at(b@, i as int),
{
    ((b[i] as u16) << 8) | (b[i + 1] as u16)
}

fn be32_exec(b: &[u8], i: usize) -> (r: u32)
    requires
        i + 4 <= b@.len(),
    ensures
        r == be32_at(b@, i as int),
{
    ((b[i] as u32) << 24) | ((b[i + 1] as u32) << 16) | ((b[i + 2] as u32) << 8) | (b[i + 3] as u32)
}

fn be64_exec(b: &[u8], i: usize) -> (r: u64)
    requires
        i + 8 <= b@.len(),
    ensures
        r == be64_at(b@, i as int),
{
    ((b[i] as u64) << 56) | ((b[i + 1] as u64) << 48) | ((b[i + 2] as u64) << 40) | ((b[i + 3] as u64)
        << 32) | ((b[i + 4] as u64) << 24) | ((b[i + 5] as u64) << 16) | ((b[i + 6] as u64) << 8) | (b[i
        + 7] as u64)
}

/// The header at position `p` of `b`, with its length in bytes.
pub(crate) fn head_at(b: &[u8], p: usize) -> (r: Option<(Head, usize)>)
    requires
        p <= b@.len(),
    ensures
        match head_of(b@.skip(p as int)) {
            None => r is None,
            Some((h, n)) => r == Some((h, n as usize)),
        },
        r matches Some((_, n)) ==> 1 <= n <= b@.len() - p && n == head_len(marker_of(b@[p as int])),
        p < b@.len() && b@[p as int] != 0xc1 && b@.len() - p >= head_len(marker_of(b@[p as int]))
            ==> r is Some,
{
    let ghost rest = b@.skip(p as int);
    let avail = b.len() - p;
    if avail == 0 {
        return None;
    }
    assert(rest[0] == b@[p as int]);
    let m = Marker::from_u8(b[p]);
    let need = head_len_exec(m);
    if avail < need {
        return None;
    }
    let q = p + 1;
    proof {
        assert forall|k: int| 0 <= k < need implies rest[k] == b@[p + k] by {}
    }
    let h = match m {
        Marker::FixPos(n) => Head::Uint(n as u64),
        Marker::FixNeg(n) => Head::Int(n as i64),
        Marker::FixMap(n) => Head::Pairs(n as u32),
        Marker::FixArray(n) => Head::Array(n as u32),
        Marker::FixStr(n) => Head::Str(n as u32),
        Marker::Nil => Head::Nil,
        Marker::Reserved => {
            return None;
        },
        Marker::False => Head::Bool(false),
        Marker::True => Head::Bool(true),
        Marker::Bin8 => Head::Bin(b[q] as u32),
        Marker::Bin16 => Head::Bin(be16_exec(b, q) as u32),
        Marker::Bin32 => Head::Bin(be32_exec(b, q)),
        Marker::Ext8 => Head::Ext(b[q + 1] as i8, b[q] as u32),
        Marker::Ext16 => Head::Ext(b[q + 2] as i8, be16_exec(b, q) as u32),
        Marker::Ext32 => Head::Ext(b[q + 4] as i8, be32_exec(b, q)),
        Marker::F32 => Head::F32(be32_exec(b, q)),
        Marker::F64 => Head::F64(be64_exec(b, q)),
        Marker::U8 => Head::Uint(b[q] as u64),
        Marker::U16 => Head::Uint(be16_exec(b, q) as u64),
        Marker::U32 => Head::Uint(be32_exec(b, q) as u64),
        Marker::U64 => Head::Uint(be64_exec(b, q)),
        Marker::I8 => Head::Int(b[q] as i8 as i64),
        Marker::I16 => Head::Int(be16_exec(b, q) as i16 as i64),
        Marker::I32 => Head::Int(be32_exec(b, q) as i32 as i64),
        Marker::I64 => Head::Int(be64_exec(b, q) as i64),
        Marker::FixExt1 => Head::Ext(b[q] as i8, 1),
        Marker::FixExt2 => Head::Ext(b[q] as i8, 2),
        Marker::FixExt4 => Head::Ext(b[q] as i8, 4),
        Marker::FixExt8 => Head::Ext(b[q] as i8, 8),
        Marker::FixExt16 => Head::Ext(b[q] as i8, 16),
        Marker::Str8 => Head::Str(b[q] as u32),
        Marker::Str16 => Head::Str(be16_exec(b, q) as u32),
        Marker::Str32 => Head::Str(be32_exec(b, q)),
        Marker::Array16 => Head::Array(be16_exec(b, q) as u32),
        Marker::Array32 => Head::Array(be32_exec(b, q)),
        Marker::Map16 => Head::Pairs(be16_exec(b, q) as u32),
        Marker::Map32 => Head::Pairs(be32_exec(b, q)),
    };
    Some((h, need))
}

fn payload_len_exec(h: Head, kind: u8) -> (r: Option<u32>)
    ensures
        match payload_len(h, kind as int) {
            Some(l) => r == Some(l as u32) && l <= u32::MAX,
            None => r is None,
        },
{
    match h {
        Head::Str(len) => if kind == 0 { Some(len) } else { None },
        Head::Bin(len) => if kind == 1 { Some(len) } else { None },
        Head::Ext(_, len) => if kind == 2 { Some(len) } else { None },
        _ => None,
    }
}

/// Relies on `core::str::from_utf8`: it succeeds exactly when the bytes are
/// valid UTF-8, and the string it returns holds exactly those bytes.
#[verifier::external_body]
fn utf8_of(b: &[u8]) -> (r: Option<&str>)
    ensures
        r is Some <==> valid_utf8(b@),
        r matches Some(s) ==> s.spec_bytes() == b@,
{
    core::str::from_utf8(b).ok()
}

/// Reads values from a borrowed byte slice, front to back.
pub struct Deserializer<'a> {
    bytes: &'a [u8],
    pos: usize,
}

impl<'a> Deserializer<'a> {
    /// The bytes not yet read.
    pub closed spec fn rest(&self) -> Seq<u8> {
        self.bytes@.skip(self.pos as int)
    }

    /// The whole input, read or not.
    pub closed spec fn input(&self) -> Seq<u8> {
        self.bytes@
    }

    pub closed spec fn wf(&self) -> bool {
        self.pos <= self.bytes@.len()
    }

    pub fn new(bytes: &'a [u8]) -> (d: Deserializer<'a>)
        ensures
            d.wf(),
            d.rest() == bytes@,
    {
        let d = Deserializer { bytes, pos: 0 };
        assert(d.rest() =~= bytes@);
        d
    }

    /// The number of bytes read so far.
    pub fn position(&self) -> (r: usize)
        requires
            self.wf(),
        ensures
            r + self.rest().len() == self.input().len(),
    {
        self.pos
    }

    /// The number of bytes not yet read.
    pub fn remaining(&self) -> (r: usize)
        requires
            self.wf(),
        ensures
            r == self.rest().len(),
    {
        self.bytes.len() - self.pos
    }

    /// Hands out the next `len` bytes as a sub-slice of the input.
    pub fn take(&mut self, len: usize) -> (r: Result<&'a [u8], Error>)
        requires
            old(self).wf(),
        ensures
            final(self).wf(),
            len <= old(self).rest().len() ==> (r matches Ok(s) && s@ == old(self).rest().take(
                len as int,
            ) && final(self).rest() == old(self).rest().skip(len as int)),
            len > old(self).rest().len() ==> r == Err::<&[u8], Error>(Error::EndOfStream)
                && final(self).rest() == old(self).rest(),
    {
        if len > self.bytes.len() - self.pos {
            return Err(Error::EndOfStream);
        }
        let s = vstd::slice::slice_subrange(self.bytes, self.pos, self.pos + len);
        self.pos = self.pos + len;
        assert(s@ =~= old(self).rest().take(len as int));
        assert(self.rest() =~= old(self).rest().skip(len as int));
        Ok(s)
    }

    /// Hands out the next `len` bytes as a string; fails with `TypeMismatch`
    /// when they are not UTF-8.
    pub fn take_str(&mut self, len: usize) -> (r: Result<&'a str, Error>)
        requires
            old(self).wf(),
        ensures
            final(self).wf(),
            len > old(self).rest().len() ==> r == Err::<&str, Error>(Error::EndOfStream)
                && final(self).rest() == old(self).rest(),
            len <= old(self).rest().len() && valid_utf8(old(self).rest().take(len as int)) ==> (
            r matches Ok(s) && s.spec_bytes() == old(self).rest().take(len as int) && final(
                self).rest() == old(self).rest().skip(len as int)),
            len <= old(self).rest().len() && !valid_utf8(old(self).rest().take(len as int)) ==> r
                == Err::<&str, Error>(Error::TypeMismatch) && final(self).rest() == old(
                self).rest().skip(len as int),
    {
        match self.take(len) {
            Ok(b) => match utf8_of(b) {
                Some(s) => Ok(s),
                None => Err(Error::TypeMismatch),
            },
            Err(e) => Err(e),
        }
    }

    /// Reads one header, in any of the widths the format allows.
    pub fn read_head(&mut self) -> (r: Result<Head, Error>)
        requires
            old(self).wf(),
        ensures
            final(self).wf(),
            final(self).rest() == after_head(old(self).rest()),
            match head_of(old(self).rest()) {
                Some((h, _)) => r == Ok::<Head, Error>(h),
                None => r == Err::<Head, Error>(head_error(old(self).rest())),
            },
    {
        let total = self.bytes.len();
        match head_at(self.bytes, self.pos) {
            Some((h, n)) => {
                self.pos = self.pos + n;
                assert(self.rest() =~= old(self).rest().skip(n as int));
                Ok(h)
            },
            None => {
                if self.pos < total && self.bytes[self.pos] == 0xc1 {
                    Err(Error::InvalidTag)
                } else {
                    Err(Error::EndOfStream)
                }
            },
        }
    }

    /// Decodes an integer of any width and signedness that lies in `[lo, hi]`.
    fn decode_int_within(&mut self, lo: i128, hi: i128) -> (r: Result<i128, Error>)
        requires
            old(self).wf(),
        ensures
            final(self).wf(),
            match int_result(old(self).rest(), lo as int, hi as int) {
                Ok((v, n)) => r == Ok::<i128, Error>(v as i128) && final(self).rest() == old(self).rest().skip(n),
                Err(e) => r == Err::<i128, Error>(e) && final(self).rest() == after_head(
                    old(self).rest(),
                ),
            },
    {
        let h = match self.read_head() {
            Ok(h) => h,
            Err(e) => return Err(e),
        };
        let v: i128 = match h {
            Head::Uint(n) => n as i128,
            Head::Int(n) => n as i128,
            _ => return Err(Error::TypeMismatch),
        };
        if lo <= v && v <= hi {
            Ok(v)
        } else {
            Err(Error::TypeMismatch)
        }
    }

    /// Decodes an integer written in any width into a `u8`; fails with
    /// `TypeMismatch` when the value does not fit.
    pub fn decode_u8(&mut self) -> (r: Result<u8, Error>)
        requires
            old(self).wf(),
        ensures
            final(self).wf(),
            match int_result(old(self).rest(), u8::MIN as int, u8::MAX as int) {
                Ok((v, n)) => r == Ok::<u8, Error>(v as u8) && final(self).rest() == old(self).rest().skip(n),
                Err(e) => r == Err::<u8, Error>(e) && final(self).rest() == after_head(
                    old(self).rest(),
                ),
            },
    {
        match self.decode_int_within(0, 0xff) {
            Ok(v) => Ok(v as u8),
            Err(e) => Err(e),
        }
    }

    /// Decodes an integer written in any width into a `u16`; fails with
    /// `TypeMismatch` when the value does not fit.
    pub fn decode_u16(&mut self) -> (r: Result<u16, Error>)
        requires
            old(self).wf(),
        ensures
            final(self).wf(),
            match int_result(old(self).rest(), u16::MIN as int, u16::MAX as int) {
                Ok((v, n)) => r == Ok::<u16, Error>(v as u16) && final(self).rest() == old(self).rest().skip(n),
                Err(e) => r == Err::<u16, Error>(e) && final(self).rest() == after_head(
                    old(self).rest(),
                ),
            },
    {
        match self.decode_int_within(0, 0xffff) {
            Ok(v) => Ok(v as u16),
            Err(e) => Err(e),
        }
    }

    /// Decodes an integer written in any width into a `u32`; fails with
    /// `TypeMismatch` when the value does not fit.
    pub fn decode_u32(&mut self) -> (r: Result<u32, Error>)
        requires
            old(self).wf(),
        ensures
            final(self).wf(),
            match int_result(old(self).rest(), u32::MIN as int, u32::MAX as int) {
                Ok((v, n)) => r == Ok::<u32, Error>(v as u32) && final(self).rest() == old(self).rest().skip(n),
                Err(e) => r == Err::<u32, Error>(e) && final(self).rest() == after_head(
                    old(self).rest(),
                ),
            },
    {
        match self.decode_int_within(0, 0xffff_ffff) {
            Ok(v) => Ok(v as u32),
            Err(e) => Err(e),
        }
    }

    /// Decodes an integer written in any width into a `u64`; fails with
    /// `TypeMismatch` when the value does not fit.
    pub fn decode_u64(&mut self) -> (r: Result<u64, Error>)
        requires
            old(self).wf(),
        ensures
            final(self).wf(),
            match int_result(old(self).rest(), u64::MIN as int, u64::MAX as int) {
                Ok((v, n)) => r == Ok::<u64, Error>(v as u64) && final(self).rest() == old(self).rest().skip(n),
                Err(e) => r == Err::<u64, Error>(e) && final(self).rest() == after_head(
                    old(self).rest(),
                ),
            },
    {
        match self.decode_int_within(0, 0xffff_ffff_ffff_ffff) {
            Ok(v) => Ok(v as u64),
            Err(e) => Err(e),
        }
    }

    /// Decodes an integer written in any width into a `i8`; fails with
    /// `TypeMismatch` when the value does not fit.
    pub fn decode_i8(&mut self) -> (r: Result<i8, Error>)
        requires
            old(self).wf(),
        ensures
            final(self).wf(),
            match int_result(old(self).rest(), i8::MIN as int, i8::MAX as int) {
                Ok((v, n)) => r == Ok::<i8, Error>(v as i8) && final(self).rest() == old(self).rest().skip(n),
                Err(e) => r == Err::<i8, Error>(e) && final(self).rest() == after_head(
                    old(self).rest(),
                ),
            },
    {
        match self.decode_int_within(-0x80, 0x7f) {
            Ok(v) => Ok(v as i8),
            Err(e) => Err(e),
        }
    }

    /// Decodes an integer written in any width into a `i16`; fails with
    /// `TypeMismatch` when the value does not fit.
    pub fn decode_i16(&mut self) -> (r: Result<i16, Error>)
        requires
            old(self).wf(),
        ensures
            final(self).wf(),
            match int_result(old(self).rest(), i16::MIN as int, i16::MAX as int) {
                Ok((v, n)) => r == Ok::<i16, Error>(v as i16) && final(self).rest() == old(self).rest().skip(n),
                Err(e) => r == Err::<i16, Error>(e) && final(self).rest() == after_head(
                    old(self).rest(),
                ),
            },
    {
        match self.decode_int_within(-0x8000, 0x7fff) {
            Ok(v) => Ok(v as i16),
            Err(e) => Err(e),
        }
    }

    /// Decodes an integer written in any width into a `i32`; fails with
    /// `TypeMismatch` when the value does not fit.
    pub fn decode_i32(&mut self) -> (r: Result<i32, Error>)
        requires
            old(self).wf(),
        ensures
            final(self).wf(),
            match int_result(old(self).rest(), i32::MIN as int, i32::MAX as int) {
                Ok((v, n)) => r == Ok::<i32, Error>(v as i32) && final(self).rest() == old(self).rest().skip(n),
                Err(e) => r == Err::<i32, Error>(e) && final(self).rest() == after_head(
                    old(self).rest(),
                ),
            },
    {
        match self.decode_int_within(-0x8000_0000, 0x7fff_ffff) {
            Ok(v) => Ok(v as i32),
            Err(e) => Err(e),
        }
    }

    /// Decodes an integer written in any width into a `i64`; fails with
    /// `TypeMismatch` when the value does not fit.
    pub fn decode_i64(&mut self) -> (r: Result<i64, Error>)
        requires
            old(self).wf(),
        ensures
            final(self).wf(),
            match int_result(old(self).rest(), i64::MIN as int, i64::MAX as int) {
                Ok((v, n)) => r == Ok::<i64, Error>(v as i64) && final(self).rest() == old(self).rest().skip(n),
                Err(e) => r == Err::<i64, Error>(e) && final(self).rest() == after_head(
                    old(self).rest(),
                ),
            },
    {
        match self.decode_int_within(-0x8000_0000_0000_0000, 0x7fff_ffff_ffff_ffff) {
            Ok(v) => Ok(v as i64),
            Err(e) => Err(e),
        }
    }

    /// Decodes nil.
    pub fn decode_nil(&mut self) -> (r: Result<(), Error>)
        requires
            old(self).wf(),
        ensures
            final(self).wf(),
            final(self).rest() == after_head(old(self).rest()),
            match head_of(old(self).rest()) {
                None => r == Err::<(), Error>(head_error(old(self).rest())),
                Some((Head::Nil, _)) => r == Ok::<(), Error>(()),
                Some(_) => r == Err::<(), Error>(Error::TypeMismatch),
            },
    {
        match self.read_head() {
            Ok(Head::Nil) => Ok(()),
            Ok(_) => Err(Error::TypeMismatch),
            Err(e) => Err(e),
        }
    }

    /// Decodes a boolean.
    pub fn decode_bool(&mut self) -> (r: Result<bool, Error>)
        requires
            old(self).wf(),
        ensures
            final(self).wf(),
            final(self).rest() == after_head(old(self).rest()),
            match head_of(old(self).rest()) {
                None => r == Err::<bool, Error>(head_error(old(self).rest())),
                Some((Head::Bool(v), _)) => r == Ok::<bool, Error>(v),
                Some(_) => r == Err::<bool, Error>(Error::TypeMismatch),
            },
    {
        match self.read_head() {
            Ok(Head::Bool(v)) => Ok(v),
            Ok(_) => Err(Error::TypeMismatch),
            Err(e) => Err(e),
        }
    }

    /// Decodes a 32-bit float, given as its bits.
    pub fn decode_f32_bits(&mut self) -> (r: Result<u32, Error>)
        requires
            old(self).wf(),
        ensures
            final(self).wf(),
            final(self).rest() == after_head(old(self).rest()),
            match head_of(old(self).rest()) {
                None => r == Err::<u32, Error>(head_error(old(self).rest())),
                Some((Head::F32(x), _)) => r == Ok::<u32, Error>(x),
                Some(_) => r == Err::<u32, Error>(Error::TypeMismatch),
            },
    {
        match self.read_head() {
            Ok(Head::F32(x)) => Ok(x),
            Ok(_) => Err(Error::TypeMismatch),
            Err(e) => Err(e),
        }
    }

    /// Decodes a 64-bit float, given as its bits.
    pub fn decode_f64_bits(&mut self) -> (r: Result<u64, Error>)
        requires
            old(self).wf(),
        ensures
            final(self).wf(),
            final(self).rest() == after_head(old(self).rest()),
            match head_of(old(self).rest()) {
                None => r == Err::<u64, Error>(head_error(old(self).rest())),
                Some((Head::F64(x), _)) => r == Ok::<u64, Error>(x),
                Some(_) => r == Err::<u64, Error>(Error::TypeMismatch),
            },
    {
        match self.read_head() {
            Ok(Head::F64(x)) => Ok(x),
            Ok(_) => Err(Error::TypeMismatch),
            Err(e) => Err(e),
        }
    }

    /// Decodes the unit value, written as an empty array.
    pub fn decode_unit(&mut self) -> (r: Result<(), Error>)
        requires
            old(self).wf(),
        ensures
            final(self).wf(),
            final(self).rest() == after_head(old(self).rest()),
            match head_of(old(self).rest()) {
                None => r == Err::<(), Error>(head_error(old(self).rest())),
                Some((h, _)) => if h == Head::Array(0) {
                    r == Ok::<(), Error>(())
                } else {
                    r == Err::<(), Error>(Error::TypeMismatch)
                },
            },
    {
        match self.read_head() {
            Ok(Head::Array(0)) => Ok(()),
            Ok(_) => Err(Error::TypeMismatch),
            Err(e) => Err(e),
        }
    }

    /// Decodes an optional value: nil is `None`, any other header is `Some` of it.
    pub fn decode_option(&mut self) -> (r: Result<Option<Head>, Error>)
        requires
            old(self).wf(),
        ensures
            final(self).wf(),
            final(self).rest() == after_head(old(self).rest()),
            match option_result(old(self).rest()) {
                Err(e) => r == Err::<Option<Head>, Error>(e),
                Ok((v, _)) => r == Ok::<Option<Head>, Error>(v),
            },
    {
        match self.read_head() {
            Ok(Head::Nil) => Ok(None),
            Ok(h) => Ok(Some(h)),
            Err(e) => Err(e),
        }
    }

    /// Reads a header of the given kind and hands out the payload it announces.
    fn read_payload(&mut self, kind: u8) -> (r: Result<(Head, &'a [u8]), Error>)
        requires
            old(self).wf(),
            kind <= 2,
        ensures
            final(self).wf(),
            match payload_result(old(self).rest(), kind as int) {
                Ok((h, p, n)) => (r matches Ok((h2, s)) && h2 == h && s@ == p) && final(self).rest()
                    == old(self).rest().skip(n),
                Err(e) => r == Err::<(Head, &[u8]), Error>(e) && final(self).rest() == after_head(
                    old(self).rest(),
                ),
            },
    {
        let ghost b = old(self).rest();
        let h = match self.read_head() {
            Ok(h) => h,
            Err(e) => return Err(e),
        };
        let ghost n = head_of(b).unwrap().1;
        assert(self.rest() == b.skip(n));
        let len = match payload_len_exec(h, kind) {
            Some(len) => len,
            None => return Err(Error::TypeMismatch),
        };
        if len as usize > self.bytes.len() - self.pos {
            assert(n + len > b.len());
            return Err(Error::EndOfStream);
        }
        let s = match self.take(len as usize) {
            Ok(s) => s,
            Err(e) => return Err(e),
        };
        assert(s@ =~= b.subrange(n, n + len));
        assert(self.rest() =~= b.skip(n + len));
        Ok((h, s))
    }

    /// Decodes a string as its raw bytes; a blob is not accepted in its place.
    pub fn decode_str_bytes(&mut self) -> (r: Result<&'a [u8], Error>)
        requires
            old(self).wf(),
        ensures
            final(self).wf(),
            match payload_result(old(self).rest(), 0) {
                Ok((_, p, n)) => (r matches Ok(s) && s@ == p) && final(self).rest() == old(
                    self).rest().skip(n),
                Err(e) => r == Err::<&[u8], Error>(e) && final(self).rest() == after_head(
                    old(self).rest(),
                ),
            },
    {
        match self.read_payload(0) {
            Ok((_, s)) => Ok(s),
            Err(e) => Err(e),
        }
    }

    /// Decodes a string, borrowed from the input; fails with `TypeMismatch`
    /// when its bytes are not UTF-8.
    pub fn decode_str(&mut self) -> (r: Result<&'a str, Error>)
        requires
            old(self).wf(),
        ensures
            final(self).wf(),
            payload_result(old(self).rest(), 0) matches Err(e) ==> r == Err::<&str, Error>(e),
            match payload_result(old(self).rest(), 0) {
                Ok((_, p, n)) => if valid_utf8(p) {
                    r matches Ok(s) && s.spec_bytes() == p && final(self).rest() == old(
                        self).rest().skip(n)
                } else {
                    r == Err::<&str, Error>(Error::TypeMismatch) && final(self).rest() == old(
                        self).rest().skip(n)
                },
                Err(_) => final(self).rest() == after_head(old(self).rest()),
            },
    {
        match self.decode_str_bytes() {
            Ok(b) => match utf8_of(b) {
                Some(s) => Ok(s),
                None => Err(Error::TypeMismatch),
            },
            Err(e) => Err(e),
        }
    }

    /// Decodes a binary blob, borrowed from the input; a string is not accepted in its place.
    pub fn decode_bin(&mut self) -> (r: Result<&'a [u8], Error>)
        requires
            old(self).wf(),
        ensures
            final(self).wf(),
            match payload_result(old(self).rest(), 1) {
                Ok((_, p, n)) => (r matches Ok(s) && s@ == p) && final(self).rest() == old(
                    self).rest().skip(n),
                Err(e) => r == Err::<&[u8], Error>(e) && final(self).rest() == after_head(
                    old(self).rest(),
                ),
            },
    {
        match self.read_payload(1) {
            Ok((_, s)) => Ok(s),
            Err(e) => Err(e),
        }
    }

    /// Decodes an extension value: its discriminator and its payload.
    pub fn decode_ext(&mut self) -> (r: Result<(i8, &'a [u8]), Error>)
        requires
            old(self).wf(),
        ensures
            final(self).wf(),
            match payload_result(old(self).rest(), 2) {
                Ok((h, p, n)) => (r matches Ok((ty, s)) && h == Head::Ext(ty, p.len() as u32) && s@
                    == p) && final(self).rest() == old(self).rest().skip(n),
                Err(e) => r == Err::<(i8, &[u8]), Error>(e) && final(self).rest() == after_head(
                    old(self).rest(),
                ),
            },
    {
        match self.read_payload(2) {
            Ok((Head::Ext(ty, _), s)) => Ok((ty, s)),
            Ok(_) => Err(Error::TypeMismatch),
            Err(e) => Err(e),
        }
    }

    /// Starts a sequence: the cursor it returns is bound to the declared count.
    pub fn begin_array(&mut self) -> (r: Result<SeqCursor, Error>)
        requires
            old(self).wf(),
        ensures
            final(self).wf(),
            final(self).rest() == after_head(old(self).rest()),
            match head_of(old(self).rest()) {
                None => r == Err::<SeqCursor, Error>(head_error(old(self).rest())),
                Some((Head::Array(n), _)) => r matches Ok(c) && c.wf() && c.declared() == n
                    && c.taken() == 0,
                Some(_) => r == Err::<SeqCursor, Error>(Error::TypeMismatch),
            },
    {
        match self.read_head() {
            Ok(Head::Array(n)) => Ok(SeqCursor::new(n)),
            Ok(_) => Err(Error::TypeMismatch),
            Err(e) => Err(e),
        }
    }

    /// Starts a map: the cursor it returns is bound to the declared pair count.
    pub fn begin_map(&mut self) -> (r: Result<MapCursor, Error>)
        requires
            old(self).wf(),
        ensures
            final(self).wf(),
            final(self).rest() == after_head(old(self).rest()),
            match head_of(old(self).rest()) {
                None => r == Err::<MapCursor, Error>(head_error(old(self).rest())),
                Some((Head::Pairs(n), _)) => r matches Ok(c) && c.wf() && c.declared() == n
                    && c.taken() == 0 && !c.value_pending(),
                Some(_) => r == Err::<MapCursor, Error>(Error::TypeMismatch),
            },
    {
        match self.read_head() {
            Ok(Head::Pairs(n)) => Ok(MapCursor::new(n)),
            Ok(_) => Err(Error::TypeMismatch),
            Err(e) => Err(e),
        }
    }

    /// Decodes the name of an enum variant and returns its position among
    /// `names` (the first, if several match). The caller then decodes the
    /// variant's value.
    pub fn decode_variant(&mut self, names: &[&str]) -> (r: Result<usize, Error>)
        requires
            old(self).wf(),
        ensures
            final(self).wf(),
            r is Err ==> final(self).rest() == variant_error_rest(old(self).rest()),
            match variant_key(old(self).rest()) {
                Err(e) => r == Err::<usize, Error>(e),
                Ok((key, n)) => final(self).rest() == old(self).rest().skip(n) && ((exists|i: int|
                    0 <= i < names@.len() && names_bytes(names@)[i] == key) ==> (r matches Ok(i)
                    && is_first_match(names_bytes(names@), key, i as int))) && (!(exists|i: int|
                    0 <= i < names@.len() && names_bytes(names@)[i] == key) ==> r == Err::<
                    usize,
                    Error,
                >(Error::TypeMismatch)),
            },
    {
        let ghost b = old(self).rest();
        match self.read_head() {
            Ok(Head::Pairs(c)) => {
                if c != 1 {
                    return Err(Error::TypeMismatch);
                }
            },
            Ok(_) => return Err(Error::TypeMismatch),
            Err(e) => return Err(e),
        }
        let ghost n = head_of(b).unwrap().1;
        let key = match self.decode_str_bytes() {
            Ok(k) => k,
            Err(e) => return Err(e),
        };
        let ghost k_end = n + payload_result(b.skip(n), 0).unwrap().2;
        proof {
            assert(self.rest() =~= b.skip(k_end));
        }
        assert(variant_key(b) == Ok::<(Seq<u8>, int), Error>((key@, k_end)));
        let ghost nb = names_bytes(names@);
        let mut i: usize = 0;
        while i < names.len()
            invariant
                i <= names@.len(),
                nb == names_bytes(names@),
                forall|j: int| 0 <= j < i ==> nb[j] != key@,
                self.wf(),
                b == old(self).rest(),
                self.rest() == b.skip(k_end),
                variant_key(b) == Ok::<(Seq<u8>, int), Error>((key@, k_end)),
            decreases names@.len() - i,
        {
            if bytes_eq(names[i].as_bytes(), key) {
                return Ok(i);
            }
            i = i + 1;
        }
        Err(Error::TypeMismatch)
    }
}

} // verus!
