//! The encoder: each call appends the narrowest tag and payload for one value.
use vstd::prelude::*;
use vstd::string::StringSliceAdditionalSpecFns;
use crate::error::Error;
use crate::head::{
    be16, be32, be64, enc_array_head, enc_bin_head, enc_ext_head, enc_head, enc_int, enc_map_head,
    enc_str_head, enc_uint, Head,
};

verus! {

/// The encoding of a string or blob payload: its header, then the bytes verbatim.
pub open spec fn enc_str(b: Seq<u8>) -> Seq<u8> {
    enc_str_head(b.len() as u32) + b
}

pub open spec fn enc_bin(b: Seq<u8>) -> Seq<u8> {
    enc_bin_head(b.len() as u32) + b
}

pub open spec fn enc_ext(ty: i8, b: Seq<u8>) -> Seq<u8> {
    enc_ext_head(ty, b.len() as u32) + b
}

/// The prefix of every enum variant: a one-entry map whose key is the variant's name.
pub open spec fn enc_variant_key(name: Seq<u8>) -> Seq<u8> {
    seq![0x81u8] + enc_str(name)
}

/// `None` is nil; `Some(x)` is written as `x` itself, with no wrapper.
pub open spec fn enc_option(v: Option<Head>) -> Seq<u8> {
    match v {
        None => enc_head(Head::Nil),
        Some(h) => enc_head(h),
    }
}

pub open spec fn fits_u32(n: int) -> bool {
    n <= 0xffff_ffff
}

/// Writes values into a growable byte buffer.
pub struct Serializer {
    out: Vec<u8>,
}

impl View for Serializer {
    type V = Seq<u8>;

    closed spec fn view(&self) -> Seq<u8> {
        self.out@
    }
}

impl Serializer {
    pub fn new() -> (s: Serializer)
        ensures
            s@ == Seq::<u8>::empty(),
    {
        Serializer { out: Vec::new() }
    }

    /// The bytes written so far.
    pub fn into_bytes(self) -> (r: Vec<u8>)
        ensures
            r@ == self@,
    {
        self.out
    }

    fn push_be16(&mut self, x: u16)
        ensures
            final(self)@ == old(self)@ + be16(x),
    {
        self.out.push((x >> 8) as u8);
        self.out.push(x as u8);
        assert(self.out@ =~= old(self)@ + be16(x));
    }

    fn push_be32(&mut self, x: u32)
        ensures
            final(self)@ == old(self)@ + be32(x),
    {
        self.out.push((x >> 24) as u8);
        self.out.push((x >> 16) as u8);
        self.out.push((x >> 8) as u8);
        self.out.push(x as u8);
        assert(self.out@ =~= old(self)@ + be32(x));
    }

    fn push_be64(&mut self, x: u64)
        ensures
            final(self)@ == old(self)@ + be64(x),
    {
        self.push_be32((x >> 32) as u32);
        self.push_be32(x as u32);
        assert(((x >> 32) as u32 >> 24) as u8 == (x >> 56) as u8 && ((x >> 32) as u32 >> 16) as u8
            == (x >> 48) as u8 && ((x >> 32) as u32 >> 8) as u8 == (x >> 40) as u8
            && ((x >> 32) as u32) as u8 == (x >> 32) as u8) by (bit_vector);
        assert(((x as u32) >> 24) as u8 == (x >> 24) as u8 && ((x as u32) >> 16) as u8 == (x >> 16) as u8
            && ((x as u32) >> 8) as u8 == (x >> 8) as u8 && (x as u32) as u8 == x as u8)
            by (bit_vector);
        assert(self.out@ =~= old(self)@ + be64(x));
    }

    fn push_all(&mut self, b: &[u8])
        ensures
            final(self)@ == old(self)@ + b@,
    {
        let mut i: usize = 0;
        while i < b.len()
            invariant
                i <= b@.len(),
                self.out@ == old(self)@ + b@.subrange(0, i as int),
            decreases b@.len() - i,
        {
            self.out.push(b[i]);
            i = i + 1;
            assert(self.out@ =~= old(self)@ + b@.subrange(0, i as int));
        }
        assert(b@.subrange(0, i as int) =~= b@);
    }

    pub fn write_nil(&mut self)
        ensures
            final(self)@ == old(self)@ + enc_head(Head::Nil),
    {
        self.out.push(0xc0);
        assert(self.out@ =~= old(self)@ + enc_head(Head::Nil));
    }

    pub fn write_bool(&mut self, v: bool)
        ensures
            final(self)@ == old(self)@ + enc_head(Head::Bool(v)),
    {
        self.out.push(if v { 0xc3 } else { 0xc2 });
        assert(self.out@ =~= old(self)@ + enc_head(Head::Bool(v)));
    }

    /// Writes an unsigned integer in the narrowest form that holds it.
    pub fn write_uint(&mut self, n: u64)
        ensures
            final(self)@ == old(self)@ + enc_uint(n),
    {
        if n <= 0x7f {
            self.out.push(n as u8);
        } else if n <= 0xff {
            self.out.push(0xcc);
            self.out.push(n as u8);
        } else if n <= 0xffff {
            self.out.push(0xcd);
            self.push_be16(n as u16);
        } else if n <= 0xffff_ffff {
            self.out.push(0xce);
            self.push_be32(n as u32);
        } else {
            self.out.push(0xcf);
            self.push_be64(n);
        }
        assert(self.out@ =~= old(self)@ + enc_uint(n));
    }

    /// Writes a signed integer in the narrowest form that holds it, sign included.
    pub fn write_int(&mut self, n: i64)
        ensures
            final(self)@ == old(self)@ + enc_int(n),
    {
        if n >= 0 {
            self.write_uint(n as u64);
        } else if n >= -32 {
            self.out.push(n as u8);
        } else if n >= -0x80 {
            self.out.push(0xd0);
            self.out.push(n as u8);
        } else if n >= -0x8000 {
            self.out.push(0xd1);
            self.push_be16(n as u16);
        } else if n >= -0x8000_0000 {
            self.out.push(0xd2);
            self.push_be32(n as u32);
        } else {
            self.out.push(0xd3);
            self.push_be64(n as u64);
        }
        assert(self.out@ =~= old(self)@ + enc_int(n));
    }

    /// Writes a 32-bit float given by its bits.
    pub fn write_f32_bits(&mut self, bits: u32)
        ensures
            final(self)@ == old(self)@ + enc_head(Head::F32(bits)),
    {
        self.out.push(0xca);
        self.push_be32(bits);
        assert(self.out@ =~= old(self)@ + enc_head(Head::F32(bits)));
    }

    /// Writes a 64-bit float given by its bits.
    pub fn write_f64_bits(&mut self, bits: u64)
        ensures
            final(self)@ == old(self)@ + enc_head(Head::F64(bits)),
    {
        self.out.push(0xcb);
        self.push_be64(bits);
        assert(self.out@ =~= old(self)@ + enc_head(Head::F64(bits)));
    }

    fn write_str_head(&mut self, len: u32)
        ensures
            final(self)@ == old(self)@ + enc_str_head(len),
    {
        if len <= 31 {
            self.out.push(0xa0 + len as u8);
        } else if len <= 0xff {
            self.out.push(0xd9);
            self.out.push(len as u8);
        } else if len <= 0xffff {
            self.out.push(0xda);
            self.push_be16(len as u16);
        } else {
            self.out.push(0xdb);
            self.push_be32(len);
        }
        assert(self.out@ =~= old(self)@ + enc_str_head(len));
    }

    fn write_bin_head(&mut self, len: u32)
        ensures
            final(self)@ == old(self)@ + enc_bin_head(len),
    {
        if len <= 0xff {
            self.out.push(0xc4);
            self.out.push(len as u8);
        } else if len <= 0xffff {
            self.out.push(0xc5);
            self.push_be16(len as u16);
        } else {
            self.out.push(0xc6);
            self.push_be32(len);
        }
        assert(self.out@ =~= old(self)@ + enc_bin_head(len));
    }

    fn write_array_head(&mut self, n: u32)
        ensures
            final(self)@ == old(self)@ + enc_array_head(n),
    {
        if n <= 15 {
            self.out.push(0x90 + n as u8);
        } else if n <= 0xffff {
            self.out.push(0xdc);
            self.push_be16(n as u16);
        } else {
            self.out.push(0xdd);
            self.push_be32(n);
        }
        assert(self.out@ =~= old(self)@ + enc_array_head(n));
    }

    fn write_map_head(&mut self, n: u32)
        ensures
            final(self)@ == old(self)@ + enc_map_head(n),
    {
        if n <= 15 {
            self.out.push(0x80 + n as u8);
        } else if n <= 0xffff {
            self.out.push(0xde);
            self.push_be16(n as u16);
        } else {
            self.out.push(0xdf);
            self.push_be32(n);
        }
        assert(self.out@ =~= old(self)@ + enc_map_head(n));
    }

    fn write_ext_head(&mut self, ty: i8, len: u32)
        ensures
            final(self)@ == old(self)@ + enc_ext_head(ty, len),
    {
        if len == 1 {
            self.out.push(0xd4);
        } else if len == 2 {
            self.out.push(0xd5);
        } else if len == 4 {
            self.out.push(0xd6);
        } else if len == 8 {
            self.out.push(0xd7);
        } else if len == 16 {
            self.out.push(0xd8);
        } else if len <= 0xff {
            self.out.push(0xc7);
            self.out.push(len as u8);
        } else if len <= 0xffff {
            self.out.push(0xc8);
            self.push_be16(len as u16);
        } else {
            self.out.push(0xc9);
            self.push_be32(len);
        }
        self.out.push(ty as u8);
        assert(self.out@ =~= old(self)@ + enc_ext_head(ty, len));
    }

    /// Writes any header in its narrowest form.
    pub fn write_head(&mut self, h: Head)
        ensures
            final(self)@ == old(self)@ + enc_head(h),
    {
        match h {
            Head::Nil => self.write_nil(),
            Head::Bool(v) => self.write_bool(v),
            Head::Uint(n) => self.write_uint(n),
            Head::Int(n) => self.write_int(n),
            Head::F32(x) => self.write_f32_bits(x),
            Head::F64(x) => self.write_f64_bits(x),
            Head::Str(len) => self.write_str_head(len),
            Head::Bin(len) => self.write_bin_head(len),
            Head::Array(n) => self.write_array_head(n),
            Head::Pairs(n) => self.write_map_head(n),
            Head::Ext(ty, len) => self.write_ext_head(ty, len),
        }
    }

    /// Writes the unit value as an empty array, so that a present unit is
    /// never taken for a missing value (nil).
    pub fn write_unit(&mut self)
        ensures
            final(self)@ == old(self)@ + enc_head(Head::Array(0)),
    {
        self.out.push(0x90);
        assert(self.out@ =~= old(self)@ + enc_head(Head::Array(0)));
    }

    /// Writes an optional value: nil for `None`, the value itself for `Some`.
    pub fn write_option(&mut self, v: Option<Head>)
        ensures
            final(self)@ == old(self)@ + enc_option(v),
    {
        match v {
            None => self.write_nil(),
            Some(h) => self.write_head(h),
        }
    }

    /// Writes a UTF-8 string: a length-selected header, then its bytes verbatim.
    pub fn write_str(&mut self, s: &str) -> (r: Result<(), Error>)
        ensures
            fits_u32(s.spec_bytes().len() as int) ==> r is Ok && final(self)@ == old(self)@ + enc_str(
                s.spec_bytes(),
            ),
            !fits_u32(s.spec_bytes().len() as int) ==> r == Err::<(), Error>(Error::LengthOverflow)
                && final(self)@ == old(self)@,
    {
        let b = s.as_bytes();
        if b.len() > 0xffff_ffff {
            return Err(Error::LengthOverflow);
        }
        self.write_str_head(b.len() as u32);
        self.push_all(b);
        Ok(())
    }

    /// Writes a binary blob: a length-selected header, then its bytes verbatim.
    pub fn write_bin(&mut self, b: &[u8]) -> (r: Result<(), Error>)
        ensures
            fits_u32(b@.len() as int) ==> r is Ok && final(self)@ == old(self)@ + enc_bin(b@),
            !fits_u32(b@.len() as int) ==> r == Err::<(), Error>(Error::LengthOverflow)
                && final(self)@ == old(self)@,
    {
        if b.len() > 0xffff_ffff {
            return Err(Error::LengthOverflow);
        }
        self.write_bin_head(b.len() as u32);
        self.push_all(b);
        Ok(())
    }

    /// Writes an extension value: discriminator and payload.
    pub fn write_ext(&mut self, ty: i8, b: &[u8]) -> (r: Result<(), Error>)
        ensures
            fits_u32(b@.len() as int) ==> r is Ok && final(self)@ == old(self)@ + enc_ext(ty, b@),
            !fits_u32(b@.len() as int) ==> r == Err::<(), Error>(Error::LengthOverflow)
                && final(self)@ == old(self)@,
    {
        if b.len() > 0xffff_ffff {
            return Err(Error::LengthOverflow);
        }
        self.write_ext_head(ty, b.len() as u32);
        self.push_all(b);
        Ok(())
    }

    /// Starts a sequence of `len` elements, which the caller then writes one by one.
    /// A sequence of unknown length cannot be written.
    pub fn begin_array(&mut self, len: Option<usize>) -> (r: Result<(), Error>)
        ensures
            len is None ==> r == Err::<(), Error>(Error::SizeHint) && final(self)@ == old(self)@,
            len is Some && !fits_u32(len.unwrap() as int) ==> r == Err::<(), Error>(Error::LengthOverflow)
                && final(self)@ == old(self)@,
            len is Some && fits_u32(len.unwrap() as int) ==> r is Ok && final(self)@ == old(self)@
                + enc_array_head(len.unwrap() as u32),
    {
        match len {
            None => Err(Error::SizeHint),
            Some(n) => {
                if n > 0xffff_ffff {
                    return Err(Error::LengthOverflow);
                }
                self.write_array_head(n as u32);
                Ok(())
            },
        }
    }

    /// Starts a map of `len` pairs, which the caller then writes key, value, key, value.
    pub fn begin_map(&mut self, len: Option<usize>) -> (r: Result<(), Error>)
        ensures
            len is None ==> r == Err::<(), Error>(Error::SizeHint) && final(self)@ == old(self)@,
            len is Some && !fits_u32(len.unwrap() as int) ==> r == Err::<(), Error>(Error::LengthOverflow)
                && final(self)@ == old(self)@,
            len is Some && fits_u32(len.unwrap() as int) ==> r is Ok && final(self)@ == old(self)@
                + enc_map_head(len.unwrap() as u32),
    {
        match len {
            None => Err(Error::SizeHint),
            Some(n) => {
                if n > 0xffff_ffff {
                    return Err(Error::LengthOverflow);
                }
                self.write_map_head(n as u32);
                Ok(())
            },
        }
    }

    /// Starts an enum variant: a one-entry map keyed by the variant's name.
    /// The caller then writes the variant's value.
    pub fn begin_variant(&mut self, name: &str) -> (r: Result<(), Error>)
        ensures
            fits_u32(name.spec_bytes().len() as int) ==> r is Ok && final(self)@ == old(self)@
                + enc_variant_key(name.spec_bytes()),
            !fits_u32(name.spec_bytes().len() as int) ==> r == Err::<(), Error>(
                Error::LengthOverflow,
            ) && final(self)@ == old(self)@,
    {
        if name.as_bytes().len() > 0xffff_ffff {
            return Err(Error::LengthOverflow);
        }
        self.out.push(0x81);
        let r = self.write_str(name);
        assert(self.out@ =~= old(self)@ + enc_variant_key(name.spec_bytes()));
        r
    }

    /// Writes a unit variant: its name mapped to nil.
    pub fn write_unit_variant(&mut self, name: &str) -> (r: Result<(), Error>)
        ensures
            fits_u32(name.spec_bytes().len() as int) ==> r is Ok && final(self)@ == old(self)@
                + enc_variant_key(name.spec_bytes()) + enc_head(Head::Nil),
            !fits_u32(name.spec_bytes().len() as int) ==> r == Err::<(), Error>(
                Error::LengthOverflow,
            ) && final(self)@ == old(self)@,
    {
        let r = self.begin_variant(name);
        if r.is_err() {
            return r;
        }
        self.write_nil();
        Ok(())
    }

    /// Starts a tuple variant: its name mapped to an array of `len` members.
    pub fn begin_tuple_variant(&mut self, name: &str, len: usize) -> (r: Result<(), Error>)
        ensures
            fits_u32(name.spec_bytes().len() as int) && fits_u32(len as int) ==> r is Ok
                && final(self)@ == old(self)@ + enc_variant_key(name.spec_bytes())
                + enc_array_head(len as u32),
            !(fits_u32(name.spec_bytes().len() as int) && fits_u32(len as int)) ==> r == Err::<
                (),
                Error,
            >(Error::LengthOverflow) && final(self)@ == old(self)@,
    {
        if len > 0xffff_ffff || name.as_bytes().len() > 0xffff_ffff {
            return Err(Error::LengthOverflow);
        }
        let _ = self.begin_variant(name);
        self.write_array_head(len as u32);
        Ok(())
    }

    /// Starts a struct variant: its name mapped to a map of `len` fields.
    pub fn begin_struct_variant(&mut self, name: &str, len: usize) -> (r: Result<(), Error>)
        ensures
            fits_u32(name.spec_bytes().len() as int) && fits_u32(len as int) ==> r is Ok
                && final(self)@ == old(self)@ + enc_variant_key(name.spec_bytes())
                + enc_map_head(len as u32),
            !(fits_u32(name.spec_bytes().len() as int) && fits_u32(len as int)) ==> r == Err::<
                (),
                Error,
            >(Error::LengthOverflow) && final(self)@ == old(self)@,
    {
        if len > 0xffff_ffff || name.as_bytes().len() > 0xffff_ffff {
            return Err(Error::LengthOverflow);
        }
        let _ = self.begin_variant(name);
        self.write_map_head(len as u32);
        Ok(())
    }
}

/// Encoding `Some(x)` gives exactly the bytes of `x`, and `None` the bytes of nil.
pub proof fn lemma_option_identity(h: Head)
    ensures
        enc_option(Some(h)) == enc_head(h),
        enc_option(None) == enc_head(Head::Nil),
        enc_option(None) == seq![0xc0u8],
{
}

} // verus!
