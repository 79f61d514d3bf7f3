//! Properties that relate the encoder and the decoder.
use vstd::prelude::*;
use crate::de::{int_result, option_result, payload_result, variant_key};
use crate::defs::{marker_of, Marker};
use crate::head::{
    be64, canon, enc_array_head, enc_bin_head, enc_head, enc_int, enc_map_head, enc_str_head,
    enc_uint, head_of, lemma_head_round_trip, Head,
};
use crate::ser::{enc_bin, enc_ext, enc_option, enc_str, enc_variant_key};

verus! {

/// An unsigned integer decodes back to itself, consuming exactly its bytes.
pub proof fn lemma_uint_round_trip(n: u64, rest: Seq<u8>)
    ensures
        int_result(enc_uint(n) + rest, 0, u64::MAX as int) == Ok::<(int, int), crate::error::Error>(
            (n as int, enc_uint(n).len() as int),
        ),
{
    lemma_head_round_trip(Head::Uint(n), rest);
}

/// A signed integer decodes back to itself, consuming exactly its bytes.
pub proof fn lemma_int_round_trip(n: i64, rest: Seq<u8>)
    ensures
        int_result(enc_int(n) + rest, i64::MIN as int, i64::MAX as int) == Ok::<
            (int, int),
            crate::error::Error,
        >((n as int, enc_int(n).len() as int)),
{
    lemma_head_round_trip(Head::Int(n), rest);
}

proof fn lemma_payload_round_trip(h: Head, p: Seq<u8>, rest: Seq<u8>, kind: int)
    requires
        canon(h) == h,
        match h {
            Head::Str(len) => kind == 0 && len == p.len(),
            Head::Bin(len) => kind == 1 && len == p.len(),
            Head::Ext(_, len) => kind == 2 && len == p.len(),
            _ => false,
        },
    ensures
        payload_result(enc_head(h) + p + rest, kind) == Ok::<(Head, Seq<u8>, int), crate::error::Error>(
            (h, p, (enc_head(h).len() + p.len()) as int),
        ),
{
    let e = enc_head(h);
    lemma_head_round_trip(h, p + rest);
    assert(e + p + rest =~= e + (p + rest));
    assert((e + p + rest).subrange(e.len() as int, (e.len() + p.len()) as int) =~= p);
}

/// A string decodes back to its bytes, consuming exactly its encoding.
pub proof fn lemma_str_round_trip(p: Seq<u8>, rest: Seq<u8>)
    requires
        p.len() <= u32::MAX,
    ensures
        payload_result(enc_str(p) + rest, 0) == Ok::<(Head, Seq<u8>, int), crate::error::Error>(
            (Head::Str(p.len() as u32), p, enc_str(p).len() as int),
        ),
{
    lemma_payload_round_trip(Head::Str(p.len() as u32), p, rest, 0);
}

/// A binary blob decodes back to its bytes, consuming exactly its encoding.
pub proof fn lemma_bin_round_trip(p: Seq<u8>, rest: Seq<u8>)
    requires
        p.len() <= u32::MAX,
    ensures
        payload_result(enc_bin(p) + rest, 1) == Ok::<(Head, Seq<u8>, int), crate::error::Error>(
            (Head::Bin(p.len() as u32), p, enc_bin(p).len() as int),
        ),
{
    lemma_payload_round_trip(Head::Bin(p.len() as u32), p, rest, 1);
}

/// An extension value decodes back to its discriminator and payload.
pub proof fn lemma_ext_round_trip(ty: i8, p: Seq<u8>, rest: Seq<u8>)
    requires
        p.len() <= u32::MAX,
    ensures
        payload_result(enc_ext(ty, p) + rest, 2) == Ok::<(Head, Seq<u8>, int), crate::error::Error>(
            (Head::Ext(ty, p.len() as u32), p, enc_ext(ty, p).len() as int),
        ),
{
    lemma_payload_round_trip(Head::Ext(ty, p.len() as u32), p, rest, 2);
}

/// The name written for an enum variant is the name read back, and what
/// follows it is the variant's value.
pub proof fn lemma_variant_round_trip(name: Seq<u8>, rest: Seq<u8>)
    requires
        name.len() <= u32::MAX,
    ensures
        variant_key(enc_variant_key(name) + rest) == Ok::<(Seq<u8>, int), crate::error::Error>(
            (name, enc_variant_key(name).len() as int),
        ),
{
    let b = enc_variant_key(name) + rest;
    let tail = enc_str(name) + rest;
    assert(b =~= seq![0x81u8] + tail);
    lemma_head_round_trip(Head::Pairs(1), tail);
    assert(enc_head(Head::Pairs(1)) =~= seq![0x81u8]);
    assert(b.skip(1) =~= tail);
    lemma_str_round_trip(name, rest);
}

/// An unsigned integer written in the widest form still decodes into any
/// target whose range holds it, and fails with `TypeMismatch` otherwise.
pub proof fn lemma_wide_uint(n: u64, rest: Seq<u8>, lo: int, hi: int)
    ensures
        int_result(seq![0xcfu8] + be64(n) + rest, lo, hi) == (if lo <= n <= hi {
            Ok::<(int, int), crate::error::Error>((n as int, 9))
        } else {
            Err::<(int, int), crate::error::Error>(crate::error::Error::TypeMismatch)
        }),
{
    let b = seq![0xcfu8] + be64(n) + rest;
    assert(b.subrange(1, 9) =~= be64(n));
    crate::head::lemma_be64(n, b, 1);
}

/// A signed integer written in the widest signed form still decodes into
/// any target whose range holds it, and fails with `TypeMismatch` otherwise.
pub proof fn lemma_wide_int(n: i64, rest: Seq<u8>, lo: int, hi: int)
    ensures
        int_result(seq![0xd3u8] + be64(n as u64) + rest, lo, hi) == (if lo <= n <= hi {
            Ok::<(int, int), crate::error::Error>((n as int, 9))
        } else {
            Err::<(int, int), crate::error::Error>(crate::error::Error::TypeMismatch)
        }),
{
    let b = seq![0xd3u8] + be64(n as u64) + rest;
    assert(b.subrange(1, 9) =~= be64(n as u64));
    crate::head::lemma_be64(n as u64, b, 1);
    assert((n as u64) as i64 == n) by (bit_vector);
}

/// Where each length-prefixed header changes width: the tag family and the
/// number of header bytes on each side of every boundary.
pub proof fn lemma_header_widths(n: u32)
    ensures
        n <= 31 ==> enc_str_head(n).len() == 1 && marker_of(enc_str_head(n)[0]) == Marker::FixStr(
            n as u8,
        ),
        32 <= n <= 0xff ==> enc_str_head(n).len() == 2 && marker_of(enc_str_head(n)[0])
            == Marker::Str8,
        0x100 <= n <= 0xffff ==> enc_str_head(n).len() == 3 && marker_of(enc_str_head(n)[0])
            == Marker::Str16,
        0x10000 <= n ==> enc_str_head(n).len() == 5 && marker_of(enc_str_head(n)[0])
            == Marker::Str32,
        n <= 0xff ==> enc_bin_head(n).len() == 2 && marker_of(enc_bin_head(n)[0]) == Marker::Bin8,
        0x100 <= n <= 0xffff ==> enc_bin_head(n).len() == 3 && marker_of(enc_bin_head(n)[0])
            == Marker::Bin16,
        0x10000 <= n ==> enc_bin_head(n).len() == 5 && marker_of(enc_bin_head(n)[0])
            == Marker::Bin32,
        n <= 15 ==> enc_array_head(n).len() == 1 && marker_of(enc_array_head(n)[0])
            == Marker::FixArray(n as u8),
        16 <= n <= 0xffff ==> enc_array_head(n).len() == 3 && marker_of(enc_array_head(n)[0])
            == Marker::Array16,
        0x10000 <= n ==> enc_array_head(n).len() == 5 && marker_of(enc_array_head(n)[0])
            == Marker::Array32,
        n <= 15 ==> enc_map_head(n).len() == 1 && marker_of(enc_map_head(n)[0]) == Marker::FixMap(
            n as u8,
        ),
        16 <= n <= 0xffff ==> enc_map_head(n).len() == 3 && marker_of(enc_map_head(n)[0])
            == Marker::Map16,
        0x10000 <= n ==> enc_map_head(n).len() == 5 && marker_of(enc_map_head(n)[0])
            == Marker::Map32,
{
}

/// An optional value decodes back to itself, with its header in canonical
/// form. A present nil (an option nested in an option) is left out: it is
/// written as nil, which reads as `None`. The unit value is not nil but an
/// empty array, so a present unit is covered.
pub proof fn lemma_option_round_trip(v: Option<Head>, rest: Seq<u8>)
    requires
        v != Some(Head::Nil),
    ensures
        option_result(enc_option(v) + rest) == Ok::<(Option<Head>, int), crate::error::Error>(
            (
                match v {
                    None => None,
                    Some(h) => Some(canon(h)),
                },
                enc_option(v).len() as int,
            ),
        ),
{
    match v {
        None => lemma_head_round_trip(Head::Nil, rest),
        Some(h) => lemma_head_round_trip(h, rest),
    }
}

/// A header that carries its whole value: nothing follows it.
pub open spec fn is_scalar(h: Head) -> bool {
    match h {
        Head::Nil | Head::Bool(_) | Head::Uint(_) | Head::Int(_) | Head::F32(_) | Head::F64(_) => true,
        _ => false,
    }
}

/// The bytes of a run of values, each written in turn.
pub open spec fn enc_heads(hs: Seq<Head>) -> Seq<u8>
    decreases hs.len(),
{
    if hs.len() == 0 {
        Seq::empty()
    } else {
        enc_head(hs[0]) + enc_heads(hs.drop_first())
    }
}

/// Reading `k` headers one after another from `b`: the headers and the bytes they took.
pub open spec fn read_heads(b: Seq<u8>, k: nat) -> Option<(Seq<Head>, int)>
    decreases k,
{
    if k == 0 {
        Some((Seq::empty(), 0))
    } else {
        match head_of(b) {
            None => None,
            Some((h, n)) => match read_heads(b.skip(n), (k - 1) as nat) {
                None => None,
                Some((t, m)) => Some((seq![h] + t, n + m)),
            },
        }
    }
}

/// Reading back a run of written headers gives each one in canonical form.
pub proof fn lemma_heads_round_trip(hs: Seq<Head>, rest: Seq<u8>)
    ensures
        read_heads(enc_heads(hs) + rest, hs.len()) == Some(
            (hs.map_values(|h: Head| canon(h)), enc_heads(hs).len() as int),
        ),
    decreases hs.len(),
{
    if hs.len() == 0 {
        assert(hs.map_values(|h: Head| canon(h)) =~= Seq::<Head>::empty());
        assert(Seq::<u8>::empty() + rest =~= rest);
    } else {
        let e = enc_head(hs[0]);
        let tail = hs.drop_first();
        let b = enc_heads(hs) + rest;
        assert(b =~= e + (enc_heads(tail) + rest));
        lemma_head_round_trip(hs[0], enc_heads(tail) + rest);
        assert(b.skip(e.len() as int) =~= enc_heads(tail) + rest);
        lemma_heads_round_trip(tail, rest);
        assert(seq![canon(hs[0])] + tail.map_values(|h: Head| canon(h)) =~= hs.map_values(
            |h: Head| canon(h),
        ));
    }
}

/// A whole array of scalar values decodes back to the same count and the
/// same values in the same order, consuming exactly its bytes.
pub proof fn lemma_array_round_trip(hs: Seq<Head>, rest: Seq<u8>)
    requires
        hs.len() <= u32::MAX,
        forall|i: int| 0 <= i < hs.len() ==> is_scalar(#[trigger] hs[i]),
    ensures
        ({
            let b = enc_array_head(hs.len() as u32) + enc_heads(hs) + rest;
            let n = enc_array_head(hs.len() as u32).len() as int;
            &&& head_of(b) == Some((Head::Array(hs.len() as u32), n))
            &&& read_heads(b.skip(n), hs.len()) == Some(
                (hs.map_values(|h: Head| canon(h)), enc_heads(hs).len() as int),
            )
        }),
{
    let e = enc_array_head(hs.len() as u32);
    let b = e + enc_heads(hs) + rest;
    assert(b =~= enc_head(Head::Array(hs.len() as u32)) + (enc_heads(hs) + rest));
    lemma_head_round_trip(Head::Array(hs.len() as u32), enc_heads(hs) + rest);
    assert(b.skip(e.len() as int) =~= enc_heads(hs) + rest);
    lemma_heads_round_trip(hs, rest);
}

/// A whole map of scalar keys and values, written key, value, key, value,
/// decodes back to the same pairs in the same order.
pub proof fn lemma_map_round_trip(kvs: Seq<Head>, rest: Seq<u8>)
    requires
        kvs.len() % 2 == 0,
        kvs.len() / 2 <= u32::MAX,
        forall|i: int| 0 <= i < kvs.len() ==> is_scalar(#[trigger] kvs[i]),
    ensures
        ({
            let pairs = (kvs.len() / 2) as u32;
            let b = enc_map_head(pairs) + enc_heads(kvs) + rest;
            let n = enc_map_head(pairs).len() as int;
            &&& head_of(b) == Some((Head::Pairs(pairs), n))
            &&& read_heads(b.skip(n), 2 * pairs as nat) == Some(
                (kvs.map_values(|h: Head| canon(h)), enc_heads(kvs).len() as int),
            )
        }),
{
    let pairs = (kvs.len() / 2) as u32;
    let e = enc_map_head(pairs);
    let b = e + enc_heads(kvs) + rest;
    assert(b =~= enc_head(Head::Pairs(pairs)) + (enc_heads(kvs) + rest));
    lemma_head_round_trip(Head::Pairs(pairs), enc_heads(kvs) + rest);
    assert(b.skip(e.len() as int) =~= enc_heads(kvs) + rest);
    lemma_heads_round_trip(kvs, rest);
    assert(2 * pairs as nat == kvs.len());
}

/// A present unit is written as an empty array, apart from `None` (nil), and
/// reads back as present.
pub proof fn lemma_unit_option_round_trip(rest: Seq<u8>)
    ensures
        enc_option(Some(Head::Array(0))) == seq![0x90u8],
        enc_option(Some(Head::Array(0))) != enc_option(None),
        option_result(enc_option(Some(Head::Array(0))) + rest) == Ok::<
            (Option<Head>, int),
            crate::error::Error,
        >((Some(Head::Array(0)), 1)),
        option_result(enc_option(None) + rest) == Ok::<(Option<Head>, int), crate::error::Error>(
            (None, 1),
        ),
{
    lemma_head_round_trip(Head::Array(0), rest);
    lemma_head_round_trip(Head::Nil, rest);
    assert(enc_head(Head::Array(0)) =~= seq![0x90u8]);
    assert(seq![0x90u8][0] != seq![0xc0u8][0]);
}

/// Every scalar value (nil, a boolean, an integer of any sign, a float's
/// bits) decodes back to itself, consuming exactly its bytes; a
/// non-negative signed integer comes back in its unsigned form.
pub proof fn lemma_scalar_round_trip(h: Head, rest: Seq<u8>)
    requires
        is_scalar(h),
    ensures
        head_of(enc_head(h) + rest) == Some((canon(h), enc_head(h).len() as int)),
        canon(h) == h || (h matches Head::Int(n) && n >= 0 && canon(h) == Head::Uint(n as u64)),
{
    lemma_head_round_trip(h, rest);
}

} // verus!
