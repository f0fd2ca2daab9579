//! The calls into `parity_scale_codec`, each behind a contract that Verus takes
//! on trust. Every contract is stated over the model in [`crate::wire`], so the
//! rest of the library is proved against the bytes that the codec really writes
//! and reads.

use crate::wire::{compact_decoding, compact_encoding, int_decoding, le_bytes};
use vstd::prelude::*;

verus! {

/// `parity_scale_codec::Error`, the reason a decode failed. The library carries
/// it as far as the caller that maps it and never looks inside.
#[verifier::external_type_specification]
#[verifier::external_body]
pub struct ExCodecError(parity_scale_codec::Error);

/// `parity_scale_codec::Output::write` on a `Vec<u8>`: the bytes are appended
/// as they are, with nothing put before or after them.
#[verifier::external_body]
pub(crate) fn write_raw(out: &mut Vec<u8>, bytes: &[u8])
    ensures
        final(out)@ == old(out)@ + bytes@,
{
    parity_scale_codec::Output::write(out, bytes)
}

/// `parity_scale_codec::Encode::encode_to` on a `u32`: appends its four bytes,
/// least significant first.
#[verifier::external_body]
pub(crate) fn write_u32(out: &mut Vec<u8>, v: u32)
    ensures
        final(out)@ == old(out)@ + le_bytes(v as nat, 4),
{
    parity_scale_codec::Encode::encode_to(&v, out)
}

/// `parity_scale_codec::Encode::encode_to` on a `u64`: appends its eight bytes,
/// least significant first.
#[verifier::external_body]
pub(crate) fn write_u64(out: &mut Vec<u8>, v: u64)
    ensures
        final(out)@ == old(out)@ + le_bytes(v as nat, 8),
{
    parity_scale_codec::Encode::encode_to(&v, out)
}

/// `parity_scale_codec::Encode::encode_to` on a `u128`: appends its sixteen
/// bytes, least significant first.
#[verifier::external_body]
pub(crate) fn write_u128(out: &mut Vec<u8>, v: u128)
    ensures
        final(out)@ == old(out)@ + le_bytes(v as nat, 16),
{
    parity_scale_codec::Encode::encode_to(&v, out)
}

/// `parity_scale_codec::Encode::encode_to` on a `Compact<u32>`: appends the
/// compact indicator of `n`, in the shortest of its four forms.
#[verifier::external_body]
pub(crate) fn write_compact(out: &mut Vec<u8>, n: u32)
    ensures
        final(out)@ == old(out)@ + compact_encoding(n as nat),
{
    parity_scale_codec::Encode::encode_to(&parity_scale_codec::Compact(n), out)
}

/// `parity_scale_codec::Decode::decode` for `u32` on a byte slice: takes four
/// bytes off the front and reads them least significant first; fails only where
/// fewer than four bytes are there.
#[verifier::external_body]
pub(crate) fn read_u32<'a>(input: &'a [u8]) -> (r: Result<
    (u32, &'a [u8]),
    parity_scale_codec::Error,
>)
    ensures
        match r {
            Ok((v, rest)) => int_decoding(input@, 4) == Some((v as nat, rest@)),
            Err(_) => int_decoding(input@, 4) is None,
        },
{
    let mut rest = input;
    let v = <u32 as parity_scale_codec::Decode>::decode(&mut rest)?;
    Ok((v, rest))
}

/// `parity_scale_codec::Decode::decode` for `u64` on a byte slice: takes eight
/// bytes off the front and reads them least significant first; fails only where
/// fewer than eight bytes are there.
#[verifier::external_body]
pub(crate) fn read_u64<'a>(input: &'a [u8]) -> (r: Result<
    (u64, &'a [u8]),
    parity_scale_codec::Error,
>)
    ensures
        match r {
            Ok((v, rest)) => int_decoding(input@, 8) == Some((v as nat, rest@)),
            Err(_) => int_decoding(input@, 8) is None,
        },
{
    let mut rest = input;
    let v = <u64 as parity_scale_codec::Decode>::decode(&mut rest)?;
    Ok((v, rest))
}

/// `parity_scale_codec::Decode::decode` for `u128` on a byte slice: takes
/// sixteen bytes off the front and reads them least significant first; fails
/// only where fewer than sixteen bytes are there.
#[verifier::external_body]
pub(crate) fn read_u128<'a>(input: &'a [u8]) -> (r: Result<
    (u128, &'a [u8]),
    parity_scale_codec::Error,
>)
    ensures
        match r {
            Ok((v, rest)) => int_decoding(input@, 16) == Some((v as nat, rest@)),
            Err(_) => int_decoding(input@, 16) is None,
        },
{
    let mut rest = input;
    let v = <u128 as parity_scale_codec::Decode>::decode(&mut rest)?;
    Ok((v, rest))
}

/// `parity_scale_codec::Decode::decode` for `Compact<u32>` on a byte slice:
/// reads one compact indicator off the front. It fails where the slice ends
/// inside the indicator, and where the count is spelled in a longer form than
/// it needs or does not fit in 32 bits.
#[verifier::external_body]
pub(crate) fn read_compact<'a>(input: &'a [u8]) -> (r: Result<
    (u32, &'a [u8]),
    parity_scale_codec::Error,
>)
    ensures
        match r {
            Ok((n, rest)) => compact_decoding(input@) == Some((n as nat, rest@)),
            Err(_) => compact_decoding(input@) is None,
        },
{
    let mut rest = input;
    let n = <parity_scale_codec::Compact<u32> as parity_scale_codec::Decode>::decode(&mut rest)?;
    Ok((n.0, rest))
}

} // verus!
