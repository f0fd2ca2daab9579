//! The codec: how each type of value is written to the wire and read back.

use crate::scale::{
    read_compact, read_u128, read_u32, read_u64, write_compact, write_raw, write_u128, write_u32,
    write_u64,
};
use crate::wire::{
    compact_decoding, compact_encoding, int_decoding, le_bytes, lemma_compact_cut_short,
    lemma_compact_decoding_exact, lemma_compact_round_trip, lemma_int_decoding_exact,
    lemma_int_round_trip, lemma_le_bytes_len, lemma_radix_values,
};
use vstd::prelude::*;

verus! {

/// Why bytes could not be decoded.
#[derive(Clone, Copy, Debug, PartialEq, Eq, Structural)]
pub enum DecodeError {
    /// The bytes end before the value does.
    UnexpectedEnd,
    /// A byte has a value that the format does not allow in its place: a tag
    /// that stands for nothing, or a count in a longer form than it needs.
    Invalid,
}

/// A type of value with one canonical wire form.
///
/// The three spec functions speak of a value's model, its deep view. Three
/// laws bind them: what was written is read back, what is read was written
/// just so, and what was written and then cut short is not read at all.
pub trait Codec: DeepView + Sized {
    /// Whether the format can hold the value with model `m`.
    spec fn encodable(m: Self::V) -> bool;

    /// The bytes that stand for the value with model `m`.
    spec fn encoding(m: Self::V) -> Seq<u8>;

    /// Reads one value off the front of `s`: its model and the bytes after it,
    /// or why `s` does not start with a value.
    spec fn decoding(s: Seq<u8>) -> Result<(Self::V, Seq<u8>), DecodeError>;

    /// Decoding what was encoded gives the value back and leaves what followed
    /// it untouched.
    proof fn lemma_round_trip(m: Self::V, rest: Seq<u8>)
        requires
            Self::encodable(m),
        ensures
            Self::decoding(Self::encoding(m) + rest) == Ok::<_, DecodeError>((m, rest)),
    ;

    /// Whatever decodes is the encoding of the value it gives, followed by the
    /// rest it gives.
    proof fn lemma_decoding_exact(s: Seq<u8>)
        ensures
            match Self::decoding(s) {
                Ok((m, rest)) => Self::encodable(m) && s == Self::encoding(m) + rest,
                Err(_) => true,
            },
    ;

    /// An encoding cut short does not decode: every proper prefix of it is
    /// refused as ending too early.
    proof fn lemma_cut_short(m: Self::V, k: int)
        requires
            Self::encodable(m),
            0 <= k < Self::encoding(m).len(),
        ensures
            Self::decoding(Self::encoding(m).subrange(0, k)) == Err::<(Self::V, Seq<u8>), _>(
                DecodeError::UnexpectedEnd,
            ),
    ;

    /// Tells whether the format can hold this value.
    fn is_encodable(&self) -> (b: bool)
        ensures
            b == Self::encodable(self.deep_view()),
    ;

    /// Appends the value's encoding to `out`.
    fn encode_to(&self, out: &mut Vec<u8>)
        requires
            Self::encodable(self.deep_view()),
        ensures
            final(out)@ == old(out)@ + Self::encoding(self.deep_view()),
    ;

    /// Reads one value off the front of `input` and hands back what follows
    /// it, or says why `input` does not start with a value.
    fn decode<'a>(input: &'a [u8]) -> (r: Result<(Self, &'a [u8]), DecodeError>)
        ensures
            match r {
                Ok((v, rest)) => Self::decoding(input@) == Ok::<_, DecodeError>(
                    (v.deep_view(), rest@),
                ),
                Err(e) => Self::decoding(input@) == Err::<(Self::V, Seq<u8>), _>(e),
            },
    ;
}

impl Codec for u32 {
    open spec fn encodable(m: u32) -> bool {
        true
    }

    open spec fn encoding(m: u32) -> Seq<u8> {
        le_bytes(m as nat, 4)
    }

    open spec fn decoding(s: Seq<u8>) -> Result<(u32, Seq<u8>), DecodeError> {
        match int_decoding(s, 4) {
            Some((v, rest)) => Ok((v as u32, rest)),
            None => Err(DecodeError::UnexpectedEnd),
        }
    }

    proof fn lemma_round_trip(m: u32, rest: Seq<u8>) {
        lemma_radix_values();
        lemma_int_round_trip(m as nat, 4, rest);
    }

    proof fn lemma_decoding_exact(s: Seq<u8>) {
        lemma_radix_values();
        lemma_int_decoding_exact(s, 4);
    }

    proof fn lemma_cut_short(m: u32, k: int) {
        lemma_le_bytes_len(m as nat, 4);
    }

    fn is_encodable(&self) -> (b: bool) {
        true
    }

    fn encode_to(&self, out: &mut Vec<u8>) {
        write_u32(out, *self)
    }

    fn decode<'a>(input: &'a [u8]) -> (r: Result<(u32, &'a [u8]), DecodeError>) {
        match read_u32(input) {
            Ok((v, rest)) => Ok((v, rest)),
            Err(_) => Err(DecodeError::UnexpectedEnd),
        }
    }
}

impl Codec for u64 {
    open spec fn encodable(m: u64) -> bool {
        true
    }

    open spec fn encoding(m: u64) -> Seq<u8> {
        le_bytes(m as nat, 8)
    }

    open spec fn decoding(s: Seq<u8>) -> Result<(u64, Seq<u8>), DecodeError> {
        match int_decoding(s, 8) {
            Some((v, rest)) => Ok((v as u64, rest)),
            None => Err(DecodeError::UnexpectedEnd),
        }
    }

    proof fn lemma_round_trip(m: u64, rest: Seq<u8>) {
        lemma_radix_values();
        lemma_int_round_trip(m as nat, 8, rest);
    }

    proof fn lemma_decoding_exact(s: Seq<u8>) {
        lemma_radix_values();
        lemma_int_decoding_exact(s, 8);
    }

    proof fn lemma_cut_short(m: u64, k: int) {
        lemma_le_bytes_len(m as nat, 8);
    }

    fn is_encodable(&self) -> (b: bool) {
        true
    }

    fn encode_to(&self, out: &mut Vec<u8>) {
        write_u64(out, *self)
    }

    fn decode<'a>(input: &'a [u8]) -> (r: Result<(u64, &'a [u8]), DecodeError>) {
        match read_u64(input) {
            Ok((v, rest)) => Ok((v, rest)),
            Err(_) => Err(DecodeError::UnexpectedEnd),
        }
    }
}

impl Codec for u128 {
    open spec fn encodable(m: u128) -> bool {
        true
    }

    open spec fn encoding(m: u128) -> Seq<u8> {
        le_bytes(m as nat, 16)
    }

    open spec fn decoding(s: Seq<u8>) -> Result<(u128, Seq<u8>), DecodeError> {
        match int_decoding(s, 16) {
            Some((v, rest)) => Ok((v as u128, rest)),
            None => Err(DecodeError::UnexpectedEnd),
        }
    }

    proof fn lemma_round_trip(m: u128, rest: Seq<u8>) {
        lemma_radix_values();
        lemma_int_round_trip(m as nat, 16, rest);
    }

    proof fn lemma_decoding_exact(s: Seq<u8>) {
        lemma_radix_values();
        lemma_int_decoding_exact(s, 16);
    }

    proof fn lemma_cut_short(m: u128, k: int) {
        lemma_le_bytes_len(m as nat, 16);
    }

    fn is_encodable(&self) -> (b: bool) {
        true
    }

    fn encode_to(&self, out: &mut Vec<u8>) {
        write_u128(out, *self)
    }

    fn decode<'a>(input: &'a [u8]) -> (r: Result<(u128, &'a [u8]), DecodeError>) {
        match read_u128(input) {
            Ok((v, rest)) => Ok((v, rest)),
            Err(_) => Err(DecodeError::UnexpectedEnd),
        }
    }
}

impl Codec for u8 {
    open spec fn encodable(m: u8) -> bool {
        true
    }

    open spec fn encoding(m: u8) -> Seq<u8> {
        seq![m]
    }

    open spec fn decoding(s: Seq<u8>) -> Result<(u8, Seq<u8>), DecodeError> {
        if s.len() == 0 {
            Err(DecodeError::UnexpectedEnd)
        } else {
            Ok((s[0], s.subrange(1, s.len() as int)))
        }
    }

    proof fn lemma_round_trip(m: u8, rest: Seq<u8>) {
        let s = Self::encoding(m) + rest;
        assert(s.subrange(1, s.len() as int) =~= rest);
    }

    proof fn lemma_decoding_exact(s: Seq<u8>) {
        if s.len() > 0 {
            assert(s =~= seq![s[0]] + s.subrange(1, s.len() as int));
        }
    }

    proof fn lemma_cut_short(m: u8, k: int) {
    }

    fn is_encodable(&self) -> (b: bool) {
        true
    }

    fn encode_to(&self, out: &mut Vec<u8>) {
        out.push(*self);
        assert(final(out)@ =~= old(out)@ + Self::encoding(*self));
    }

    fn decode<'a>(input: &'a [u8]) -> (r: Result<(u8, &'a [u8]), DecodeError>) {
        if input.len() == 0 {
            Err(DecodeError::UnexpectedEnd)
        } else {
            Ok((input[0], vstd::slice::slice_subrange(input, 1, input.len())))
        }
    }
}

impl Codec for bool {
    open spec fn encodable(m: bool) -> bool {
        true
    }

    open spec fn encoding(m: bool) -> Seq<u8> {
        seq![if m { 1u8 } else { 0u8 }]
    }

    open spec fn decoding(s: Seq<u8>) -> Result<(bool, Seq<u8>), DecodeError> {
        if s.len() == 0 {
            Err(DecodeError::UnexpectedEnd)
        } else if s[0] == 0 {
            Ok((false, s.subrange(1, s.len() as int)))
        } else if s[0] == 1 {
            Ok((true, s.subrange(1, s.len() as int)))
        } else {
            Err(DecodeError::Invalid)
        }
    }

    proof fn lemma_round_trip(m: bool, rest: Seq<u8>) {
        let s = Self::encoding(m) + rest;
        assert(s.subrange(1, s.len() as int) =~= rest);
    }

    proof fn lemma_decoding_exact(s: Seq<u8>) {
        if s.len() > 0 {
            assert(s =~= seq![s[0]] + s.subrange(1, s.len() as int));
        }
    }

    proof fn lemma_cut_short(m: bool, k: int) {
    }

    fn is_encodable(&self) -> (b: bool) {
        true
    }

    fn encode_to(&self, out: &mut Vec<u8>) {
        if *self {
            out.push(1u8);
        } else {
            out.push(0u8);
        }
        assert(final(out)@ =~= old(out)@ + Self::encoding(*self));
    }

    fn decode<'a>(input: &'a [u8]) -> (r: Result<(bool, &'a [u8]), DecodeError>) {
        if input.len() == 0 {
            Err(DecodeError::UnexpectedEnd)
        } else if input[0] == 0 {
            Ok((false, vstd::slice::slice_subrange(input, 1, input.len())))
        } else if input[0] == 1 {
            Ok((true, vstd::slice::slice_subrange(input, 1, input.len())))
        } else {
            Err(DecodeError::Invalid)
        }
    }
}

impl<T: Codec> Codec for Option<T> {
    open spec fn encodable(m: Option<T::V>) -> bool {
        match m {
            Some(inner) => T::encodable(inner),
            None => true,
        }
    }

    open spec fn encoding(m: Option<T::V>) -> Seq<u8> {
        match m {
            Some(inner) => seq![1u8] + T::encoding(inner),
            None => seq![0u8],
        }
    }

    open spec fn decoding(s: Seq<u8>) -> Result<(Option<T::V>, Seq<u8>), DecodeError> {
        if s.len() == 0 {
            Err(DecodeError::UnexpectedEnd)
        } else if s[0] == 0 {
            Ok((None, s.subrange(1, s.len() as int)))
        } else if s[0] == 1 {
            match T::decoding(s.subrange(1, s.len() as int)) {
                Ok((inner, rest)) => Ok((Some(inner), rest)),
                Err(e) => Err(e),
            }
        } else {
            Err(DecodeError::Invalid)
        }
    }

    proof fn lemma_round_trip(m: Option<T::V>, rest: Seq<u8>) {
        let s = Self::encoding(m) + rest;
        match m {
            Some(inner) => {
                T::lemma_round_trip(inner, rest);
                assert(s.subrange(1, s.len() as int) =~= T::encoding(inner) + rest);
            },
            None => {
                assert(s.subrange(1, s.len() as int) =~= rest);
            },
        }
    }

    proof fn lemma_decoding_exact(s: Seq<u8>) {
        if s.len() > 0 {
            let tail = s.subrange(1, s.len() as int);
            assert(s =~= seq![s[0]] + tail);
            if s[0] == 1 {
                T::lemma_decoding_exact(tail);
                match T::decoding(tail) {
                    Ok((inner, rest)) => {
                        assert(s =~= (seq![1u8] + T::encoding(inner)) + rest);
                    },
                    Err(_) => {},
                }
            }
        }
    }

    proof fn lemma_cut_short(m: Option<T::V>, k: int) {
        let cut = Self::encoding(m).subrange(0, k);
        match m {
            Some(inner) => {
                if k > 0 {
                    T::lemma_cut_short(inner, k - 1);
                    assert(cut[0] == 1);
                    assert(cut.subrange(1, cut.len() as int) =~= T::encoding(inner).subrange(
                        0,
                        k - 1,
                    ));
                }
            },
            None => {},
        }
    }

    fn is_encodable(&self) -> (b: bool) {
        match self {
            Some(inner) => inner.is_encodable(),
            None => true,
        }
    }

    fn encode_to(&self, out: &mut Vec<u8>) {
        match self {
            Some(inner) => {
                out.push(1u8);
                inner.encode_to(out);
                assert(final(out)@ =~= old(out)@ + Self::encoding(self.deep_view()));
            },
            None => {
                out.push(0u8);
                assert(final(out)@ =~= old(out)@ + Self::encoding(self.deep_view()));
            },
        }
    }

    fn decode<'a>(input: &'a [u8]) -> (r: Result<(Option<T>, &'a [u8]), DecodeError>) {
        if input.len() == 0 {
            Err(DecodeError::UnexpectedEnd)
        } else if input[0] == 0 {
            Ok((None, vstd::slice::slice_subrange(input, 1, input.len())))
        } else if input[0] == 1 {
            match T::decode(vstd::slice::slice_subrange(input, 1, input.len())) {
                Ok((inner, rest)) => Ok((Some(inner), rest)),
                Err(e) => Err(e),
            }
        } else {
            Err(DecodeError::Invalid)
        }
    }
}

/// Why `s` does not start with a compact indicator, where it does not: it
/// ends inside one, or it spells a count in a form that the format does not
/// allow for it.
pub open spec fn spec_compact_failure(s: Seq<u8>) -> DecodeError {
    if s.len() == 0 {
        DecodeError::UnexpectedEnd
    } else if s[0] % 4 == 1 && s.len() < 2 {
        DecodeError::UnexpectedEnd
    } else if s[0] % 4 == 2 && s.len() < 4 {
        DecodeError::UnexpectedEnd
    } else if s[0] == 3 && s.len() < 5 {
        DecodeError::UnexpectedEnd
    } else {
        DecodeError::Invalid
    }
}

/// Reads a compact indicator off the front of `s`: the count and the bytes
/// after it, or why `s` does not start with one.
pub open spec fn spec_decode_compact(s: Seq<u8>) -> Result<(nat, Seq<u8>), DecodeError> {
    match compact_decoding(s) {
        Some(found) => Ok(found),
        None => Err(spec_compact_failure(s)),
    }
}

/// Says why `input` does not start with a compact indicator, where it does
/// not.
pub fn compact_failure(input: &[u8]) -> (e: DecodeError)
    ensures
        e == spec_compact_failure(input@),
{
    if input.len() == 0 {
        return DecodeError::UnexpectedEnd;
    }
    let mode: u8 = input[0] % 4;
    if mode == 1 && input.len() < 2 {
        DecodeError::UnexpectedEnd
    } else if mode == 2 && input.len() < 4 {
        DecodeError::UnexpectedEnd
    } else if input[0] == 3 && input.len() < 5 {
        DecodeError::UnexpectedEnd
    } else {
        DecodeError::Invalid
    }
}

/// Reads a compact indicator off the front of `input`.
pub fn decode_compact<'a>(input: &'a [u8]) -> (r: Result<(u32, &'a [u8]), DecodeError>)
    ensures
        match r {
            Ok((n, rest)) => spec_decode_compact(input@) == Ok::<_, DecodeError>(
                (n as nat, rest@),
            ),
            Err(e) => spec_decode_compact(input@) == Err::<(nat, Seq<u8>), _>(e),
        },
{
    match read_compact(input) {
        Ok((n, rest)) => Ok((n, rest)),
        Err(_) => Err(compact_failure(input)),
    }
}

/// A count below 2^32 in its compact form: one byte for counts below 64, two
/// below 2^14, four below 2^30, five above. It is what stands before the items
/// of a vector.
#[derive(Clone, Copy, Debug, PartialEq, Eq)]
pub struct Compact(pub u32);

impl DeepView for Compact {
    type V = u32;

    open spec fn deep_view(&self) -> u32 {
        self.0
    }
}

impl Codec for Compact {
    open spec fn encodable(m: u32) -> bool {
        true
    }

    open spec fn encoding(m: u32) -> Seq<u8> {
        compact_encoding(m as nat)
    }

    open spec fn decoding(s: Seq<u8>) -> Result<(u32, Seq<u8>), DecodeError> {
        match spec_decode_compact(s) {
            Ok((n, rest)) => Ok((n as u32, rest)),
            Err(e) => Err(e),
        }
    }

    proof fn lemma_round_trip(m: u32, rest: Seq<u8>) {
        lemma_compact_round_trip(m as nat, rest);
    }

    proof fn lemma_decoding_exact(s: Seq<u8>) {
        lemma_compact_decoding_exact(s);
    }

    proof fn lemma_cut_short(m: u32, k: int) {
        lemma_compact_cut_short(m as nat, k);
    }

    fn is_encodable(&self) -> (b: bool) {
        true
    }

    fn encode_to(&self, out: &mut Vec<u8>) {
        write_compact(out, self.0)
    }

    fn decode<'a>(input: &'a [u8]) -> (r: Result<(Compact, &'a [u8]), DecodeError>) {
        match decode_compact(input) {
            Ok((n, rest)) => Ok((Compact(n), rest)),
            Err(e) => Err(e),
        }
    }
}

/// The deep view of a byte vector is its view.
pub proof fn lemma_bytes_model(v: &Vec<u8>)
    ensures
        v.deep_view() == v@,
{
    assert(v.deep_view() =~= v@);
}

/// The deep view of a byte array is its view, `N` bytes long.
pub proof fn lemma_array_model<const N: usize>(a: &[u8; N])
    ensures
        a.deep_view() == a@,
        a@.len() == N,
{
    assert(a.deep_view() =~= a@);
}

impl<const N: usize> Codec for [u8; N] {
    open spec fn encodable(m: Seq<u8>) -> bool {
        m.len() == N
    }

    open spec fn encoding(m: Seq<u8>) -> Seq<u8> {
        m
    }

    open spec fn decoding(s: Seq<u8>) -> Result<(Seq<u8>, Seq<u8>), DecodeError> {
        if s.len() < N {
            Err(DecodeError::UnexpectedEnd)
        } else {
            Ok((s.subrange(0, N as int), s.subrange(N as int, s.len() as int)))
        }
    }

    proof fn lemma_round_trip(m: Seq<u8>, rest: Seq<u8>) {
        let s = m + rest;
        assert(s.subrange(0, N as int) =~= m);
        assert(s.subrange(N as int, s.len() as int) =~= rest);
    }

    proof fn lemma_decoding_exact(s: Seq<u8>) {
        if s.len() >= N {
            assert(s =~= s.subrange(0, N as int) + s.subrange(N as int, s.len() as int));
        }
    }

    proof fn lemma_cut_short(m: Seq<u8>, k: int) {
    }

    fn is_encodable(&self) -> (b: bool) {
        proof {
            lemma_array_model(self);
        }
        true
    }

    fn encode_to(&self, out: &mut Vec<u8>) {
        proof {
            lemma_array_model(self);
        }
        write_raw(out, self.as_slice())
    }

    fn decode<'a>(input: &'a [u8]) -> (r: Result<([u8; N], &'a [u8]), DecodeError>) {
        if input.len() < N {
            return Err(DecodeError::UnexpectedEnd);
        }
        let mut value = [0u8; N];
        let mut i: usize = 0;
        while i < N
            invariant
                i <= N <= input@.len(),
                value@.len() == N,
                forall|k: int| 0 <= k < i ==> value@[k] == input@[k],
            decreases N - i,
        {
            value[i] = input[i];
            i += 1;
        }
        proof {
            lemma_array_model(&value);
            assert(value@ =~= input@.subrange(0, N as int));
        }
        Ok((value, vstd::slice::slice_subrange(input, N, input.len())))
    }
}

impl Codec for Vec<u8> {
    open spec fn encodable(m: Seq<u8>) -> bool {
        m.len() <= 0xffff_ffff
    }

    open spec fn encoding(m: Seq<u8>) -> Seq<u8> {
        compact_encoding(m.len()) + m
    }

    open spec fn decoding(s: Seq<u8>) -> Result<(Seq<u8>, Seq<u8>), DecodeError> {
        match spec_decode_compact(s) {
            Ok((n, body)) => if body.len() < n {
                Err(DecodeError::UnexpectedEnd)
            } else {
                Ok((body.subrange(0, n as int), body.subrange(n as int, body.len() as int)))
            },
            Err(e) => Err(e),
        }
    }

    proof fn lemma_round_trip(m: Seq<u8>, rest: Seq<u8>) {
        let body = m + rest;
        lemma_compact_round_trip(m.len(), body);
        assert(Self::encoding(m) + rest =~= compact_encoding(m.len()) + body);
        assert(body.subrange(0, m.len() as int) =~= m);
        assert(body.subrange(m.len() as int, body.len() as int) =~= rest);
    }

    proof fn lemma_decoding_exact(s: Seq<u8>) {
        lemma_compact_decoding_exact(s);
        match compact_decoding(s) {
            Some((n, body)) => {
                if body.len() >= n {
                    let m = body.subrange(0, n as int);
                    let rest = body.subrange(n as int, body.len() as int);
                    assert(body =~= m + rest);
                    assert(s =~= (compact_encoding(n) + m) + rest);
                }
            },
            None => {},
        }
    }

    proof fn lemma_cut_short(m: Seq<u8>, k: int) {
        let head = compact_encoding(m.len());
        let cut = Self::encoding(m).subrange(0, k);
        if k < head.len() {
            lemma_compact_cut_short(m.len(), k);
            assert(cut =~= head.subrange(0, k));
        } else {
            let body = m.subrange(0, k - head.len());
            lemma_compact_round_trip(m.len(), body);
            assert(cut =~= head + body);
        }
    }

    fn is_encodable(&self) -> (b: bool) {
        proof {
            lemma_bytes_model(self);
        }
        self.len() <= 0xffff_ffff
    }

    fn encode_to(&self, out: &mut Vec<u8>) {
        proof {
            lemma_bytes_model(self);
        }
        write_compact(out, self.len() as u32);
        write_raw(out, self.as_slice());
        assert(final(out)@ =~= old(out)@ + Self::encoding(self@));
    }

    fn decode<'a>(input: &'a [u8]) -> (r: Result<(Vec<u8>, &'a [u8]), DecodeError>) {
        match decode_compact(input) {
            Ok((n, body)) => {
                let n: usize = n as usize;
                if body.len() < n {
                    Err(DecodeError::UnexpectedEnd)
                } else {
                    let value = vstd::slice::slice_to_vec(vstd::slice::slice_subrange(body, 0, n));
                    proof {
                        lemma_bytes_model(&value);
                    }
                    Ok((value, vstd::slice::slice_subrange(body, n, body.len())))
                }
            },
            Err(e) => Err(e),
        }
    }
}

/// Whether the format can hold each of `items`.
pub open spec fn items_encodable<T: Codec>(items: Seq<T::V>) -> bool {
    forall|i: int| 0 <= i < items.len() ==> T::encodable(#[trigger] items[i])
}

/// The encodings of `items`, one after the other, with nothing between them.
pub open spec fn items_encoding<T: Codec>(items: Seq<T::V>) -> Seq<u8>
    decreases items.len(),
{
    if items.len() == 0 {
        Seq::empty()
    } else {
        T::encoding(items[0]) + items_encoding::<T>(items.drop_first())
    }
}

/// Reads `count` values off the front of `s`, one after the other: their models
/// in order and the bytes after the last. It fails as soon as one of them
/// fails, and for the same reason.
pub open spec fn items_decoding<T: Codec>(s: Seq<u8>, count: nat) -> Result<
    (Seq<T::V>, Seq<u8>),
    DecodeError,
>
    decreases count,
{
    if count == 0 {
        Ok((Seq::empty(), s))
    } else {
        match T::decoding(s) {
            Ok((first, after)) => match items_decoding::<T>(after, (count - 1) as nat) {
                Ok((others, rest)) => Ok((seq![first] + others, rest)),
                Err(e) => Err(e),
            },
            Err(e) => Err(e),
        }
    }
}

/// One more item at the end adds its encoding at the end.
pub proof fn lemma_items_encoding_push<T: Codec>(items: Seq<T::V>, last: T::V)
    ensures
        items_encoding::<T>(items.push(last)) == items_encoding::<T>(items) + T::encoding(last),
    decreases items.len(),
{
    let all = items.push(last);
    if items.len() == 0 {
        assert(all.drop_first() =~= Seq::<T::V>::empty());
        assert(items_encoding::<T>(all.drop_first()) =~= Seq::<u8>::empty());
        assert(items_encoding::<T>(all) =~= items_encoding::<T>(items) + T::encoding(last));
    } else {
        lemma_items_encoding_push::<T>(items.drop_first(), last);
        assert(all.drop_first() =~= items.drop_first().push(last));
        assert(items_encoding::<T>(all) =~= items_encoding::<T>(items) + T::encoding(last));
    }
}

/// Decoding as many items as were encoded gives them back in order and leaves
/// what followed them untouched.
pub proof fn lemma_items_round_trip<T: Codec>(items: Seq<T::V>, rest: Seq<u8>)
    requires
        items_encodable::<T>(items),
    ensures
        items_decoding::<T>(items_encoding::<T>(items) + rest, items.len()) == Ok::<
            _,
            DecodeError,
        >((items, rest)),
    decreases items.len(),
{
    if items.len() == 0 {
        assert(items_encoding::<T>(items) + rest =~= rest);
        assert(items =~= Seq::<T::V>::empty());
    } else {
        let tail = items.drop_first();
        let after = items_encoding::<T>(tail) + rest;
        assert(items_encodable::<T>(tail)) by {
            assert forall|i: int| 0 <= i < tail.len() implies T::encodable(#[trigger] tail[i]) by {
                assert(tail[i] == items[i + 1]);
            }
        }
        T::lemma_round_trip(items[0], after);
        lemma_items_round_trip::<T>(tail, rest);
        assert(items_encoding::<T>(items) + rest =~= T::encoding(items[0]) + after);
        assert(seq![items[0]] + tail =~= items);
    }
}

/// Whatever decodes as `count` items is the encoding of just those items,
/// followed by the rest.
pub proof fn lemma_items_decoding_exact<T: Codec>(s: Seq<u8>, count: nat)
    ensures
        match items_decoding::<T>(s, count) {
            Ok((items, rest)) => {
                &&& items.len() == count
                &&& items_encodable::<T>(items)
                &&& s == items_encoding::<T>(items) + rest
            },
            Err(_) => true,
        },
    decreases count,
{
    if count == 0 {
        assert(s =~= items_encoding::<T>(Seq::<T::V>::empty()) + s);
    } else {
        T::lemma_decoding_exact(s);
        match T::decoding(s) {
            Ok((first, after)) => {
                lemma_items_decoding_exact::<T>(after, (count - 1) as nat);
                match items_decoding::<T>(after, (count - 1) as nat) {
                    Ok((others, rest)) => {
                        let items = seq![first] + others;
                        assert(items.drop_first() =~= others);
                        assert(items_encodable::<T>(items)) by {
                            assert forall|i: int| 0 <= i < items.len() implies T::encodable(
                                #[trigger] items[i],
                            ) by {
                                if i > 0 {
                                    assert(items[i] == others[i - 1]);
                                }
                            }
                        }
                        assert(s =~= items_encoding::<T>(items) + rest);
                    },
                    Err(_) => {},
                }
            },
            Err(_) => {},
        }
    }
}

/// Bytes are read in one way only: where two encoded values, each with bytes
/// after it, make the same bytes, they are the same value with the same bytes
/// after it. In particular no two values share an encoding, and no encoding
/// is the beginning of another.
pub proof fn lemma_unambiguous<T: Codec>(a: T::V, after_a: Seq<u8>, b: T::V, after_b: Seq<u8>)
    requires
        T::encodable(a),
        T::encodable(b),
        T::encoding(a) + after_a == T::encoding(b) + after_b,
    ensures
        a == b,
        after_a == after_b,
{
    T::lemma_round_trip(a, after_a);
    T::lemma_round_trip(b, after_b);
}

/// What follows a value has no say in how the value is read: where bytes
/// decode, they decode to the same value with more bytes put after them, and
/// hand those on behind the rest.
pub proof fn lemma_more_bytes_after<T: Codec>(s: Seq<u8>, more: Seq<u8>)
    ensures
        match T::decoding(s) {
            Ok((m, rest)) => T::decoding(s + more) == Ok::<_, DecodeError>((m, rest + more)),
            Err(_) => true,
        },
{
    T::lemma_decoding_exact(s);
    match T::decoding(s) {
        Ok((m, rest)) => {
            T::lemma_round_trip(m, rest + more);
            assert(s + more =~= T::encoding(m) + (rest + more));
        },
        Err(_) => {},
    }
}

/// Where an encoded value with bytes after it is cut: inside the value, the
/// cut piece is refused as ending too early; at its end or later, the value is
/// read and what is left of the bytes after it is handed on.
pub proof fn lemma_cut_after<T: Codec>(m: T::V, tail: Seq<u8>, k: int)
    requires
        T::encodable(m),
        0 <= k <= T::encoding(m).len() + tail.len(),
    ensures
        k < T::encoding(m).len() ==> T::decoding((T::encoding(m) + tail).subrange(0, k)) == Err::<
            (T::V, Seq<u8>),
            _,
        >(DecodeError::UnexpectedEnd),
        k >= T::encoding(m).len() ==> T::decoding((T::encoding(m) + tail).subrange(0, k)) == Ok::<
            _,
            DecodeError,
        >((m, tail.subrange(0, k - T::encoding(m).len()))),
{
    let value = T::encoding(m);
    let cut = (value + tail).subrange(0, k);
    if k < value.len() {
        T::lemma_cut_short(m, k);
        assert(cut =~= value.subrange(0, k));
    } else {
        let left = tail.subrange(0, k - value.len());
        T::lemma_round_trip(m, left);
        assert(cut =~= value + left);
    }
}

/// Encoded items cut short do not decode as the items they were: the piece is
/// refused as ending too early.
pub proof fn lemma_items_cut_short<T: Codec>(items: Seq<T::V>, k: int)
    requires
        items_encodable::<T>(items),
        0 <= k < items_encoding::<T>(items).len(),
    ensures
        items_decoding::<T>(items_encoding::<T>(items).subrange(0, k), items.len()) == Err::<
            (Seq<T::V>, Seq<u8>),
            _,
        >(DecodeError::UnexpectedEnd),
    decreases items.len(),
{
    let first = T::encoding(items[0]);
    let tail = items.drop_first();
    let tail_bytes = items_encoding::<T>(tail);
    lemma_cut_after::<T>(items[0], tail_bytes, k);
    if k >= first.len() {
        assert(items_encodable::<T>(tail)) by {
            assert forall|i: int| 0 <= i < tail.len() implies T::encodable(#[trigger] tail[i]) by {
                assert(tail[i] == items[i + 1]);
            }
        }
        lemma_items_cut_short::<T>(tail, k - first.len());
    }
}

/// An encoded vector cut short does not decode: the piece is refused as
/// ending too early.
pub proof fn lemma_vec_cut_short<T: Codec>(items: Seq<T::V>, k: int)
    requires
        vec_encodable::<T>(items),
        0 <= k < vec_encoding::<T>(items).len(),
    ensures
        vec_decoding::<T>(vec_encoding::<T>(items).subrange(0, k)) == Err::<
            (Seq<T::V>, Seq<u8>),
            _,
        >(DecodeError::UnexpectedEnd),
{
    let head = compact_encoding(items.len());
    let body = items_encoding::<T>(items);
    let cut = vec_encoding::<T>(items).subrange(0, k);
    if k < head.len() {
        lemma_compact_cut_short(items.len(), k);
        assert(cut =~= head.subrange(0, k));
    } else {
        let left = body.subrange(0, k - head.len());
        lemma_compact_round_trip(items.len(), left);
        assert(cut =~= head + left);
        lemma_items_cut_short::<T>(items, k - head.len());
    }
}

/// Tells whether the format can hold each of `items`.
pub fn items_are_encodable<T: Codec>(items: &[T]) -> (b: bool)
    ensures
        b == items_encodable::<T>(items.deep_view()),
{
    let mut i: usize = 0;
    while i < items.len()
        invariant
            i <= items@.len(),
            forall|k: int| 0 <= k < i ==> T::encodable(#[trigger] items.deep_view()[k]),
        decreases items@.len() - i,
    {
        if !items[i].is_encodable() {
            assert(!T::encodable(items.deep_view()[i as int]));
            return false;
        }
        i += 1;
    }
    true
}

/// Appends the encodings of `items` to `out`, one after the other.
pub fn encode_items<T: Codec>(items: &[T], out: &mut Vec<u8>)
    requires
        items_encodable::<T>(items.deep_view()),
    ensures
        final(out)@ == old(out)@ + items_encoding::<T>(items.deep_view()),
{
    let ghost models = items.deep_view();
    let mut i: usize = 0;
    assert(out@ =~= old(out)@ + items_encoding::<T>(models.subrange(0, 0)));
    while i < items.len()
        invariant
            i <= items@.len(),
            models == items.deep_view(),
            items_encodable::<T>(models),
            out@ == old(out)@ + items_encoding::<T>(models.subrange(0, i as int)),
        decreases items@.len() - i,
    {
        assert(T::encodable(models[i as int]));
        items[i].encode_to(out);
        proof {
            lemma_items_encoding_push::<T>(models.subrange(0, i as int), models[i as int]);
            assert(models.subrange(0, i as int).push(models[i as int]) =~= models.subrange(
                0,
                i + 1,
            ));
            assert(out@ =~= old(out)@ + items_encoding::<T>(models.subrange(0, i + 1)));
        }
        i += 1;
    }
    assert(models.subrange(0, i as int) =~= models);
}

/// Reads `count` values off the front of `input`, one after the other.
pub fn decode_items<'a, T: Codec>(input: &'a [u8], count: usize) -> (r: Result<
    (Vec<T>, &'a [u8]),
    DecodeError,
>)
    ensures
        match r {
            Ok((items, rest)) => items_decoding::<T>(input@, count as nat) == Ok::<
                _,
                DecodeError,
            >((items.deep_view(), rest@)),
            Err(e) => items_decoding::<T>(input@, count as nat) == Err::<
                (Seq<T::V>, Seq<u8>),
                _,
            >(e),
        },
{
    let mut items: Vec<T> = Vec::new();
    let mut rest: &'a [u8] = input;
    let mut i: usize = 0;
    assert(items.deep_view() =~= Seq::<T::V>::empty());
    while i < count
        invariant
            i <= count,
            items@.len() == i,
            match items_decoding::<T>(rest@, (count - i) as nat) {
                Ok((others, after)) => items_decoding::<T>(input@, count as nat) == Ok::<
                    _,
                    DecodeError,
                >((items.deep_view() + others, after)),
                Err(e) => items_decoding::<T>(input@, count as nat) == Err::<
                    (Seq<T::V>, Seq<u8>),
                    _,
                >(e),
            },
        decreases count - i,
    {
        let ghost so_far = items.deep_view();
        match T::decode(rest) {
            Ok((item, after)) => {
                let ghost model = item.deep_view();
                items.push(item);
                rest = after;
                proof {
                    assert(items.deep_view() =~= so_far.push(model));
                    match items_decoding::<T>(after@, (count - i - 1) as nat) {
                        Ok((others, end)) => {
                            assert(so_far + (seq![model] + others) =~= so_far.push(model) + others);
                        },
                        Err(_) => {},
                    }
                }
            },
            Err(e) => {
                return Err(e);
            },
        }
        i += 1;
    }
    proof {
        assert(items.deep_view() + Seq::<T::V>::empty() =~= items.deep_view());
    }
    Ok((items, rest))
}

/// Whether the format can hold a vector of `items`: their count must fit the
/// compact indicator, and each of them must be encodable.
pub open spec fn vec_encodable<T: Codec>(items: Seq<T::V>) -> bool {
    items.len() <= 0xffff_ffff && items_encodable::<T>(items)
}

/// A vector on the wire: the compact indicator of the count, then the items.
pub open spec fn vec_encoding<T: Codec>(items: Seq<T::V>) -> Seq<u8> {
    compact_encoding(items.len()) + items_encoding::<T>(items)
}

/// Reads a vector off the front of `s`: the count, then that many items.
pub open spec fn vec_decoding<T: Codec>(s: Seq<u8>) -> Result<(Seq<T::V>, Seq<u8>), DecodeError> {
    match spec_decode_compact(s) {
        Ok((count, body)) => items_decoding::<T>(body, count),
        Err(e) => Err(e),
    }
}

/// Decoding a vector that was encoded gives its items back in order and
/// leaves what followed it untouched.
pub proof fn lemma_vec_round_trip<T: Codec>(items: Seq<T::V>, rest: Seq<u8>)
    requires
        vec_encodable::<T>(items),
    ensures
        vec_decoding::<T>(vec_encoding::<T>(items) + rest) == Ok::<_, DecodeError>((items, rest)),
{
    let body = items_encoding::<T>(items) + rest;
    lemma_compact_round_trip(items.len(), body);
    lemma_items_round_trip::<T>(items, rest);
    assert(vec_encoding::<T>(items) + rest =~= compact_encoding(items.len()) + body);
}

/// Whatever decodes as a vector is the encoding of the items it gives,
/// followed by the rest it gives.
pub proof fn lemma_vec_decoding_exact<T: Codec>(s: Seq<u8>)
    ensures
        match vec_decoding::<T>(s) {
            Ok((items, rest)) => vec_encodable::<T>(items) && s == vec_encoding::<T>(items)
                + rest,
            Err(_) => true,
        },
{
    lemma_compact_decoding_exact(s);
    match compact_decoding(s) {
        Some((count, body)) => {
            lemma_items_decoding_exact::<T>(body, count);
            match items_decoding::<T>(body, count) {
                Ok((items, rest)) => {
                    assert(s =~= vec_encoding::<T>(items) + rest);
                },
                Err(_) => {},
            }
        },
        None => {},
    }
}

/// Tells whether the format can hold a vector of `items`.
pub fn vec_is_encodable<T: Codec>(items: &[T]) -> (b: bool)
    ensures
        b == vec_encodable::<T>(items.deep_view()),
{
    items.len() <= 0xffff_ffff && items_are_encodable(items)
}

/// Appends to `out` the vector of `items`: their count in compact form, then
/// the items one after the other.
pub fn encode_vec<T: Codec>(items: &[T], out: &mut Vec<u8>)
    requires
        vec_encodable::<T>(items.deep_view()),
    ensures
        final(out)@ == old(out)@ + vec_encoding::<T>(items.deep_view()),
{
    write_compact(out, items.len() as u32);
    encode_items(items, out);
    assert(final(out)@ =~= old(out)@ + vec_encoding::<T>(items.deep_view()));
}

/// Reads a vector off the front of `input` and hands back what follows it.
pub fn decode_vec<'a, T: Codec>(input: &'a [u8]) -> (r: Result<(Vec<T>, &'a [u8]), DecodeError>)
    ensures
        match r {
            Ok((items, rest)) => vec_decoding::<T>(input@) == Ok::<_, DecodeError>(
                (items.deep_view(), rest@),
            ),
            Err(e) => vec_decoding::<T>(input@) == Err::<(Seq<T::V>, Seq<u8>), _>(e),
        },
{
    match decode_compact(input) {
        Ok((count, body)) => decode_items(body, count as usize),
        Err(e) => Err(e),
    }
}

/// A value of fixed size takes exactly its width on the wire, with nothing
/// before or after it: one byte for a `bool` or a `u8`, four, eight and
/// sixteen for the wider integers, and `N` for an array of `N` bytes, which
/// are the bytes of the array as they are.
pub proof fn lemma_fixed_widths<const N: usize>(
    flag: bool,
    byte: u8,
    word: u32,
    long: u64,
    wide: u128,
    array: Seq<u8>,
)
    requires
        array.len() == N,
    ensures
        bool::encoding(flag).len() == 1,
        u8::encoding(byte).len() == 1,
        u32::encoding(word).len() == 4,
        u64::encoding(long).len() == 8,
        u128::encoding(wide).len() == 16,
        <[u8; N]>::encoding(array) == array,
{
    lemma_le_bytes_len(word as nat, 4);
    lemma_le_bytes_len(long as nat, 8);
    lemma_le_bytes_len(wide as nat, 16);
}

/// An empty vector travels as the single byte `0` and an absent option as the
/// single byte `0`, with nothing after it; and that one byte reads back as the
/// empty vector, or as the absent option, with nothing left over.
pub proof fn lemma_empty_values<T: Codec>()
    ensures
        Vec::<u8>::encoding(Seq::empty()) == seq![0u8],
        vec_encoding::<T>(Seq::empty()) == seq![0u8],
        Option::<T>::encoding(None) == seq![0u8],
        Vec::<u8>::decoding(seq![0u8]) == Ok::<_, DecodeError>(
            (Seq::<u8>::empty(), Seq::<u8>::empty()),
        ),
        vec_decoding::<T>(seq![0u8]) == Ok::<_, DecodeError>(
            (Seq::<T::V>::empty(), Seq::<u8>::empty()),
        ),
        Option::<T>::decoding(seq![0u8]) == Ok::<_, DecodeError>(
            (None::<T::V>, Seq::<u8>::empty()),
        ),
{
    let zero = seq![0u8];
    let nothing = Seq::<u8>::empty();
    assert(compact_encoding(0) =~= zero) by {
        reveal_with_fuel(le_bytes, 2);
    }
    assert(zero.subrange(1, 1) =~= nothing);
    assert(Vec::<u8>::encoding(nothing) =~= zero);
    assert(vec_encoding::<T>(Seq::<T::V>::empty()) =~= zero);
    assert(nothing.subrange(0, 0) =~= nothing);
}

} // verus!
