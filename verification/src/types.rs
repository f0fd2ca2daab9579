//! The values that travel as arguments and results of host operations, each
//! with its wire form.

use crate::codec::{
    decode_vec, encode_vec, lemma_array_model, lemma_bytes_model, lemma_vec_decoding_exact,
    lemma_vec_cut_short, lemma_vec_round_trip, vec_decoding, vec_encodable, vec_encoding,
    vec_is_encodable, Codec, DecodeError,
};
use vstd::prelude::*;

verus! {

/// The twelve bytes that name an asset.
#[derive(Clone, Copy, Debug, PartialEq, Eq)]
pub struct Ticker(pub [u8; 12]);

impl DeepView for Ticker {
    type V = Seq<u8>;

    open spec fn deep_view(&self) -> Seq<u8> {
        self.0@
    }
}

impl Codec for Ticker {
    open spec fn encodable(m: Seq<u8>) -> bool {
        <[u8; 12] as Codec>::encodable(m)
    }

    open spec fn encoding(m: Seq<u8>) -> Seq<u8> {
        <[u8; 12] as Codec>::encoding(m)
    }

    open spec fn decoding(s: Seq<u8>) -> Result<(Seq<u8>, Seq<u8>), DecodeError> {
        <[u8; 12] as Codec>::decoding(s)
    }

    proof fn lemma_round_trip(m: Seq<u8>, rest: Seq<u8>) {
        <[u8; 12] as Codec>::lemma_round_trip(m, rest);
    }

    proof fn lemma_decoding_exact(s: Seq<u8>) {
        <[u8; 12] as Codec>::lemma_decoding_exact(s);
    }

    proof fn lemma_cut_short(m: Seq<u8>, k: int) {
        <[u8; 12] as Codec>::lemma_cut_short(m, k);
    }

    fn is_encodable(&self) -> (b: bool) {
        proof {
            lemma_array_model(&self.0);
        }
        true
    }

    fn encode_to(&self, out: &mut Vec<u8>) {
        proof {
            lemma_array_model(&self.0);
        }
        self.0.encode_to(out)
    }

    fn decode<'a>(input: &'a [u8]) -> (r: Result<(Ticker, &'a [u8]), DecodeError>) {
        match <[u8; 12] as Codec>::decode(input) {
            Ok((bytes, rest)) => {
                proof {
                    lemma_array_model(&bytes);
                }
                Ok((Ticker(bytes), rest))
            },
            Err(e) => Err(e),
        }
    }
}

/// The thirty-two bytes of an account key.
#[derive(Clone, Copy, Debug, PartialEq, Eq)]
pub struct AccountId(pub [u8; 32]);

impl DeepView for AccountId {
    type V = Seq<u8>;

    open spec fn deep_view(&self) -> Seq<u8> {
        self.0@
    }
}

impl Codec for AccountId {
    open spec fn encodable(m: Seq<u8>) -> bool {
        <[u8; 32] as Codec>::encodable(m)
    }

    open spec fn encoding(m: Seq<u8>) -> Seq<u8> {
        <[u8; 32] as Codec>::encoding(m)
    }

    open spec fn decoding(s: Seq<u8>) -> Result<(Seq<u8>, Seq<u8>), DecodeError> {
        <[u8; 32] as Codec>::decoding(s)
    }

    proof fn lemma_round_trip(m: Seq<u8>, rest: Seq<u8>) {
        <[u8; 32] as Codec>::lemma_round_trip(m, rest);
    }

    proof fn lemma_decoding_exact(s: Seq<u8>) {
        <[u8; 32] as Codec>::lemma_decoding_exact(s);
    }

    proof fn lemma_cut_short(m: Seq<u8>, k: int) {
        <[u8; 32] as Codec>::lemma_cut_short(m, k);
    }

    fn is_encodable(&self) -> (b: bool) {
        proof {
            lemma_array_model(&self.0);
        }
        true
    }

    fn encode_to(&self, out: &mut Vec<u8>) {
        proof {
            lemma_array_model(&self.0);
        }
        self.0.encode_to(out)
    }

    fn decode<'a>(input: &'a [u8]) -> (r: Result<(AccountId, &'a [u8]), DecodeError>) {
        match <[u8; 32] as Codec>::decode(input) {
            Ok((bytes, rest)) => {
                proof {
                    lemma_array_model(&bytes);
                }
                Ok((AccountId(bytes), rest))
            },
            Err(e) => Err(e),
        }
    }
}

/// The thirty-two bytes of a hash.
#[derive(Clone, Copy, Debug, PartialEq, Eq)]
pub struct Hash(pub [u8; 32]);

impl DeepView for Hash {
    type V = Seq<u8>;

    open spec fn deep_view(&self) -> Seq<u8> {
        self.0@
    }
}

impl Codec for Hash {
    open spec fn encodable(m: Seq<u8>) -> bool {
        <[u8; 32] as Codec>::encodable(m)
    }

    open spec fn encoding(m: Seq<u8>) -> Seq<u8> {
        <[u8; 32] as Codec>::encoding(m)
    }

    open spec fn decoding(s: Seq<u8>) -> Result<(Seq<u8>, Seq<u8>), DecodeError> {
        <[u8; 32] as Codec>::decoding(s)
    }

    proof fn lemma_round_trip(m: Seq<u8>, rest: Seq<u8>) {
        <[u8; 32] as Codec>::lemma_round_trip(m, rest);
    }

    proof fn lemma_decoding_exact(s: Seq<u8>) {
        <[u8; 32] as Codec>::lemma_decoding_exact(s);
    }

    proof fn lemma_cut_short(m: Seq<u8>, k: int) {
        <[u8; 32] as Codec>::lemma_cut_short(m, k);
    }

    fn is_encodable(&self) -> (b: bool) {
        proof {
            lemma_array_model(&self.0);
        }
        true
    }

    fn encode_to(&self, out: &mut Vec<u8>) {
        proof {
            lemma_array_model(&self.0);
        }
        self.0.encode_to(out)
    }

    fn decode<'a>(input: &'a [u8]) -> (r: Result<(Hash, &'a [u8]), DecodeError>) {
        match <[u8; 32] as Codec>::decode(input) {
            Ok((bytes, rest)) => {
                proof {
                    lemma_array_model(&bytes);
                }
                Ok((Hash(bytes), rest))
            },
            Err(e) => Err(e),
        }
    }
}

/// The name of an asset: any bytes, written as a vector.
#[derive(Clone, Debug, PartialEq, Eq)]
pub struct AssetName(pub Vec<u8>);

impl DeepView for AssetName {
    type V = Seq<u8>;

    open spec fn deep_view(&self) -> Seq<u8> {
        self.0@
    }
}

impl Codec for AssetName {
    open spec fn encodable(m: Seq<u8>) -> bool {
        <Vec<u8> as Codec>::encodable(m)
    }

    open spec fn encoding(m: Seq<u8>) -> Seq<u8> {
        <Vec<u8> as Codec>::encoding(m)
    }

    open spec fn decoding(s: Seq<u8>) -> Result<(Seq<u8>, Seq<u8>), DecodeError> {
        <Vec<u8> as Codec>::decoding(s)
    }

    proof fn lemma_round_trip(m: Seq<u8>, rest: Seq<u8>) {
        <Vec<u8> as Codec>::lemma_round_trip(m, rest);
    }

    proof fn lemma_decoding_exact(s: Seq<u8>) {
        <Vec<u8> as Codec>::lemma_decoding_exact(s);
    }

    proof fn lemma_cut_short(m: Seq<u8>, k: int) {
        <Vec<u8> as Codec>::lemma_cut_short(m, k);
    }

    fn is_encodable(&self) -> (b: bool) {
        proof {
            lemma_bytes_model(&self.0);
        }
        self.0.is_encodable()
    }

    fn encode_to(&self, out: &mut Vec<u8>) {
        proof {
            lemma_bytes_model(&self.0);
        }
        self.0.encode_to(out)
    }

    fn decode<'a>(input: &'a [u8]) -> (r: Result<(AssetName, &'a [u8]), DecodeError>) {
        match <Vec<u8> as Codec>::decode(input) {
            Ok((bytes, rest)) => {
                proof {
                    lemma_bytes_model(&bytes);
                }
                Ok((AssetName(bytes), rest))
            },
            Err(e) => Err(e),
        }
    }
}

/// The name of a funding round: any bytes, written as a vector.
#[derive(Clone, Debug, PartialEq, Eq)]
pub struct FundingRoundName(pub Vec<u8>);

impl DeepView for FundingRoundName {
    type V = Seq<u8>;

    open spec fn deep_view(&self) -> Seq<u8> {
        self.0@
    }
}

impl Codec for FundingRoundName {
    open spec fn encodable(m: Seq<u8>) -> bool {
        <Vec<u8> as Codec>::encodable(m)
    }

    open spec fn encoding(m: Seq<u8>) -> Seq<u8> {
        <Vec<u8> as Codec>::encoding(m)
    }

    open spec fn decoding(s: Seq<u8>) -> Result<(Seq<u8>, Seq<u8>), DecodeError> {
        <Vec<u8> as Codec>::decoding(s)
    }

    proof fn lemma_round_trip(m: Seq<u8>, rest: Seq<u8>) {
        <Vec<u8> as Codec>::lemma_round_trip(m, rest);
    }

    proof fn lemma_decoding_exact(s: Seq<u8>) {
        <Vec<u8> as Codec>::lemma_decoding_exact(s);
    }

    proof fn lemma_cut_short(m: Seq<u8>, k: int) {
        <Vec<u8> as Codec>::lemma_cut_short(m, k);
    }

    fn is_encodable(&self) -> (b: bool) {
        proof {
            lemma_bytes_model(&self.0);
        }
        self.0.is_encodable()
    }

    fn encode_to(&self, out: &mut Vec<u8>) {
        proof {
            lemma_bytes_model(&self.0);
        }
        self.0.encode_to(out)
    }

    fn decode<'a>(input: &'a [u8]) -> (r: Result<(FundingRoundName, &'a [u8]), DecodeError>) {
        match <Vec<u8> as Codec>::decode(input) {
            Ok((bytes, rest)) => {
                proof {
                    lemma_bytes_model(&bytes);
                }
                Ok((FundingRoundName(bytes), rest))
            },
            Err(e) => Err(e),
        }
    }
}

/// The kind of an asset. Each kind travels as one tag byte, its place in this
/// list counted from zero; a custom kind is followed by the four bytes of the
/// number under which it was registered.
#[derive(Clone, Copy, Debug, PartialEq, Eq)]
pub enum AssetType {
    EquityCommon,
    EquityPreferred,
    Commodity,
    FixedIncome,
    Reit,
    Fund,
    RevenueShareAgreement,
    StructuredProduct,
    Derivative,
    Custom(u32),
    StableCoin,
}

impl AssetType {
    /// The tag byte of the kind.
    pub open spec fn spec_tag(self) -> u8 {
        match self {
            AssetType::EquityCommon => 0,
            AssetType::EquityPreferred => 1,
            AssetType::Commodity => 2,
            AssetType::FixedIncome => 3,
            AssetType::Reit => 4,
            AssetType::Fund => 5,
            AssetType::RevenueShareAgreement => 6,
            AssetType::StructuredProduct => 7,
            AssetType::Derivative => 8,
            AssetType::Custom(_) => 9,
            AssetType::StableCoin => 10,
        }
    }

    /// The kind without a number that `tag` stands for, if it stands for one.
    pub open spec fn spec_plain(tag: u8) -> Option<AssetType> {
        if tag == 0 {
            Some(AssetType::EquityCommon)
        } else if tag == 1 {
            Some(AssetType::EquityPreferred)
        } else if tag == 2 {
            Some(AssetType::Commodity)
        } else if tag == 3 {
            Some(AssetType::FixedIncome)
        } else if tag == 4 {
            Some(AssetType::Reit)
        } else if tag == 5 {
            Some(AssetType::Fund)
        } else if tag == 6 {
            Some(AssetType::RevenueShareAgreement)
        } else if tag == 7 {
            Some(AssetType::StructuredProduct)
        } else if tag == 8 {
            Some(AssetType::Derivative)
        } else if tag == 10 {
            Some(AssetType::StableCoin)
        } else {
            None
        }
    }

    /// The tag byte of the kind.
    #[verifier::when_used_as_spec(spec_tag)]
    pub fn tag(self) -> (t: u8)
        ensures
            t == self.spec_tag(),
    {
        match self {
            AssetType::EquityCommon => 0,
            AssetType::EquityPreferred => 1,
            AssetType::Commodity => 2,
            AssetType::FixedIncome => 3,
            AssetType::Reit => 4,
            AssetType::Fund => 5,
            AssetType::RevenueShareAgreement => 6,
            AssetType::StructuredProduct => 7,
            AssetType::Derivative => 8,
            AssetType::Custom(_) => 9,
            AssetType::StableCoin => 10,
        }
    }

    /// The kind without a number that `tag` stands for, if it stands for one.
    #[verifier::when_used_as_spec(spec_plain)]
    pub fn plain(tag: u8) -> (r: Option<AssetType>)
        ensures
            r == Self::spec_plain(tag),
    {
        match tag {
            0 => Some(AssetType::EquityCommon),
            1 => Some(AssetType::EquityPreferred),
            2 => Some(AssetType::Commodity),
            3 => Some(AssetType::FixedIncome),
            4 => Some(AssetType::Reit),
            5 => Some(AssetType::Fund),
            6 => Some(AssetType::RevenueShareAgreement),
            7 => Some(AssetType::StructuredProduct),
            8 => Some(AssetType::Derivative),
            10 => Some(AssetType::StableCoin),
            _ => None,
        }
    }
}

impl DeepView for AssetType {
    type V = AssetType;

    open spec fn deep_view(&self) -> AssetType {
        *self
    }
}

impl Codec for AssetType {
    open spec fn encodable(m: AssetType) -> bool {
        true
    }

    open spec fn encoding(m: AssetType) -> Seq<u8> {
        match m {
            AssetType::Custom(id) => seq![9u8] + u32::encoding(id),
            _ => seq![m.spec_tag()],
        }
    }

    open spec fn decoding(s: Seq<u8>) -> Result<(AssetType, Seq<u8>), DecodeError> {
        if s.len() == 0 {
            Err(DecodeError::UnexpectedEnd)
        } else if s[0] == 9 {
            match u32::decoding(s.subrange(1, s.len() as int)) {
                Ok((id, rest)) => Ok((AssetType::Custom(id), rest)),
                Err(e) => Err(e),
            }
        } else {
            match AssetType::spec_plain(s[0]) {
                Some(kind) => Ok((kind, s.subrange(1, s.len() as int))),
                None => Err(DecodeError::Invalid),
            }
        }
    }

    proof fn lemma_round_trip(m: AssetType, rest: Seq<u8>) {
        let s = Self::encoding(m) + rest;
        match m {
            AssetType::Custom(id) => {
                u32::lemma_round_trip(id, rest);
                assert(s.subrange(1, s.len() as int) =~= u32::encoding(id) + rest);
            },
            _ => {
                assert(s.subrange(1, s.len() as int) =~= rest);
            },
        }
    }

    proof fn lemma_decoding_exact(s: Seq<u8>) {
        if s.len() > 0 {
            let tail = s.subrange(1, s.len() as int);
            assert(s =~= seq![s[0]] + tail);
            if s[0] == 9 {
                u32::lemma_decoding_exact(tail);
                match u32::decoding(tail) {
                    Ok((id, rest)) => {
                        assert(s =~= (seq![9u8] + u32::encoding(id)) + rest);
                    },
                    Err(_) => {},
                }
            }
        }
    }

    proof fn lemma_cut_short(m: AssetType, k: int) {
        let cut = Self::encoding(m).subrange(0, k);
        match m {
            AssetType::Custom(id) => {
                if k > 0 {
                    u32::lemma_cut_short(id, k - 1);
                    assert(cut[0] == 9);
                    assert(cut.subrange(1, cut.len() as int) =~= u32::encoding(id).subrange(
                        0,
                        k - 1,
                    ));
                }
            },
            _ => {},
        }
    }

    fn is_encodable(&self) -> (b: bool) {
        true
    }

    fn encode_to(&self, out: &mut Vec<u8>) {
        out.push(self.tag());
        match self {
            AssetType::Custom(id) => {
                id.encode_to(out);
                assert(final(out)@ =~= old(out)@ + Self::encoding(*self));
            },
            _ => {
                assert(final(out)@ =~= old(out)@ + Self::encoding(*self));
            },
        }
    }

    fn decode<'a>(input: &'a [u8]) -> (r: Result<(AssetType, &'a [u8]), DecodeError>) {
        if input.len() == 0 {
            return Err(DecodeError::UnexpectedEnd);
        }
        let tail = vstd::slice::slice_subrange(input, 1, input.len());
        if input[0] == 9 {
            match u32::decode(tail) {
                Ok((id, rest)) => Ok((AssetType::Custom(id), rest)),
                Err(e) => Err(e),
            }
        } else {
            match AssetType::plain(input[0]) {
                Some(kind) => Ok((kind, tail)),
                None => Err(DecodeError::Invalid),
            }
        }
    }
}

/// The scheme of a security identifier: which register the identifier is
/// from. It fixes the tag byte and how many bytes the identifier has.
#[derive(Clone, Copy, Debug, PartialEq, Eq)]
pub enum IdentifierKind {
    Cusip,
    Cins,
    Isin,
    Lei,
    Figi,
}

impl IdentifierKind {
    /// The tag byte of the scheme.
    pub open spec fn spec_tag(self) -> u8 {
        match self {
            IdentifierKind::Cusip => 0,
            IdentifierKind::Cins => 1,
            IdentifierKind::Isin => 2,
            IdentifierKind::Lei => 3,
            IdentifierKind::Figi => 4,
        }
    }

    /// How many bytes an identifier of the scheme has.
    pub open spec fn spec_width(self) -> int {
        match self {
            IdentifierKind::Cusip => 9,
            IdentifierKind::Cins => 9,
            IdentifierKind::Isin => 12,
            IdentifierKind::Lei => 20,
            IdentifierKind::Figi => 12,
        }
    }

    /// The scheme that `tag` stands for, if it stands for one.
    pub open spec fn spec_from_tag(tag: u8) -> Option<IdentifierKind> {
        if tag == 0 {
            Some(IdentifierKind::Cusip)
        } else if tag == 1 {
            Some(IdentifierKind::Cins)
        } else if tag == 2 {
            Some(IdentifierKind::Isin)
        } else if tag == 3 {
            Some(IdentifierKind::Lei)
        } else if tag == 4 {
            Some(IdentifierKind::Figi)
        } else {
            None
        }
    }

    /// The tag byte of the scheme.
    #[verifier::when_used_as_spec(spec_tag)]
    pub fn tag(self) -> (t: u8)
        ensures
            t == self.spec_tag(),
    {
        match self {
            IdentifierKind::Cusip => 0,
            IdentifierKind::Cins => 1,
            IdentifierKind::Isin => 2,
            IdentifierKind::Lei => 3,
            IdentifierKind::Figi => 4,
        }
    }

    /// How many bytes an identifier of the scheme has.
    pub fn width(self) -> (w: usize)
        ensures
            w == self.spec_width(),
    {
        match self {
            IdentifierKind::Cusip => 9,
            IdentifierKind::Cins => 9,
            IdentifierKind::Isin => 12,
            IdentifierKind::Lei => 20,
            IdentifierKind::Figi => 12,
        }
    }

    /// The scheme that `tag` stands for, if it stands for one.
    #[verifier::when_used_as_spec(spec_from_tag)]
    pub fn from_tag(tag: u8) -> (r: Option<IdentifierKind>)
        ensures
            r == Self::spec_from_tag(tag),
    {
        match tag {
            0 => Some(IdentifierKind::Cusip),
            1 => Some(IdentifierKind::Cins),
            2 => Some(IdentifierKind::Isin),
            3 => Some(IdentifierKind::Lei),
            4 => Some(IdentifierKind::Figi),
            _ => None,
        }
    }
}

/// A security identifier of an asset, under one of five schemes.
#[derive(Clone, Copy, Debug, PartialEq, Eq)]
pub enum AssetIdentifier {
    Cusip([u8; 9]),
    Cins([u8; 9]),
    Isin([u8; 12]),
    Lei([u8; 20]),
    Figi([u8; 12]),
}

/// What a security identifier is, apart from how it is held: its scheme and
/// its bytes.
pub struct IdentifierModel {
    pub kind: IdentifierKind,
    pub bytes: Seq<u8>,
}

impl AssetIdentifier {
    /// The scheme of the identifier.
    pub open spec fn spec_kind(&self) -> IdentifierKind {
        match self {
            AssetIdentifier::Cusip(_) => IdentifierKind::Cusip,
            AssetIdentifier::Cins(_) => IdentifierKind::Cins,
            AssetIdentifier::Isin(_) => IdentifierKind::Isin,
            AssetIdentifier::Lei(_) => IdentifierKind::Lei,
            AssetIdentifier::Figi(_) => IdentifierKind::Figi,
        }
    }

    /// The bytes of the identifier.
    pub open spec fn spec_bytes(&self) -> Seq<u8> {
        match self {
            AssetIdentifier::Cusip(b) => b@,
            AssetIdentifier::Cins(b) => b@,
            AssetIdentifier::Isin(b) => b@,
            AssetIdentifier::Lei(b) => b@,
            AssetIdentifier::Figi(b) => b@,
        }
    }

    /// The scheme of the identifier.
    #[verifier::when_used_as_spec(spec_kind)]
    pub fn kind(&self) -> (k: IdentifierKind)
        ensures
            k == self.spec_kind(),
    {
        match self {
            AssetIdentifier::Cusip(_) => IdentifierKind::Cusip,
            AssetIdentifier::Cins(_) => IdentifierKind::Cins,
            AssetIdentifier::Isin(_) => IdentifierKind::Isin,
            AssetIdentifier::Lei(_) => IdentifierKind::Lei,
            AssetIdentifier::Figi(_) => IdentifierKind::Figi,
        }
    }

    /// An identifier has as many bytes as its scheme says.
    pub proof fn lemma_width(&self)
        ensures
            self.spec_bytes().len() == self.spec_kind().spec_width(),
    {
        match self {
            AssetIdentifier::Cusip(b) => lemma_array_model(b),
            AssetIdentifier::Cins(b) => lemma_array_model(b),
            AssetIdentifier::Isin(b) => lemma_array_model(b),
            AssetIdentifier::Lei(b) => lemma_array_model(b),
            AssetIdentifier::Figi(b) => lemma_array_model(b),
        }
    }

    /// The bytes of the identifier.
    pub fn bytes(&self) -> (b: &[u8])
        ensures
            b@ == self.spec_bytes(),
            b@.len() == self.spec_kind().spec_width(),
    {
        match self {
            AssetIdentifier::Cusip(b) => b.as_slice(),
            AssetIdentifier::Cins(b) => b.as_slice(),
            AssetIdentifier::Isin(b) => b.as_slice(),
            AssetIdentifier::Lei(b) => b.as_slice(),
            AssetIdentifier::Figi(b) => b.as_slice(),
        }
    }
}

impl DeepView for AssetIdentifier {
    type V = IdentifierModel;

    open spec fn deep_view(&self) -> IdentifierModel {
        IdentifierModel { kind: self.spec_kind(), bytes: self.spec_bytes() }
    }
}

impl Codec for AssetIdentifier {
    open spec fn encodable(m: IdentifierModel) -> bool {
        m.bytes.len() == m.kind.spec_width()
    }

    open spec fn encoding(m: IdentifierModel) -> Seq<u8> {
        seq![m.kind.spec_tag()] + m.bytes
    }

    open spec fn decoding(s: Seq<u8>) -> Result<(IdentifierModel, Seq<u8>), DecodeError> {
        if s.len() == 0 {
            Err(DecodeError::UnexpectedEnd)
        } else {
            match IdentifierKind::spec_from_tag(s[0]) {
                Some(kind) => if s.len() < 1 + kind.spec_width() {
                    Err(DecodeError::UnexpectedEnd)
                } else {
                    Ok(
                        (
                            IdentifierModel { kind, bytes: s.subrange(1, 1 + kind.spec_width()) },
                            s.subrange(1 + kind.spec_width(), s.len() as int),
                        ),
                    )
                },
                None => Err(DecodeError::Invalid),
            }
        }
    }

    proof fn lemma_round_trip(m: IdentifierModel, rest: Seq<u8>) {
        let s = Self::encoding(m) + rest;
        let w = m.kind.spec_width();
        assert(s.subrange(1, 1 + w) =~= m.bytes);
        assert(s.subrange(1 + w, s.len() as int) =~= rest);
    }

    proof fn lemma_decoding_exact(s: Seq<u8>) {
        if s.len() > 0 {
            match IdentifierKind::spec_from_tag(s[0]) {
                Some(kind) => {
                    let w = kind.spec_width();
                    if s.len() >= 1 + w {
                        assert(s =~= (seq![s[0]] + s.subrange(1, 1 + w)) + s.subrange(
                            1 + w,
                            s.len() as int,
                        ));
                    }
                },
                None => {},
            }
        }
    }

    proof fn lemma_cut_short(m: IdentifierModel, k: int) {
        let cut = Self::encoding(m).subrange(0, k);
        if k > 0 {
            assert(cut[0] == m.kind.spec_tag());
        }
    }

    fn is_encodable(&self) -> (b: bool) {
        proof {
            self.lemma_width();
        }
        true
    }

    fn encode_to(&self, out: &mut Vec<u8>) {
        out.push(self.kind().tag());
        crate::scale::write_raw(out, self.bytes());
        assert(final(out)@ =~= old(out)@ + Self::encoding(self.deep_view()));
    }

    fn decode<'a>(input: &'a [u8]) -> (r: Result<(AssetIdentifier, &'a [u8]), DecodeError>) {
        if input.len() == 0 {
            return Err(DecodeError::UnexpectedEnd);
        }
        let tail = vstd::slice::slice_subrange(input, 1, input.len());
        match IdentifierKind::from_tag(input[0]) {
            Some(IdentifierKind::Cusip) => match <[u8; 9] as Codec>::decode(tail) {
                Ok((b, rest)) => {
                    proof {
                        lemma_array_model(&b);
                        assert(b@ =~= input@.subrange(1, 10));
                        assert(rest@ =~= input@.subrange(10, input@.len() as int));
                    }
                    Ok((AssetIdentifier::Cusip(b), rest))
                },
                Err(e) => Err(e),
            },
            Some(IdentifierKind::Cins) => match <[u8; 9] as Codec>::decode(tail) {
                Ok((b, rest)) => {
                    proof {
                        lemma_array_model(&b);
                        assert(b@ =~= input@.subrange(1, 10));
                        assert(rest@ =~= input@.subrange(10, input@.len() as int));
                    }
                    Ok((AssetIdentifier::Cins(b), rest))
                },
                Err(e) => Err(e),
            },
            Some(IdentifierKind::Isin) => match <[u8; 12] as Codec>::decode(tail) {
                Ok((b, rest)) => {
                    proof {
                        lemma_array_model(&b);
                        assert(b@ =~= input@.subrange(1, 13));
                        assert(rest@ =~= input@.subrange(13, input@.len() as int));
                    }
                    Ok((AssetIdentifier::Isin(b), rest))
                },
                Err(e) => Err(e),
            },
            Some(IdentifierKind::Lei) => match <[u8; 20] as Codec>::decode(tail) {
                Ok((b, rest)) => {
                    proof {
                        lemma_array_model(&b);
                        assert(b@ =~= input@.subrange(1, 21));
                        assert(rest@ =~= input@.subrange(21, input@.len() as int));
                    }
                    Ok((AssetIdentifier::Lei(b), rest))
                },
                Err(e) => Err(e),
            },
            Some(IdentifierKind::Figi) => match <[u8; 12] as Codec>::decode(tail) {
                Ok((b, rest)) => {
                    proof {
                        lemma_array_model(&b);
                        assert(b@ =~= input@.subrange(1, 13));
                        assert(rest@ =~= input@.subrange(13, input@.len() as int));
                    }
                    Ok((AssetIdentifier::Figi(b), rest))
                },
                Err(e) => Err(e),
            },
            None => Err(DecodeError::Invalid),
        }
    }
}

impl Codec for Vec<AssetIdentifier> {
    open spec fn encodable(m: Seq<IdentifierModel>) -> bool {
        vec_encodable::<AssetIdentifier>(m)
    }

    open spec fn encoding(m: Seq<IdentifierModel>) -> Seq<u8> {
        vec_encoding::<AssetIdentifier>(m)
    }

    open spec fn decoding(s: Seq<u8>) -> Result<(Seq<IdentifierModel>, Seq<u8>), DecodeError> {
        vec_decoding::<AssetIdentifier>(s)
    }

    proof fn lemma_round_trip(m: Seq<IdentifierModel>, rest: Seq<u8>) {
        lemma_vec_round_trip::<AssetIdentifier>(m, rest);
    }

    proof fn lemma_decoding_exact(s: Seq<u8>) {
        lemma_vec_decoding_exact::<AssetIdentifier>(s);
    }

    proof fn lemma_cut_short(m: Seq<IdentifierModel>, k: int) {
        lemma_vec_cut_short::<AssetIdentifier>(m, k);
    }

    fn is_encodable(&self) -> (b: bool) {
        vec_is_encodable(self.as_slice())
    }

    fn encode_to(&self, out: &mut Vec<u8>) {
        encode_vec(self.as_slice(), out)
    }

    fn decode<'a>(input: &'a [u8]) -> (r: Result<(Vec<AssetIdentifier>, &'a [u8]), DecodeError>) {
        decode_vec(input)
    }
}

} // verus!
