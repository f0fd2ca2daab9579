//! Calls: an operation together with its arguments, and the request that
//! goes to the host for it.

use crate::codec::{lemma_cut_after, lemma_unambiguous, Codec, DecodeError};
use crate::encoded::Encoded;
use crate::registry::{FunctionId, PolymeshRuntime};
use crate::types::{
    AccountId, AssetIdentifier, AssetName, AssetType, FundingRoundName, IdentifierModel, Ticker,
};
use crate::wire::compact_encoding;
use vstd::prelude::*;

verus! {

/// The arguments of "create an asset", in the order in which they travel.
#[derive(Clone, Debug, PartialEq, Eq)]
pub struct CreateAsset {
    pub name: AssetName,
    pub ticker: Ticker,
    pub divisible: bool,
    pub asset_type: AssetType,
    pub identifiers: Vec<AssetIdentifier>,
    pub funding_round: Option<FundingRoundName>,
    pub disable_iu: bool,
}

/// The arguments of "create an asset" as plain values.
pub struct CreateAssetModel {
    pub name: Seq<u8>,
    pub ticker: Seq<u8>,
    pub divisible: bool,
    pub asset_type: AssetType,
    pub identifiers: Seq<IdentifierModel>,
    pub funding_round: Option<Seq<u8>>,
    pub disable_iu: bool,
}

impl DeepView for CreateAsset {
    type V = CreateAssetModel;

    open spec fn deep_view(&self) -> CreateAssetModel {
        CreateAssetModel {
            name: self.name.deep_view(),
            ticker: self.ticker.deep_view(),
            divisible: self.divisible,
            asset_type: self.asset_type,
            identifiers: self.identifiers.deep_view(),
            funding_round: self.funding_round.deep_view(),
            disable_iu: self.disable_iu,
        }
    }
}

/// Seven parts and a rest, joined from the right, are the same bytes joined
/// from the left.
proof fn lemma_seven_parts(
    e1: Seq<u8>,
    e2: Seq<u8>,
    e3: Seq<u8>,
    e4: Seq<u8>,
    e5: Seq<u8>,
    e6: Seq<u8>,
    e7: Seq<u8>,
    rest: Seq<u8>,
)
    ensures
        e1 + (e2 + (e3 + (e4 + (e5 + (e6 + (e7 + rest)))))) == e1 + e2 + e3 + e4 + e5 + e6 + e7
            + rest,
{
    assert(e1 + (e2 + (e3 + (e4 + (e5 + (e6 + (e7 + rest)))))) =~= e1 + e2 + e3 + e4 + e5 + e6 + e7
        + rest);
}

impl Codec for CreateAsset {
    open spec fn encodable(m: CreateAssetModel) -> bool {
        &&& AssetName::encodable(m.name)
        &&& Ticker::encodable(m.ticker)
        &&& Vec::<AssetIdentifier>::encodable(m.identifiers)
        &&& Option::<FundingRoundName>::encodable(m.funding_round)
    }

    open spec fn encoding(m: CreateAssetModel) -> Seq<u8> {
        AssetName::encoding(m.name) + Ticker::encoding(m.ticker) + bool::encoding(m.divisible)
            + AssetType::encoding(m.asset_type) + Vec::<AssetIdentifier>::encoding(m.identifiers)
            + Option::<FundingRoundName>::encoding(m.funding_round) + bool::encoding(
            m.disable_iu,
        )
    }

    open spec fn decoding(s: Seq<u8>) -> Result<(CreateAssetModel, Seq<u8>), DecodeError> {
        match AssetName::decoding(s) {
            Ok((name, s1)) => match Ticker::decoding(s1) {
                Ok((ticker, s2)) => match bool::decoding(s2) {
                    Ok((divisible, s3)) => match AssetType::decoding(s3) {
                        Ok((asset_type, s4)) => match Vec::<AssetIdentifier>::decoding(s4) {
                            Ok((identifiers, s5)) => match Option::<FundingRoundName>::decoding(
                                s5,
                            ) {
                                Ok((funding_round, s6)) => match bool::decoding(s6) {
                                    Ok((disable_iu, rest)) => Ok(
                                        (
                                            CreateAssetModel {
                                                name,
                                                ticker,
                                                divisible,
                                                asset_type,
                                                identifiers,
                                                funding_round,
                                                disable_iu,
                                            },
                                            rest,
                                        ),
                                    ),
                                    Err(e) => Err(e),
                                },
                                Err(e) => Err(e),
                            },
                            Err(e) => Err(e),
                        },
                        Err(e) => Err(e),
                    },
                    Err(e) => Err(e),
                },
                Err(e) => Err(e),
            },
            Err(e) => Err(e),
        }
    }

    proof fn lemma_round_trip(m: CreateAssetModel, rest: Seq<u8>) {
        let e1 = AssetName::encoding(m.name);
        let e2 = Ticker::encoding(m.ticker);
        let e3 = bool::encoding(m.divisible);
        let e4 = AssetType::encoding(m.asset_type);
        let e5 = Vec::<AssetIdentifier>::encoding(m.identifiers);
        let e6 = Option::<FundingRoundName>::encoding(m.funding_round);
        let e7 = bool::encoding(m.disable_iu);
        let s6 = e7 + rest;
        let s5 = e6 + s6;
        let s4 = e5 + s5;
        let s3 = e4 + s4;
        let s2 = e3 + s3;
        let s1 = e2 + s2;
        lemma_seven_parts(e1, e2, e3, e4, e5, e6, e7, rest);
        AssetName::lemma_round_trip(m.name, s1);
        Ticker::lemma_round_trip(m.ticker, s2);
        bool::lemma_round_trip(m.divisible, s3);
        AssetType::lemma_round_trip(m.asset_type, s4);
        Vec::<AssetIdentifier>::lemma_round_trip(m.identifiers, s5);
        Option::<FundingRoundName>::lemma_round_trip(m.funding_round, s6);
        bool::lemma_round_trip(m.disable_iu, rest);
    }

    proof fn lemma_decoding_exact(s: Seq<u8>) {
        if let Ok((m, rest)) = Self::decoding(s) {
            let (name, s1) = AssetName::decoding(s)->Ok_0;
            let (ticker, s2) = Ticker::decoding(s1)->Ok_0;
            let (divisible, s3) = bool::decoding(s2)->Ok_0;
            let (asset_type, s4) = AssetType::decoding(s3)->Ok_0;
            let (identifiers, s5) = Vec::<AssetIdentifier>::decoding(s4)->Ok_0;
            let (funding_round, s6) = Option::<FundingRoundName>::decoding(s5)->Ok_0;
            let (disable_iu, end) = bool::decoding(s6)->Ok_0;
            assert(end == rest);
            let e1 = AssetName::encoding(name);
            let e2 = Ticker::encoding(ticker);
            let e3 = bool::encoding(divisible);
            let e4 = AssetType::encoding(asset_type);
            let e5 = Vec::<AssetIdentifier>::encoding(identifiers);
            let e6 = Option::<FundingRoundName>::encoding(funding_round);
            let e7 = bool::encoding(disable_iu);
            assert(AssetName::encodable(name) && s == e1 + s1) by {
                AssetName::lemma_decoding_exact(s);
            }
            assert(Ticker::encodable(ticker) && s1 == e2 + s2) by {
                Ticker::lemma_decoding_exact(s1);
            }
            assert(s2 == e3 + s3) by {
                bool::lemma_decoding_exact(s2);
            }
            assert(s3 == e4 + s4) by {
                AssetType::lemma_decoding_exact(s3);
            }
            assert(Vec::<AssetIdentifier>::encodable(identifiers) && s4 == e5 + s5) by {
                Vec::<AssetIdentifier>::lemma_decoding_exact(s4);
            }
            assert(Option::<FundingRoundName>::encodable(funding_round) && s5 == e6 + s6) by {
                Option::<FundingRoundName>::lemma_decoding_exact(s5);
            }
            assert(s6 == e7 + rest) by {
                bool::lemma_decoding_exact(s6);
            }
            assert(s == e1 + e2 + e3 + e4 + e5 + e6 + e7 + rest) by {
                lemma_seven_parts(e1, e2, e3, e4, e5, e6, e7, rest);
            }
        }
    }

    proof fn lemma_cut_short(m: CreateAssetModel, k: int) {
        let e1 = AssetName::encoding(m.name);
        let e2 = Ticker::encoding(m.ticker);
        let e3 = bool::encoding(m.divisible);
        let e4 = AssetType::encoding(m.asset_type);
        let e5 = Vec::<AssetIdentifier>::encoding(m.identifiers);
        let e6 = Option::<FundingRoundName>::encoding(m.funding_round);
        let e7 = bool::encoding(m.disable_iu);
        let none = Seq::<u8>::empty();
        let t6 = e7 + none;
        let t5 = e6 + t6;
        let t4 = e5 + t5;
        let t3 = e4 + t4;
        let t2 = e3 + t3;
        let t1 = e2 + t2;
        lemma_seven_parts(e1, e2, e3, e4, e5, e6, e7, none);
        assert(Self::encoding(m) + none =~= Self::encoding(m));
        let k1 = k - e1.len();
        let k2 = k1 - e2.len();
        let k3 = k2 - e3.len();
        let k4 = k3 - e4.len();
        let k5 = k4 - e5.len();
        let k6 = k5 - e6.len();
        lemma_cut_after::<AssetName>(m.name, t1, k);
        if k1 >= 0 {
            lemma_cut_after::<Ticker>(m.ticker, t2, k1);
            if k2 >= 0 {
                lemma_cut_after::<bool>(m.divisible, t3, k2);
                if k3 >= 0 {
                    lemma_cut_after::<AssetType>(m.asset_type, t4, k3);
                    if k4 >= 0 {
                        lemma_cut_after::<Vec<AssetIdentifier>>(m.identifiers, t5, k4);
                        if k5 >= 0 {
                            lemma_cut_after::<Option<FundingRoundName>>(m.funding_round, t6, k5);
                            if k6 >= 0 {
                                lemma_cut_after::<bool>(m.disable_iu, none, k6);
                            }
                        }
                    }
                }
            }
        }
    }

    fn is_encodable(&self) -> (b: bool) {
        self.name.is_encodable() && self.ticker.is_encodable() && self.identifiers.is_encodable()
            && self.funding_round.is_encodable()
    }

    fn encode_to(&self, out: &mut Vec<u8>) {
        self.name.encode_to(out);
        self.ticker.encode_to(out);
        self.divisible.encode_to(out);
        self.asset_type.encode_to(out);
        self.identifiers.encode_to(out);
        self.funding_round.encode_to(out);
        self.disable_iu.encode_to(out);
        assert(final(out)@ =~= old(out)@ + Self::encoding(self.deep_view()));
    }

    fn decode<'a>(input: &'a [u8]) -> (r: Result<(CreateAsset, &'a [u8]), DecodeError>) {
        let (name, s1) = match AssetName::decode(input) {
            Ok(found) => found,
            Err(e) => {
                return Err(e);
            },
        };
        let (ticker, s2) = match Ticker::decode(s1) {
            Ok(found) => found,
            Err(e) => {
                return Err(e);
            },
        };
        let (divisible, s3) = match bool::decode(s2) {
            Ok(found) => found,
            Err(e) => {
                return Err(e);
            },
        };
        let (asset_type, s4) = match AssetType::decode(s3) {
            Ok(found) => found,
            Err(e) => {
                return Err(e);
            },
        };
        let (identifiers, s5) = match Vec::<AssetIdentifier>::decode(s4) {
            Ok(found) => found,
            Err(e) => {
                return Err(e);
            },
        };
        let (funding_round, s6) = match Option::<FundingRoundName>::decode(s5) {
            Ok(found) => found,
            Err(e) => {
                return Err(e);
            },
        };
        let (disable_iu, rest) = match bool::decode(s6) {
            Ok(found) => found,
            Err(e) => {
                return Err(e);
            },
        };
        Ok(
            (
                CreateAsset {
                    name,
                    ticker,
                    divisible,
                    asset_type,
                    identifiers,
                    funding_round,
                    disable_iu,
                },
                rest,
            ),
        )
    }
}

/// A call: one operation of the registry with the arguments it takes.
#[derive(Clone, Debug, PartialEq, Eq)]
pub enum Call {
    /// A call into the runtime, already encoded.
    CallRuntime(Encoded),
    /// The storage key to read, already encoded.
    ReadStorage(Encoded),
    GetSpecVersion,
    GetTransactionVersion,
    /// The account key whose identity is asked for.
    GetKeyDid(AccountId),
    /// The bytes to hash.
    Twox64(Encoded),
    /// The bytes to hash.
    Twox128(Encoded),
    /// The bytes to hash.
    Twox256(Encoded),
    /// The ticker to register.
    RegisterTicker(Ticker),
    /// The number of the authorization to accept.
    AcceptTickerTransfer(u64),
    /// The number of the authorization to accept.
    AcceptAssetOwnershipTransfer(u64),
    CreateAsset(CreateAsset),
    /// The name of the custom kind.
    RegisterCustomAssetType(Vec<u8>),
}

/// A call as plain values.
pub enum CallModel {
    CallRuntime(Seq<u8>),
    ReadStorage(Seq<u8>),
    GetSpecVersion,
    GetTransactionVersion,
    GetKeyDid(Seq<u8>),
    Twox64(Seq<u8>),
    Twox128(Seq<u8>),
    Twox256(Seq<u8>),
    RegisterTicker(Seq<u8>),
    AcceptTickerTransfer(u64),
    AcceptAssetOwnershipTransfer(u64),
    CreateAsset(CreateAssetModel),
    RegisterCustomAssetType(Seq<u8>),
}

impl DeepView for Call {
    type V = CallModel;

    open spec fn deep_view(&self) -> CallModel {
        match self {
            Call::CallRuntime(call) => CallModel::CallRuntime(call@),
            Call::ReadStorage(key) => CallModel::ReadStorage(key@),
            Call::GetSpecVersion => CallModel::GetSpecVersion,
            Call::GetTransactionVersion => CallModel::GetTransactionVersion,
            Call::GetKeyDid(key) => CallModel::GetKeyDid(key.deep_view()),
            Call::Twox64(data) => CallModel::Twox64(data@),
            Call::Twox128(data) => CallModel::Twox128(data@),
            Call::Twox256(data) => CallModel::Twox256(data@),
            Call::RegisterTicker(ticker) => CallModel::RegisterTicker(ticker.deep_view()),
            Call::AcceptTickerTransfer(auth_id) => CallModel::AcceptTickerTransfer(*auth_id),
            Call::AcceptAssetOwnershipTransfer(auth_id) => CallModel::AcceptAssetOwnershipTransfer(
                *auth_id,
            ),
            Call::CreateAsset(args) => CallModel::CreateAsset(args.deep_view()),
            Call::RegisterCustomAssetType(name) => CallModel::RegisterCustomAssetType(name@),
        }
    }
}

/// What goes to the host for one call: the identifier of the operation and
/// the encoded arguments.
#[derive(Clone, Debug, PartialEq, Eq)]
pub struct Request {
    pub function_id: FunctionId,
    pub payload: Vec<u8>,
}

impl Call {
    /// The operation that is called.
    pub open spec fn spec_operation(&self) -> PolymeshRuntime {
        match self {
            Call::CallRuntime(_) => PolymeshRuntime::CallRuntime,
            Call::ReadStorage(_) => PolymeshRuntime::ReadStorage,
            Call::GetSpecVersion => PolymeshRuntime::GetSpecVersion,
            Call::GetTransactionVersion => PolymeshRuntime::GetTransactionVersion,
            Call::GetKeyDid(_) => PolymeshRuntime::GetKeyDid,
            Call::Twox64(_) => PolymeshRuntime::Twox64,
            Call::Twox128(_) => PolymeshRuntime::Twox128,
            Call::Twox256(_) => PolymeshRuntime::Twox256,
            Call::RegisterTicker(_) => PolymeshRuntime::RegisterTicker,
            Call::AcceptTickerTransfer(_) => PolymeshRuntime::AcceptTickerTransfer,
            Call::AcceptAssetOwnershipTransfer(_) => PolymeshRuntime::AcceptAssetOwnershipTransfer,
            Call::CreateAsset(_) => PolymeshRuntime::CreateAsset,
            Call::RegisterCustomAssetType(_) => PolymeshRuntime::RegisterCustomAssetType,
        }
    }

    /// Whether the format can hold the arguments.
    pub open spec fn encodable(&self) -> bool {
        match self {
            Call::CreateAsset(args) => CreateAsset::encodable(args.deep_view()),
            Call::RegisterCustomAssetType(name) => Vec::<u8>::encodable(name@),
            _ => true,
        }
    }

    /// The payload of the call: its arguments, encoded in order. Bytes that
    /// were encoded beforehand are the payload as they are.
    pub open spec fn payload(&self) -> Seq<u8> {
        match self {
            Call::CallRuntime(call) => call@,
            Call::ReadStorage(key) => key@,
            Call::GetSpecVersion => Seq::empty(),
            Call::GetTransactionVersion => Seq::empty(),
            Call::GetKeyDid(key) => AccountId::encoding(key.deep_view()),
            Call::Twox64(data) => data@,
            Call::Twox128(data) => data@,
            Call::Twox256(data) => data@,
            Call::RegisterTicker(ticker) => Ticker::encoding(ticker.deep_view()),
            Call::AcceptTickerTransfer(auth_id) => u64::encoding(*auth_id),
            Call::AcceptAssetOwnershipTransfer(auth_id) => u64::encoding(*auth_id),
            Call::CreateAsset(args) => CreateAsset::encoding(args.deep_view()),
            Call::RegisterCustomAssetType(name) => Vec::<u8>::encoding(name@),
        }
    }

    /// The operation that is called.
    #[verifier::when_used_as_spec(spec_operation)]
    pub fn operation(&self) -> (op: PolymeshRuntime)
        ensures
            op == self.spec_operation(),
    {
        match self {
            Call::CallRuntime(_) => PolymeshRuntime::CallRuntime,
            Call::ReadStorage(_) => PolymeshRuntime::ReadStorage,
            Call::GetSpecVersion => PolymeshRuntime::GetSpecVersion,
            Call::GetTransactionVersion => PolymeshRuntime::GetTransactionVersion,
            Call::GetKeyDid(_) => PolymeshRuntime::GetKeyDid,
            Call::Twox64(_) => PolymeshRuntime::Twox64,
            Call::Twox128(_) => PolymeshRuntime::Twox128,
            Call::Twox256(_) => PolymeshRuntime::Twox256,
            Call::RegisterTicker(_) => PolymeshRuntime::RegisterTicker,
            Call::AcceptTickerTransfer(_) => PolymeshRuntime::AcceptTickerTransfer,
            Call::AcceptAssetOwnershipTransfer(_) => PolymeshRuntime::AcceptAssetOwnershipTransfer,
            Call::CreateAsset(_) => PolymeshRuntime::CreateAsset,
            Call::RegisterCustomAssetType(_) => PolymeshRuntime::RegisterCustomAssetType,
        }
    }

    /// Tells whether the format can hold the arguments.
    pub fn is_encodable(&self) -> (b: bool)
        ensures
            b == self.encodable(),
    {
        match self {
            Call::CreateAsset(args) => args.is_encodable(),
            Call::RegisterCustomAssetType(name) => {
                proof {
                    crate::codec::lemma_bytes_model(name);
                }
                name.is_encodable()
            },
            _ => true,
        }
    }

    /// Encodes the arguments.
    pub fn encode_payload(&self) -> (payload: Vec<u8>)
        requires
            self.encodable(),
        ensures
            payload@ == self.payload(),
    {
        let mut out: Vec<u8> = Vec::new();
        match self {
            Call::CallRuntime(call) => call.encode_to(&mut out),
            Call::ReadStorage(key) => key.encode_to(&mut out),
            Call::GetSpecVersion => {},
            Call::GetTransactionVersion => {},
            Call::GetKeyDid(key) => {
                proof {
                    crate::codec::lemma_array_model(&key.0);
                }
                key.encode_to(&mut out)
            },
            Call::Twox64(data) => data.encode_to(&mut out),
            Call::Twox128(data) => data.encode_to(&mut out),
            Call::Twox256(data) => data.encode_to(&mut out),
            Call::RegisterTicker(ticker) => {
                proof {
                    crate::codec::lemma_array_model(&ticker.0);
                }
                ticker.encode_to(&mut out)
            },
            Call::AcceptTickerTransfer(auth_id) => auth_id.encode_to(&mut out),
            Call::AcceptAssetOwnershipTransfer(auth_id) => auth_id.encode_to(&mut out),
            Call::CreateAsset(args) => args.encode_to(&mut out),
            Call::RegisterCustomAssetType(name) => {
                proof {
                    crate::codec::lemma_bytes_model(name);
                }
                name.encode_to(&mut out)
            },
        }
        assert(out@ =~= self.payload());
        out
    }

    /// The request that goes to the host for the call: the identifier that the
    /// registry holds for the operation, and the encoded arguments.
    pub fn request(&self) -> (request: Request)
        requires
            self.encodable(),
        ensures
            request.function_id == self.spec_operation().spec_function_id(),
            request.payload@ == self.payload(),
    {
        Request { function_id: self.operation().function_id(), payload: self.encode_payload() }
    }

    /// A request is read in one way only: two calls that the format can hold
    /// and that make the same request, identifier and payload, are the same
    /// operation with the same arguments.
    pub proof fn lemma_requests_unambiguous(a: Call, b: Call)
        requires
            a.encodable(),
            b.encodable(),
            a.spec_operation().spec_function_id() == b.spec_operation().spec_function_id(),
            a.payload() == b.payload(),
        ensures
            a.spec_operation() == b.spec_operation(),
            a.deep_view() == b.deep_view(),
    {
        PolymeshRuntime::lemma_identifiers_distinct(a.spec_operation(), b.spec_operation());
        let none = Seq::<u8>::empty();
        assert(a.payload() + none =~= a.payload());
        match (a, b) {
            (Call::GetKeyDid(x), Call::GetKeyDid(y)) => {
                crate::codec::lemma_array_model(&x.0);
                crate::codec::lemma_array_model(&y.0);
                lemma_unambiguous::<AccountId>(x.deep_view(), none, y.deep_view(), none);
            },
            (Call::RegisterTicker(x), Call::RegisterTicker(y)) => {
                crate::codec::lemma_array_model(&x.0);
                crate::codec::lemma_array_model(&y.0);
                lemma_unambiguous::<Ticker>(x.deep_view(), none, y.deep_view(), none);
            },
            (Call::AcceptTickerTransfer(x), Call::AcceptTickerTransfer(y)) => {
                lemma_unambiguous::<u64>(x, none, y, none);
            },
            (Call::AcceptAssetOwnershipTransfer(x), Call::AcceptAssetOwnershipTransfer(y)) => {
                lemma_unambiguous::<u64>(x, none, y, none);
            },
            (Call::CreateAsset(x), Call::CreateAsset(y)) => {
                lemma_unambiguous::<CreateAsset>(x.deep_view(), none, y.deep_view(), none);
            },
            (Call::RegisterCustomAssetType(x), Call::RegisterCustomAssetType(y)) => {
                lemma_unambiguous::<Vec<u8>>(x@, none, y@, none);
            },
            _ => {},
        }
    }

    /// Bytes handed over as a payload go out as they are, and the same bytes
    /// handed over as a vector argument go out behind their compact length:
    /// the second payload is the first with the indicator in front.
    pub proof fn lemma_raw_and_framed(raw: Encoded, field: Vec<u8>)
        requires
            raw@ == field@,
        ensures
            Call::CallRuntime(raw).payload() == raw@,
            Call::RegisterCustomAssetType(field).payload() == compact_encoding(field@.len())
                + raw@,
            Call::RegisterCustomAssetType(field).payload().len() > raw@.len(),
    {
        crate::wire::lemma_compact_encoding_len(field@.len());
    }
}

} // verus!
