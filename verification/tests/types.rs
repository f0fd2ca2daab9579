use polymesh_extension::call::CreateAsset;
use polymesh_extension::codec::{Codec, DecodeError};
use polymesh_extension::types::{
    AccountId, AssetIdentifier, AssetName, AssetType, FundingRoundName, IdentifierKind, Ticker,
};

fn encoded<T: Codec>(value: &T) -> Vec<u8> {
    assert!(value.is_encodable());
    let mut out = Vec::new();
    value.encode_to(&mut out);
    out
}

fn round_trip<T: Codec + PartialEq + std::fmt::Debug>(value: T) {
    let mut bytes = encoded(&value);
    let len = bytes.len();
    bytes.extend_from_slice(&[0xde, 0xad]);
    let (back, rest) = T::decode(&bytes).unwrap();
    assert_eq!(back, value);
    assert_eq!(rest, &[0xdeu8, 0xad][..]);
    assert_eq!(T::decode(&bytes[..len - 1]).err(), Some(DecodeError::UnexpectedEnd));
}

const ALL_PLAIN_TYPES: [AssetType; 10] = [
    AssetType::EquityCommon,
    AssetType::EquityPreferred,
    AssetType::Commodity,
    AssetType::FixedIncome,
    AssetType::Reit,
    AssetType::Fund,
    AssetType::RevenueShareAgreement,
    AssetType::StructuredProduct,
    AssetType::Derivative,
    AssetType::StableCoin,
];

#[test]
fn ticker_is_twelve_raw_bytes() {
    assert_eq!(encoded(&Ticker(*b"ABCDEFGHIJKL")), b"ABCDEFGHIJKL".to_vec());
    round_trip(Ticker(*b"ABCDEFGHIJKL"));
    assert_eq!(Ticker::decode(b"ABCDEFGHIJK"), Err(DecodeError::UnexpectedEnd));
}

#[test]
fn account_id_is_thirty_two_raw_bytes() {
    let mut key = [0u8; 32];
    for (i, b) in key.iter_mut().enumerate() {
        *b = i as u8;
    }
    assert_eq!(encoded(&AccountId(key)), key.to_vec());
    round_trip(AccountId(key));
    assert_eq!(AccountId::decode(&key[..31]), Err(DecodeError::UnexpectedEnd));
}

#[test]
fn hash_is_thirty_two_raw_bytes() {
    let hash = polymesh_extension::types::Hash([0x5a; 32]);
    assert_eq!(encoded(&hash), vec![0x5au8; 32]);
    round_trip(hash);
}

#[test]
fn names_are_byte_vectors() {
    assert_eq!(encoded(&AssetName(b"Foo".to_vec())), vec![12u8, b'F', b'o', b'o']);
    assert_eq!(encoded(&FundingRoundName(b"A".to_vec())), vec![4u8, b'A']);
    assert_eq!(encoded(&AssetName(Vec::new())), vec![0u8]);
    round_trip(AssetName(b"Foo".to_vec()));
    round_trip(AssetName(vec![0x11; 1000]));
    round_trip(FundingRoundName(b"Series B".to_vec()));
}

#[test]
fn asset_type_tags_follow_the_order_of_the_kinds() {
    for (tag, kind) in ALL_PLAIN_TYPES.iter().enumerate() {
        let tag = if tag == 9 { 10u8 } else { tag as u8 };
        assert_eq!(kind.tag(), tag);
        assert_eq!(encoded(kind), vec![tag]);
        assert_eq!(AssetType::plain(tag), Some(*kind));
        round_trip(*kind);
    }
    assert_eq!(AssetType::EquityCommon.tag(), 0);
    assert_eq!(AssetType::Custom(5).tag(), 9);
    assert_eq!(AssetType::StableCoin.tag(), 10);
}

#[test]
fn custom_asset_type_carries_its_number() {
    assert_eq!(encoded(&AssetType::Custom(0x0102_0304)), vec![9u8, 4, 3, 2, 1]);
    round_trip(AssetType::Custom(0));
    round_trip(AssetType::Custom(u32::MAX));
    assert_eq!(AssetType::decode(&[9, 1, 2, 3]), Err(DecodeError::UnexpectedEnd));
}

#[test]
fn asset_type_refuses_unknown_tags() {
    assert_eq!(AssetType::plain(9), None);
    assert_eq!(AssetType::plain(11), None);
    assert_eq!(AssetType::decode(&[11]), Err(DecodeError::Invalid));
    assert_eq!(AssetType::decode(&[255]), Err(DecodeError::Invalid));
    assert_eq!(AssetType::decode(&[]), Err(DecodeError::UnexpectedEnd));
}

#[test]
fn identifier_kinds_have_tag_and_width() {
    let table = [
        (IdentifierKind::Cusip, 0u8, 9usize),
        (IdentifierKind::Cins, 1, 9),
        (IdentifierKind::Isin, 2, 12),
        (IdentifierKind::Lei, 3, 20),
        (IdentifierKind::Figi, 4, 12),
    ];
    for (kind, tag, width) in table {
        assert_eq!(kind.tag(), tag);
        assert_eq!(kind.width(), width);
        assert_eq!(IdentifierKind::from_tag(tag), Some(kind));
    }
    assert_eq!(IdentifierKind::from_tag(5), None);
}

#[test]
fn identifier_is_tag_then_bytes() {
    let isin = AssetIdentifier::Isin(*b"US0378331005");
    assert_eq!(isin.kind(), IdentifierKind::Isin);
    assert_eq!(isin.bytes(), b"US0378331005");
    let mut expected = vec![2u8];
    expected.extend_from_slice(b"US0378331005");
    assert_eq!(encoded(&isin), expected);
    assert_eq!(encoded(&AssetIdentifier::Cusip(*b"037833100")), b"\x00037833100".to_vec());
    round_trip(isin);
    round_trip(AssetIdentifier::Cusip(*b"037833100"));
    round_trip(AssetIdentifier::Cins(*b"G0378310A"));
    round_trip(AssetIdentifier::Lei(*b"5493000IBP32UQZ0KL24"));
    round_trip(AssetIdentifier::Figi(*b"BBG000B9XRY4"));
}

#[test]
fn identifier_refuses_unknown_tags_and_cut_bytes() {
    assert_eq!(
        AssetIdentifier::decode(&[5, 0, 0, 0, 0, 0, 0, 0, 0, 0, 0, 0, 0]),
        Err(DecodeError::Invalid)
    );
    assert_eq!(AssetIdentifier::decode(b"\x02US037833100"), Err(DecodeError::UnexpectedEnd));
    assert_eq!(AssetIdentifier::decode(&[]), Err(DecodeError::UnexpectedEnd));
}

#[test]
fn identifier_vector_has_its_count_in_front() {
    let list = vec![AssetIdentifier::Cusip(*b"037833100"), AssetIdentifier::Figi(*b"BBG000B9XRY4")];
    let mut expected = vec![8u8, 0];
    expected.extend_from_slice(b"037833100");
    expected.push(4);
    expected.extend_from_slice(b"BBG000B9XRY4");
    assert_eq!(encoded(&list), expected);
    round_trip(list);
    round_trip(Vec::<AssetIdentifier>::new());
    assert_eq!(encoded(&Vec::<AssetIdentifier>::new()), vec![0u8]);
}

#[test]
fn create_asset_reads_back() {
    round_trip(CreateAsset {
        name: AssetName(b"Foo".to_vec()),
        ticker: Ticker(*b"ABCDEFGHIJKL"),
        divisible: true,
        asset_type: AssetType::EquityCommon,
        identifiers: Vec::new(),
        funding_round: None,
        disable_iu: true,
    });
    round_trip(CreateAsset {
        name: AssetName(vec![b'n'; 70]),
        ticker: Ticker(*b"TICKER\0\0\0\0\0\0"),
        divisible: false,
        asset_type: AssetType::Custom(77),
        identifiers: vec![
            AssetIdentifier::Lei(*b"5493000IBP32UQZ0KL24"),
            AssetIdentifier::Cins(*b"G0378310A"),
            AssetIdentifier::Isin(*b"US0378331005"),
        ],
        funding_round: Some(FundingRoundName(b"Seed".to_vec())),
        disable_iu: false,
    });
}

#[test]
fn create_asset_refuses_a_payload_cut_anywhere() {
    let args = CreateAsset {
        name: AssetName(b"Foo".to_vec()),
        ticker: Ticker(*b"ABCDEFGHIJKL"),
        divisible: true,
        asset_type: AssetType::Custom(1),
        identifiers: vec![AssetIdentifier::Cusip(*b"037833100")],
        funding_round: Some(FundingRoundName(b"A".to_vec())),
        disable_iu: true,
    };
    let bytes = encoded(&args);
    for cut in 0..bytes.len() {
        assert_eq!(
            CreateAsset::decode(&bytes[..cut]),
            Err(DecodeError::UnexpectedEnd),
            "cut at {}",
            cut
        );
    }
    assert_eq!(CreateAsset::decode(&bytes), Ok((args, &[][..])));
}
