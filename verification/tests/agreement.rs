//! The library's wire form against the codec it is built on.

use parity_scale_codec::{Compact as ScaleCompact, Decode, Encode};
use polymesh_extension::call::{Call, CreateAsset};
use polymesh_extension::codec::{Codec, Compact};
use polymesh_extension::types::{AssetIdentifier, AssetName, AssetType, FundingRoundName, Ticker};

fn encoded<T: Codec>(value: &T) -> Vec<u8> {
    let mut out = Vec::new();
    value.encode_to(&mut out);
    out
}

#[test]
fn integers_agree_with_the_codec() {
    for v in [0u32, 1, 255, 256, 0xdead_beef, u32::MAX] {
        assert_eq!(encoded(&v), v.encode());
        assert_eq!(encoded(&(v as u64 * 0x1_0001)), (v as u64 * 0x1_0001).encode());
        assert_eq!(encoded(&(v as u128 * 0x1_0000_0001)), (v as u128 * 0x1_0000_0001).encode());
    }
    assert_eq!(encoded(&u64::MAX), u64::MAX.encode());
    assert_eq!(encoded(&u128::MAX), u128::MAX.encode());
}

#[test]
fn compact_agrees_with_the_codec() {
    for n in [0u32, 1, 63, 64, 65, 16383, 16384, 16385, (1 << 30) - 1, 1 << 30, u32::MAX] {
        assert_eq!(encoded(&Compact(n)), ScaleCompact(n).encode());
    }
}

#[test]
fn containers_agree_with_the_codec() {
    let bytes = (0u8..200).collect::<Vec<u8>>();
    assert_eq!(encoded(&bytes), bytes.encode());
    assert_eq!(encoded(&Vec::<u8>::new()), Vec::<u8>::new().encode());
    assert_eq!(encoded(&Some(bytes.clone())), Some(bytes.clone()).encode());
    assert_eq!(encoded(&Option::<Vec<u8>>::None), Option::<Vec<u8>>::None.encode());
    assert_eq!(encoded(&[7u8; 32]), [7u8; 32].encode());
    assert_eq!(encoded(&Some([7u8; 32])), Some([7u8; 32]).encode());
    assert_eq!(encoded(&true), true.encode());
    assert_eq!(encoded(&false), false.encode());
}

#[test]
fn the_codec_reads_what_the_library_writes() {
    let bytes = encoded(&Some(b"storage value".to_vec()));
    let back = <Option<Vec<u8>> as Decode>::decode(&mut &bytes[..]).unwrap();
    assert_eq!(back, Some(b"storage value".to_vec()));
    let bytes = encoded(&Compact(70_000));
    let back = <ScaleCompact<u32> as Decode>::decode(&mut &bytes[..]).unwrap();
    assert_eq!(back.0, 70_000);
}

#[test]
fn the_library_reads_what_the_codec_writes() {
    let bytes = Some([9u8; 32]).encode();
    let (back, rest) = <Option<[u8; 32]> as Codec>::decode(&bytes).unwrap();
    assert_eq!(back, Some([9u8; 32]));
    assert!(rest.is_empty());
    let bytes = vec![1u8; 300].encode();
    let (back, rest) = <Vec<u8> as Codec>::decode(&bytes).unwrap();
    assert_eq!(back, vec![1u8; 300]);
    assert!(rest.is_empty());
    let bytes = 0x1122_3344_5566_7788u64.encode();
    let (back, _) = <u64 as Codec>::decode(&bytes).unwrap();
    assert_eq!(back, 0x1122_3344_5566_7788);
}

#[test]
fn create_asset_agrees_with_a_tuple_of_its_fields() {
    let args = CreateAsset {
        name: AssetName(b"Acme Preferred".to_vec()),
        ticker: Ticker(*b"ACMEPREF\0\0\0\0"),
        divisible: false,
        asset_type: AssetType::Custom(0x0102_0304),
        identifiers: vec![
            AssetIdentifier::Isin(*b"US0378331005"),
            AssetIdentifier::Lei(*b"5493000IBP32UQZ0KL24"),
        ],
        funding_round: Some(FundingRoundName(b"Series A".to_vec())),
        disable_iu: true,
    };
    // A record is its fields in order; an enum is its tag and then its fields.
    let expected = (
        b"Acme Preferred".to_vec(),
        *b"ACMEPREF\0\0\0\0",
        false,
        (9u8, 0x0102_0304u32),
        (
            ScaleCompact(2u32),
            (2u8, *b"US0378331005"),
            (3u8, *b"5493000IBP32UQZ0KL24"),
        ),
        Some(b"Series A".to_vec()),
        true,
    )
        .encode();
    assert_eq!(encoded(&args), expected);
    assert_eq!(Call::CreateAsset(args).encode_payload(), expected);
}
