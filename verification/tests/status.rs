use polymesh_extension::codec::{Codec, DecodeError};
use polymesh_extension::status::StatusClass;
use polymesh_extension::PolymeshRuntimeErr;

#[test]
fn zero_is_success() {
    assert_eq!(PolymeshRuntimeErr::classify(0), StatusClass::Success);
    assert_eq!(PolymeshRuntimeErr::from_status_code(0), Ok(()));
    assert_eq!(PolymeshRuntimeErr::declared(0), None);
}

#[test]
fn one_is_the_unknown_error() {
    assert_eq!(PolymeshRuntimeErr::classify(1), StatusClass::Declared(PolymeshRuntimeErr::Unknown));
    assert_eq!(PolymeshRuntimeErr::from_status_code(1), Err(PolymeshRuntimeErr::Unknown));
    assert_eq!(PolymeshRuntimeErr::declared(1), Some(PolymeshRuntimeErr::Unknown));
    assert_eq!(PolymeshRuntimeErr::Unknown.status_code(), 1);
}

#[test]
fn every_other_code_is_a_fault() {
    for code in [2u32, 3, 255, 256, 0x8000_0000, u32::MAX] {
        assert_eq!(PolymeshRuntimeErr::classify(code), StatusClass::Fault);
        assert_eq!(PolymeshRuntimeErr::declared(code), None);
    }
}

#[test]
fn declared_codes_and_errors_match_one_to_one() {
    let err = PolymeshRuntimeErr::Unknown;
    assert_eq!(PolymeshRuntimeErr::declared(err.status_code()), Some(err));
    let declared = (0u32..1000).filter(|c| PolymeshRuntimeErr::declared(*c).is_some()).count();
    assert_eq!(declared, 1);
}

#[test]
fn error_travels_as_its_tag() {
    let mut out = Vec::new();
    PolymeshRuntimeErr::Unknown.encode_to(&mut out);
    assert_eq!(out, vec![0u8]);
    assert_eq!(PolymeshRuntimeErr::decode(&[0, 7]), Ok((PolymeshRuntimeErr::Unknown, &[7u8][..])));
    assert_eq!(PolymeshRuntimeErr::decode(&[1]), Err(DecodeError::Invalid));
    assert_eq!(PolymeshRuntimeErr::decode(&[]), Err(DecodeError::UnexpectedEnd));
}
