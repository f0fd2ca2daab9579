use polymesh_extension::registry::{CallShape, Family, FunctionId, ValueKind};
use polymesh_extension::PolymeshRuntime;

const ALL: [PolymeshRuntime; 13] = [
    PolymeshRuntime::CallRuntime,
    PolymeshRuntime::ReadStorage,
    PolymeshRuntime::GetSpecVersion,
    PolymeshRuntime::GetTransactionVersion,
    PolymeshRuntime::GetKeyDid,
    PolymeshRuntime::Twox64,
    PolymeshRuntime::Twox128,
    PolymeshRuntime::Twox256,
    PolymeshRuntime::RegisterTicker,
    PolymeshRuntime::AcceptTickerTransfer,
    PolymeshRuntime::AcceptAssetOwnershipTransfer,
    PolymeshRuntime::CreateAsset,
    PolymeshRuntime::RegisterCustomAssetType,
];

#[test]
fn runtime_operations_have_their_identifiers() {
    assert_eq!(PolymeshRuntime::CallRuntime.function_id(), FunctionId(0x0000_0001));
    assert_eq!(PolymeshRuntime::ReadStorage.function_id(), FunctionId(0x0000_0002));
    assert_eq!(PolymeshRuntime::GetSpecVersion.function_id(), FunctionId(0x0000_0003));
    assert_eq!(PolymeshRuntime::GetTransactionVersion.function_id(), FunctionId(0x0000_0004));
    assert_eq!(PolymeshRuntime::GetKeyDid.function_id(), FunctionId(0x0000_0005));
    assert_eq!(PolymeshRuntime::Twox64.function_id(), FunctionId(0x0000_0010));
    assert_eq!(PolymeshRuntime::Twox128.function_id(), FunctionId(0x0000_0011));
    assert_eq!(PolymeshRuntime::Twox256.function_id(), FunctionId(0x0000_0012));
}

#[test]
fn asset_operations_have_their_identifiers() {
    assert_eq!(PolymeshRuntime::RegisterTicker.function_id(), FunctionId(0x001a_0000));
    assert_eq!(PolymeshRuntime::AcceptTickerTransfer.function_id(), FunctionId(0x001a_0100));
    assert_eq!(
        PolymeshRuntime::AcceptAssetOwnershipTransfer.function_id(),
        FunctionId(0x001a_0200)
    );
    assert_eq!(PolymeshRuntime::CreateAsset.function_id(), FunctionId(0x001a_0300));
    assert_eq!(PolymeshRuntime::RegisterCustomAssetType.function_id(), FunctionId(0x001a_1100));
}

#[test]
fn no_two_operations_share_an_identifier() {
    for (i, a) in ALL.iter().enumerate() {
        for (j, b) in ALL.iter().enumerate() {
            assert_eq!(a.function_id() == b.function_id(), i == j);
        }
    }
}

#[test]
fn lookup_finds_each_operation_and_nothing_else() {
    for op in ALL {
        assert_eq!(PolymeshRuntime::lookup(op.function_id()), Some(op));
    }
    for id in [0u32, 6, 0x0f, 0x13, 0x100, 0x001a_0001, 0x001a_0400, 0x001b_0000, 0x011a_0000, u32::MAX] {
        assert_eq!(PolymeshRuntime::lookup(FunctionId(id)), None);
    }
}

#[test]
fn category_byte_tells_the_family() {
    assert_eq!(Family::Runtime.category(), 0x00);
    assert_eq!(Family::Asset.category(), 0x1a);
    for op in ALL {
        assert_eq!(op.function_id().category(), op.family().category());
        assert_eq!(op.function_id().module(), 0);
        match op.family() {
            Family::Runtime => assert_eq!(op.function_id().operation(), 0),
            Family::Asset => assert_eq!(op.function_id().reserved(), 0),
        }
    }
    assert_eq!(PolymeshRuntime::Twox64.family(), Family::Runtime);
    assert_eq!(PolymeshRuntime::CreateAsset.family(), Family::Asset);
}

#[test]
fn function_id_comes_apart_into_four_bytes() {
    let id = FunctionId(0x1234_5678);
    assert_eq!(id.module(), 0x12);
    assert_eq!(id.category(), 0x34);
    assert_eq!(id.operation(), 0x56);
    assert_eq!(id.reserved(), 0x78);
    assert_eq!(FunctionId::from_parts(0x12, 0x34, 0x56, 0x78), id);
    assert_eq!(FunctionId::from_parts(0, 0x1a, 0x03, 0), PolymeshRuntime::CreateAsset.function_id());
    assert_eq!(FunctionId::from_parts(0xff, 0xff, 0xff, 0xff), FunctionId(u32::MAX));
    assert_eq!(FunctionId::from_parts(0, 0, 0, 0), FunctionId(0));
}

#[test]
fn each_operation_has_its_shape() {
    assert_eq!(PolymeshRuntime::CallRuntime.shape(), CallShape::StatusOnly);
    assert_eq!(PolymeshRuntime::ReadStorage.shape(), CallShape::StatusAndValue(ValueKind::OptionalBytes));
    assert_eq!(PolymeshRuntime::GetSpecVersion.shape(), CallShape::StatusIsValue);
    assert_eq!(PolymeshRuntime::GetTransactionVersion.shape(), CallShape::StatusIsValue);
    assert_eq!(PolymeshRuntime::GetKeyDid.shape(), CallShape::StatusAndValue(ValueKind::OptionalIdentity));
    assert_eq!(PolymeshRuntime::Twox64.shape(), CallShape::StatusAndValue(ValueKind::Digest64));
    assert_eq!(PolymeshRuntime::Twox128.shape(), CallShape::StatusAndValue(ValueKind::Digest128));
    assert_eq!(PolymeshRuntime::Twox256.shape(), CallShape::StatusAndValue(ValueKind::Digest256));
    assert_eq!(PolymeshRuntime::RegisterTicker.shape(), CallShape::StatusOnly);
    assert_eq!(PolymeshRuntime::AcceptTickerTransfer.shape(), CallShape::StatusOnly);
    assert_eq!(PolymeshRuntime::AcceptAssetOwnershipTransfer.shape(), CallShape::StatusOnly);
    assert_eq!(PolymeshRuntime::CreateAsset.shape(), CallShape::StatusOnly);
    assert_eq!(PolymeshRuntime::RegisterCustomAssetType.shape(), CallShape::StatusOnly);
}
