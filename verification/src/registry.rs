//! The registry: the operations that the host offers and the identifier of
//! each. Caller and host hold the same table; nothing is negotiated at run
//! time.

use vstd::prelude::*;

verus! {

/// The 32-bit identifier of a host operation.
///
/// Its four bytes are, from the most significant: module, category, operation
/// and a last byte that the asset family keeps in reserve. The category tells
/// the family. The runtime family numbers its operations in the last byte and
/// leaves the operation byte zero; the asset family numbers them in the
/// operation byte and leaves the last byte zero.
#[derive(Clone, Copy, Debug, PartialEq, Eq, Structural)]
pub struct FunctionId(pub u32);

impl FunctionId {
    /// The most significant byte.
    pub open spec fn spec_module(self) -> u8 {
        (self.0 / 0x100_0000) as u8
    }

    /// The second byte, which tells the family.
    pub open spec fn spec_category(self) -> u8 {
        ((self.0 / 0x1_0000) % 0x100) as u8
    }

    /// The third byte.
    pub open spec fn spec_operation(self) -> u8 {
        ((self.0 / 0x100) % 0x100) as u8
    }

    /// The least significant byte.
    pub open spec fn spec_reserved(self) -> u8 {
        (self.0 % 0x100) as u8
    }

    /// The identifier with the four bytes given.
    pub open spec fn spec_from_parts(module: u8, category: u8, operation: u8, reserved: u8) -> FunctionId {
        FunctionId((module * 0x100_0000 + category * 0x1_0000 + operation * 0x100 + reserved) as u32)
    }

    /// The most significant byte.
    #[verifier::when_used_as_spec(spec_module)]
    pub fn module(self) -> (b: u8)
        ensures
            b == self.spec_module(),
    {
        (self.0 / 0x100_0000) as u8
    }

    /// The second byte, which tells the family.
    #[verifier::when_used_as_spec(spec_category)]
    pub fn category(self) -> (b: u8)
        ensures
            b == self.spec_category(),
    {
        ((self.0 / 0x1_0000) % 0x100) as u8
    }

    /// The third byte.
    #[verifier::when_used_as_spec(spec_operation)]
    pub fn operation(self) -> (b: u8)
        ensures
            b == self.spec_operation(),
    {
        ((self.0 / 0x100) % 0x100) as u8
    }

    /// The least significant byte.
    #[verifier::when_used_as_spec(spec_reserved)]
    pub fn reserved(self) -> (b: u8)
        ensures
            b == self.spec_reserved(),
    {
        (self.0 % 0x100) as u8
    }

    /// The identifier with the four bytes given.
    #[verifier::when_used_as_spec(spec_from_parts)]
    pub fn from_parts(module: u8, category: u8, operation: u8, reserved: u8) -> (id: FunctionId)
        ensures
            id == Self::spec_from_parts(module, category, operation, reserved),
            id.spec_module() == module,
            id.spec_category() == category,
            id.spec_operation() == operation,
            id.spec_reserved() == reserved,
    {
        let m: u32 = module as u32;
        let c: u32 = category as u32;
        let o: u32 = operation as u32;
        let r: u32 = reserved as u32;
        proof {
            lemma_join_then_split(m, c, o, r);
        }
        FunctionId(m * 0x100_0000 + c * 0x1_0000 + o * 0x100 + r)
    }

    /// An identifier is its four bytes put together again.
    pub proof fn lemma_parts(self)
        ensures
            Self::spec_from_parts(
                self.spec_module(),
                self.spec_category(),
                self.spec_operation(),
                self.spec_reserved(),
            ) == self,
    {
        lemma_split_then_join(self.0);
    }
}

/// Four bytes joined into 32 bits fit, and come apart as they were.
proof fn lemma_join_then_split(m: u32, c: u32, o: u32, r: u32)
    by (bit_vector)
    requires
        m < 0x100,
        c < 0x100,
        o < 0x100,
        r < 0x100,
    ensures
        m * 0x100_0000 + c * 0x1_0000 + o * 0x100 + r <= 0xffff_ffff,
        (m * 0x100_0000 + c * 0x1_0000 + o * 0x100 + r) / 0x100_0000 == m,
        ((m * 0x100_0000 + c * 0x1_0000 + o * 0x100 + r) / 0x1_0000) % 0x100 == c,
        ((m * 0x100_0000 + c * 0x1_0000 + o * 0x100 + r) / 0x100) % 0x100 == o,
        (m * 0x100_0000 + c * 0x1_0000 + o * 0x100 + r) % 0x100 == r,
{
}

/// The four bytes of 32 bits, joined, are the 32 bits.
proof fn lemma_split_then_join(v: u32)
    by (bit_vector)
    ensures
        v / 0x100_0000 < 0x100,
        (v / 0x100_0000) * 0x100_0000 + ((v / 0x1_0000) % 0x100) * 0x1_0000 + ((v / 0x100) % 0x100)
            * 0x100 + v % 0x100 == v,
{
}

/// A family of operations. Each family has a category byte of its own, so
/// that the identifiers of two families never meet, however each of them
/// grows.
#[derive(Clone, Copy, Debug, PartialEq, Eq, Structural)]
pub enum Family {
    /// Access to the runtime itself: calls, storage, versions, keys, hashing.
    Runtime,
    /// Management of assets.
    Asset,
}

impl Family {
    /// The category byte of the family.
    pub open spec fn spec_category(self) -> u8 {
        match self {
            Family::Runtime => 0x00,
            Family::Asset => 0x1A,
        }
    }

    /// The category byte of the family.
    #[verifier::when_used_as_spec(spec_category)]
    pub fn category(self) -> (b: u8)
        ensures
            b == self.spec_category(),
    {
        match self {
            Family::Runtime => 0x00,
            Family::Asset => 0x1A,
        }
    }
}

/// The kind of value that the host leaves in the output buffer.
#[derive(Clone, Copy, Debug, PartialEq, Eq, Structural)]
pub enum ValueKind {
    /// Bytes, or their absence.
    OptionalBytes,
    /// A 32-byte identity, or its absence.
    OptionalIdentity,
    /// An 8-byte digest.
    Digest64,
    /// A 16-byte digest.
    Digest128,
    /// A 32-byte digest.
    Digest256,
}

/// How the host answers an operation.
#[derive(Clone, Copy, Debug, PartialEq, Eq, Structural)]
pub enum CallShape {
    /// A status code and nothing else.
    StatusOnly,
    /// A status code and, where it is `0`, a value of this kind in the output
    /// buffer.
    StatusAndValue(ValueKind),
    /// The status code is itself the value asked for, a 32-bit number; the
    /// call cannot fail.
    StatusIsValue,
}

/// The operations of the Polymesh runtime that a contract can call.
#[derive(Clone, Copy, Debug, PartialEq, Eq, Structural)]
pub enum PolymeshRuntime {
    /// Hands an encoded call to the runtime.
    CallRuntime,
    /// Reads the storage value under a key.
    ReadStorage,
    /// Asks for the version of the runtime's rules.
    GetSpecVersion,
    /// Asks for the version of the transaction format.
    GetTransactionVersion,
    /// Asks for the identity that an account key belongs to.
    GetKeyDid,
    /// Hashes bytes to 8 bytes.
    Twox64,
    /// Hashes bytes to 16 bytes.
    Twox128,
    /// Hashes bytes to 32 bytes.
    Twox256,
    /// Binds a ticker to the caller.
    RegisterTicker,
    /// Accepts the transfer of a ticker.
    AcceptTickerTransfer,
    /// Accepts the transfer of the ownership of an asset.
    AcceptAssetOwnershipTransfer,
    /// Creates an asset.
    CreateAsset,
    /// Registers a custom kind of asset.
    RegisterCustomAssetType,
}

impl PolymeshRuntime {
    /// The identifier of the operation.
    pub open spec fn spec_function_id(self) -> FunctionId {
        match self {
            PolymeshRuntime::CallRuntime => FunctionId(0x0000_0001),
            PolymeshRuntime::ReadStorage => FunctionId(0x0000_0002),
            PolymeshRuntime::GetSpecVersion => FunctionId(0x0000_0003),
            PolymeshRuntime::GetTransactionVersion => FunctionId(0x0000_0004),
            PolymeshRuntime::GetKeyDid => FunctionId(0x0000_0005),
            PolymeshRuntime::Twox64 => FunctionId(0x0000_0010),
            PolymeshRuntime::Twox128 => FunctionId(0x0000_0011),
            PolymeshRuntime::Twox256 => FunctionId(0x0000_0012),
            PolymeshRuntime::RegisterTicker => FunctionId(0x001A_0000),
            PolymeshRuntime::AcceptTickerTransfer => FunctionId(0x001A_0100),
            PolymeshRuntime::AcceptAssetOwnershipTransfer => FunctionId(0x001A_0200),
            PolymeshRuntime::CreateAsset => FunctionId(0x001A_0300),
            PolymeshRuntime::RegisterCustomAssetType => FunctionId(0x001A_1100),
        }
    }

    /// The operation registered under `id`, if one is.
    pub open spec fn spec_lookup(id: FunctionId) -> Option<PolymeshRuntime> {
        if id.0 == 0x0000_0001 {
            Some(PolymeshRuntime::CallRuntime)
        } else if id.0 == 0x0000_0002 {
            Some(PolymeshRuntime::ReadStorage)
        } else if id.0 == 0x0000_0003 {
            Some(PolymeshRuntime::GetSpecVersion)
        } else if id.0 == 0x0000_0004 {
            Some(PolymeshRuntime::GetTransactionVersion)
        } else if id.0 == 0x0000_0005 {
            Some(PolymeshRuntime::GetKeyDid)
        } else if id.0 == 0x0000_0010 {
            Some(PolymeshRuntime::Twox64)
        } else if id.0 == 0x0000_0011 {
            Some(PolymeshRuntime::Twox128)
        } else if id.0 == 0x0000_0012 {
            Some(PolymeshRuntime::Twox256)
        } else if id.0 == 0x001A_0000 {
            Some(PolymeshRuntime::RegisterTicker)
        } else if id.0 == 0x001A_0100 {
            Some(PolymeshRuntime::AcceptTickerTransfer)
        } else if id.0 == 0x001A_0200 {
            Some(PolymeshRuntime::AcceptAssetOwnershipTransfer)
        } else if id.0 == 0x001A_0300 {
            Some(PolymeshRuntime::CreateAsset)
        } else if id.0 == 0x001A_1100 {
            Some(PolymeshRuntime::RegisterCustomAssetType)
        } else {
            None
        }
    }

    /// The family that the operation belongs to.
    pub open spec fn spec_family(self) -> Family {
        match self {
            PolymeshRuntime::CallRuntime
            | PolymeshRuntime::ReadStorage
            | PolymeshRuntime::GetSpecVersion
            | PolymeshRuntime::GetTransactionVersion
            | PolymeshRuntime::GetKeyDid
            | PolymeshRuntime::Twox64
            | PolymeshRuntime::Twox128
            | PolymeshRuntime::Twox256 => Family::Runtime,
            PolymeshRuntime::RegisterTicker
            | PolymeshRuntime::AcceptTickerTransfer
            | PolymeshRuntime::AcceptAssetOwnershipTransfer
            | PolymeshRuntime::CreateAsset
            | PolymeshRuntime::RegisterCustomAssetType => Family::Asset,
        }
    }

    /// How the host answers the operation.
    pub open spec fn spec_shape(self) -> CallShape {
        match self {
            PolymeshRuntime::ReadStorage => CallShape::StatusAndValue(ValueKind::OptionalBytes),
            PolymeshRuntime::GetSpecVersion => CallShape::StatusIsValue,
            PolymeshRuntime::GetTransactionVersion => CallShape::StatusIsValue,
            PolymeshRuntime::GetKeyDid => CallShape::StatusAndValue(ValueKind::OptionalIdentity),
            PolymeshRuntime::Twox64 => CallShape::StatusAndValue(ValueKind::Digest64),
            PolymeshRuntime::Twox128 => CallShape::StatusAndValue(ValueKind::Digest128),
            PolymeshRuntime::Twox256 => CallShape::StatusAndValue(ValueKind::Digest256),
            _ => CallShape::StatusOnly,
        }
    }

    /// The identifier of the operation.
    #[verifier::when_used_as_spec(spec_function_id)]
    pub fn function_id(self) -> (id: FunctionId)
        ensures
            id == self.spec_function_id(),
    {
        match self {
            PolymeshRuntime::CallRuntime => FunctionId(0x0000_0001),
            PolymeshRuntime::ReadStorage => FunctionId(0x0000_0002),
            PolymeshRuntime::GetSpecVersion => FunctionId(0x0000_0003),
            PolymeshRuntime::GetTransactionVersion => FunctionId(0x0000_0004),
            PolymeshRuntime::GetKeyDid => FunctionId(0x0000_0005),
            PolymeshRuntime::Twox64 => FunctionId(0x0000_0010),
            PolymeshRuntime::Twox128 => FunctionId(0x0000_0011),
            PolymeshRuntime::Twox256 => FunctionId(0x0000_0012),
            PolymeshRuntime::RegisterTicker => FunctionId(0x001A_0000),
            PolymeshRuntime::AcceptTickerTransfer => FunctionId(0x001A_0100),
            PolymeshRuntime::AcceptAssetOwnershipTransfer => FunctionId(0x001A_0200),
            PolymeshRuntime::CreateAsset => FunctionId(0x001A_0300),
            PolymeshRuntime::RegisterCustomAssetType => FunctionId(0x001A_1100),
        }
    }

    /// Finds the operation registered under `id`: `Some` for the thirteen
    /// identifiers of the table, `None` for every other.
    #[verifier::when_used_as_spec(spec_lookup)]
    pub fn lookup(id: FunctionId) -> (r: Option<PolymeshRuntime>)
        ensures
            r == Self::spec_lookup(id),
            forall|op: PolymeshRuntime| r == Some(op) <==> op.spec_function_id() == id,
    {
        match id.0 {
            0x0000_0001 => Some(PolymeshRuntime::CallRuntime),
            0x0000_0002 => Some(PolymeshRuntime::ReadStorage),
            0x0000_0003 => Some(PolymeshRuntime::GetSpecVersion),
            0x0000_0004 => Some(PolymeshRuntime::GetTransactionVersion),
            0x0000_0005 => Some(PolymeshRuntime::GetKeyDid),
            0x0000_0010 => Some(PolymeshRuntime::Twox64),
            0x0000_0011 => Some(PolymeshRuntime::Twox128),
            0x0000_0012 => Some(PolymeshRuntime::Twox256),
            0x001A_0000 => Some(PolymeshRuntime::RegisterTicker),
            0x001A_0100 => Some(PolymeshRuntime::AcceptTickerTransfer),
            0x001A_0200 => Some(PolymeshRuntime::AcceptAssetOwnershipTransfer),
            0x001A_0300 => Some(PolymeshRuntime::CreateAsset),
            0x001A_1100 => Some(PolymeshRuntime::RegisterCustomAssetType),
            _ => None,
        }
    }

    /// The family that the operation belongs to.
    #[verifier::when_used_as_spec(spec_family)]
    pub fn family(self) -> (f: Family)
        ensures
            f == self.spec_family(),
            f.spec_category() == self.spec_function_id().spec_category(),
    {
        if self.function_id().category() == 0x1A {
            Family::Asset
        } else {
            Family::Runtime
        }
    }

    /// How the host answers the operation.
    #[verifier::when_used_as_spec(spec_shape)]
    pub fn shape(self) -> (shape: CallShape)
        ensures
            shape == self.spec_shape(),
    {
        match self {
            PolymeshRuntime::ReadStorage => CallShape::StatusAndValue(ValueKind::OptionalBytes),
            PolymeshRuntime::GetSpecVersion => CallShape::StatusIsValue,
            PolymeshRuntime::GetTransactionVersion => CallShape::StatusIsValue,
            PolymeshRuntime::GetKeyDid => CallShape::StatusAndValue(ValueKind::OptionalIdentity),
            PolymeshRuntime::Twox64 => CallShape::StatusAndValue(ValueKind::Digest64),
            PolymeshRuntime::Twox128 => CallShape::StatusAndValue(ValueKind::Digest128),
            PolymeshRuntime::Twox256 => CallShape::StatusAndValue(ValueKind::Digest256),
            _ => CallShape::StatusOnly,
        }
    }

    /// No two operations share an identifier, and looking up an operation's
    /// identifier finds that operation.
    pub proof fn lemma_identifiers_distinct(a: PolymeshRuntime, b: PolymeshRuntime)
        ensures
            a.spec_function_id() == b.spec_function_id() ==> a == b,
            Self::spec_lookup(a.spec_function_id()) == Some(a),
    {
    }

    /// Whatever is found under an identifier is registered under it.
    pub proof fn lemma_lookup_exact(id: FunctionId)
        ensures
            match Self::spec_lookup(id) {
                Some(op) => op.spec_function_id() == id,
                None => forall|op: PolymeshRuntime| op.spec_function_id() != id,
            },
    {
    }

    /// The category byte of an identifier tells the family, so operations of
    /// different families have different identifiers. Within its family an
    /// operation is numbered in one byte, and the other is zero.
    pub proof fn lemma_families_apart(a: PolymeshRuntime, b: PolymeshRuntime)
        ensures
            a.spec_function_id().spec_module() == 0,
            a.spec_function_id().spec_category() == a.spec_family().spec_category(),
            a.spec_family() == Family::Runtime ==> a.spec_function_id().spec_operation() == 0,
            a.spec_family() == Family::Asset ==> a.spec_function_id().spec_reserved() == 0,
            a.spec_family() != b.spec_family() ==> a.spec_function_id() != b.spec_function_id(),
    {
    }
}

} // verus!
