//! The dispatcher: one call at a time goes to the host, and what the host
//! answers becomes a typed result, a typed error, or the end of the
//! invocation.
//!
//! The library does not reach the host itself. It says what to send and what
//! the answer means; its user carries the request over and brings the answer
//! back.

use crate::call::{Call, Request};
use crate::codec::{lemma_more_bytes_after, Codec, DecodeError};
use crate::registry::{CallShape, PolymeshRuntime, ValueKind};
use crate::status::{PolymeshRuntimeErr, StatusClass};
use vstd::prelude::*;

verus! {

/// The value that an operation returned.
#[derive(Clone, Debug, PartialEq, Eq)]
pub enum ReturnValue {
    Unit,
    Bytes(Option<Vec<u8>>),
    Number(u32),
    Identity(Option<[u8; 32]>),
    Digest64([u8; 8]),
    Digest128([u8; 16]),
    Digest256([u8; 32]),
}

/// The value that an operation returned, as plain values.
pub enum ReturnModel {
    Unit,
    Bytes(Option<Seq<u8>>),
    Number(u32),
    Identity(Option<Seq<u8>>),
    Digest64(Seq<u8>),
    Digest128(Seq<u8>),
    Digest256(Seq<u8>),
}

impl DeepView for ReturnValue {
    type V = ReturnModel;

    open spec fn deep_view(&self) -> ReturnModel {
        match self {
            ReturnValue::Unit => ReturnModel::Unit,
            ReturnValue::Bytes(bytes) => ReturnModel::Bytes(bytes.deep_view()),
            ReturnValue::Number(n) => ReturnModel::Number(*n),
            ReturnValue::Identity(did) => ReturnModel::Identity(did.deep_view()),
            ReturnValue::Digest64(digest) => ReturnModel::Digest64(digest.deep_view()),
            ReturnValue::Digest128(digest) => ReturnModel::Digest128(digest.deep_view()),
            ReturnValue::Digest256(digest) => ReturnModel::Digest256(digest.deep_view()),
        }
    }
}

/// How a call ended.
#[derive(Clone, Debug, PartialEq, Eq)]
pub enum Outcome {
    /// The operation succeeded and returned this value.
    Returned(ReturnValue),
    /// The host reported a declared error.
    Failed(PolymeshRuntimeErr),
    /// The host answered with a status code that is not declared. Caller and
    /// host disagree about the interface: the invocation must be given up.
    ProtocolFault(u32),
    /// The host reported success, but the output is not a value of the kind
    /// that the operation returns, for the reason given. The invocation must
    /// be given up.
    Malformed(DecodeError),
}

/// How a call ended, as plain values.
pub enum OutcomeModel {
    Returned(ReturnModel),
    Failed(PolymeshRuntimeErr),
    ProtocolFault(u32),
    Malformed(DecodeError),
}

impl DeepView for Outcome {
    type V = OutcomeModel;

    open spec fn deep_view(&self) -> OutcomeModel {
        match self {
            Outcome::Returned(value) => OutcomeModel::Returned(value.deep_view()),
            Outcome::Failed(err) => OutcomeModel::Failed(*err),
            Outcome::ProtocolFault(status) => OutcomeModel::ProtocolFault(*status),
            Outcome::Malformed(reason) => OutcomeModel::Malformed(*reason),
        }
    }
}

impl OutcomeModel {
    /// Whether the invocation can go on after this outcome: it can after a
    /// value or a declared error, and cannot after a fault or a malformed
    /// output.
    pub open spec fn recoverable(self) -> bool {
        self is Returned || self is Failed
    }
}

/// Reads the value of kind `kind` off the front of `output`. Bytes after the
/// value are left unread.
pub open spec fn spec_decode_value(kind: ValueKind, output: Seq<u8>) -> Result<
    ReturnModel,
    DecodeError,
> {
    match kind {
        ValueKind::OptionalBytes => match Option::<Vec<u8>>::decoding(output) {
            Ok((bytes, _)) => Ok(ReturnModel::Bytes(bytes)),
            Err(e) => Err(e),
        },
        ValueKind::OptionalIdentity => match Option::<[u8; 32]>::decoding(output) {
            Ok((did, _)) => Ok(ReturnModel::Identity(did)),
            Err(e) => Err(e),
        },
        ValueKind::Digest64 => match <[u8; 8]>::decoding(output) {
            Ok((digest, _)) => Ok(ReturnModel::Digest64(digest)),
            Err(e) => Err(e),
        },
        ValueKind::Digest128 => match <[u8; 16]>::decoding(output) {
            Ok((digest, _)) => Ok(ReturnModel::Digest128(digest)),
            Err(e) => Err(e),
        },
        ValueKind::Digest256 => match <[u8; 32]>::decoding(output) {
            Ok((digest, _)) => Ok(ReturnModel::Digest256(digest)),
            Err(e) => Err(e),
        },
    }
}

/// What a status code and an output buffer mean for an operation that is
/// answered in shape `shape`.
///
/// Where the status code is itself the value, it is returned as it is.
/// Otherwise the code decides: an undeclared code is a fault, a declared code
/// is its error, and `0` is success, with the value, if the operation has
/// one, read from `output`.
pub open spec fn spec_resolve_shape(shape: CallShape, status: u32, output: Seq<u8>) -> OutcomeModel {
    match shape {
        CallShape::StatusIsValue => OutcomeModel::Returned(ReturnModel::Number(status)),
        _ => match PolymeshRuntimeErr::spec_classify(status) {
            StatusClass::Fault => OutcomeModel::ProtocolFault(status),
            StatusClass::Declared(err) => OutcomeModel::Failed(err),
            StatusClass::Success => match shape {
                CallShape::StatusAndValue(kind) => match spec_decode_value(kind, output) {
                    Ok(value) => OutcomeModel::Returned(value),
                    Err(reason) => OutcomeModel::Malformed(reason),
                },
                _ => OutcomeModel::Returned(ReturnModel::Unit),
            },
        },
    }
}

/// What the host's answer to operation `op` means.
pub open spec fn spec_resolve(op: PolymeshRuntime, status: u32, output: Seq<u8>) -> OutcomeModel {
    spec_resolve_shape(op.spec_shape(), status, output)
}

/// Reads the value of kind `kind` off the front of `output`.
pub fn decode_value(kind: ValueKind, output: &[u8]) -> (r: Result<ReturnValue, DecodeError>)
    ensures
        match r {
            Ok(value) => spec_decode_value(kind, output@) == Ok::<_, DecodeError>(
                value.deep_view(),
            ),
            Err(e) => spec_decode_value(kind, output@) == Err::<ReturnModel, _>(e),
        },
{
    match kind {
        ValueKind::OptionalBytes => match Option::<Vec<u8>>::decode(output) {
            Ok((bytes, _)) => Ok(ReturnValue::Bytes(bytes)),
            Err(e) => Err(e),
        },
        ValueKind::OptionalIdentity => match Option::<[u8; 32]>::decode(output) {
            Ok((did, _)) => Ok(ReturnValue::Identity(did)),
            Err(e) => Err(e),
        },
        ValueKind::Digest64 => match <[u8; 8]>::decode(output) {
            Ok((digest, _)) => Ok(ReturnValue::Digest64(digest)),
            Err(e) => Err(e),
        },
        ValueKind::Digest128 => match <[u8; 16]>::decode(output) {
            Ok((digest, _)) => Ok(ReturnValue::Digest128(digest)),
            Err(e) => Err(e),
        },
        ValueKind::Digest256 => match <[u8; 32]>::decode(output) {
            Ok((digest, _)) => Ok(ReturnValue::Digest256(digest)),
            Err(e) => Err(e),
        },
    }
}

/// Says what the host's answer to operation `op` means: `status` is the
/// status code it returned and `output` the bytes it left in the output
/// buffer.
pub fn resolve(op: PolymeshRuntime, status: u32, output: &[u8]) -> (outcome: Outcome)
    ensures
        outcome.deep_view() == spec_resolve(op, status, output@),
{
    match op.shape() {
        CallShape::StatusIsValue => Outcome::Returned(ReturnValue::Number(status)),
        shape => match PolymeshRuntimeErr::classify(status) {
            StatusClass::Fault => Outcome::ProtocolFault(status),
            StatusClass::Declared(err) => Outcome::Failed(err),
            StatusClass::Success => match shape {
                CallShape::StatusAndValue(kind) => match decode_value(kind, output) {
                    Ok(value) => Outcome::Returned(value),
                    Err(reason) => Outcome::Malformed(reason),
                },
                _ => Outcome::Returned(ReturnValue::Unit),
            },
        },
    }
}

/// Whether `value` is of the kind that an operation answered in shape `shape`
/// returns.
pub open spec fn spec_fits(shape: CallShape, value: ReturnModel) -> bool {
    match (shape, value) {
        (CallShape::StatusOnly, ReturnModel::Unit) => true,
        (CallShape::StatusIsValue, ReturnModel::Number(_)) => true,
        (CallShape::StatusAndValue(ValueKind::OptionalBytes), ReturnModel::Bytes(_)) => true,
        (CallShape::StatusAndValue(ValueKind::OptionalIdentity), ReturnModel::Identity(did)) => {
            match did {
                Some(bytes) => bytes.len() == 32,
                None => true,
            }
        },
        (CallShape::StatusAndValue(ValueKind::Digest64), ReturnModel::Digest64(digest)) => {
            digest.len() == 8
        },
        (CallShape::StatusAndValue(ValueKind::Digest128), ReturnModel::Digest128(digest)) => {
            digest.len() == 16
        },
        (CallShape::StatusAndValue(ValueKind::Digest256), ReturnModel::Digest256(digest)) => {
            digest.len() == 32
        },
        _ => false,
    }
}

/// Whatever an operation returns is of the kind that its shape names: the
/// caller of an operation need not look for any other.
pub proof fn lemma_value_fits_shape(op: PolymeshRuntime, status: u32, output: Seq<u8>)
    ensures
        match spec_resolve(op, status, output) {
            OutcomeModel::Returned(value) => spec_fits(op.spec_shape(), value),
            _ => true,
        },
{
}

/// Status code `0` is never an error and never a fault, whatever operation
/// was called; where the operation returns nothing, it is success outright.
pub proof fn lemma_zero_status_succeeds(op: PolymeshRuntime, output: Seq<u8>)
    ensures
        !(spec_resolve(op, 0, output) is Failed),
        !(spec_resolve(op, 0, output) is ProtocolFault),
        op.spec_shape() == CallShape::StatusOnly ==> spec_resolve(op, 0, output)
            == OutcomeModel::Returned(ReturnModel::Unit),
{
}

/// A nonzero status code of an operation that can fail is the error declared
/// under it, or a fault where none is declared; it is never both and never a
/// value. The output buffer has no say in it.
pub proof fn lemma_nonzero_status(op: PolymeshRuntime, status: u32, output: Seq<u8>)
    requires
        status != 0,
        op.spec_shape() != CallShape::StatusIsValue,
    ensures
        spec_resolve(op, status, output) == (match PolymeshRuntimeErr::spec_declared(status) {
            Some(err) => OutcomeModel::Failed(err),
            None => OutcomeModel::ProtocolFault(status),
        }),
{
}

/// Bytes that the host leaves behind the value change nothing: an answer that
/// resolves to a value or to an error resolves to the same with more bytes at
/// the end of the output.
pub proof fn lemma_output_tail_unread(
    op: PolymeshRuntime,
    status: u32,
    output: Seq<u8>,
    more: Seq<u8>,
)
    requires
        spec_resolve(op, status, output).recoverable(),
    ensures
        spec_resolve(op, status, output + more) == spec_resolve(op, status, output),
{
    lemma_more_bytes_after::<Option<Vec<u8>>>(output, more);
    lemma_more_bytes_after::<Option<[u8; 32]>>(output, more);
    lemma_more_bytes_after::<[u8; 8]>(output, more);
    lemma_more_bytes_after::<[u8; 16]>(output, more);
    lemma_more_bytes_after::<[u8; 32]>(output, more);
}

/// For every operation that can fail, the status codes that mean an error
/// and the declared errors match one to one: the code of an error resolves to
/// that error, and only that code does.
pub proof fn lemma_errors_per_operation(
    op: PolymeshRuntime,
    status: u32,
    err: PolymeshRuntimeErr,
    output: Seq<u8>,
)
    requires
        op.spec_shape() != CallShape::StatusIsValue,
    ensures
        spec_resolve(op, err.spec_status_code(), output) == OutcomeModel::Failed(err),
        spec_resolve(op, status, output) == OutcomeModel::Failed(err) <==> status
            == err.spec_status_code(),
{
}

/// Where an invocation stands.
#[derive(Clone, Copy, Debug, PartialEq, Eq, Structural)]
pub enum Phase {
    /// No call is under way; one may be dispatched.
    Idle,
    /// A request for this operation went out and its answer has not come.
    Awaiting(PolymeshRuntime),
    /// A fault or a malformed output ended the invocation. Nothing more is
    /// dispatched.
    Aborted,
}

/// Why the dispatcher refused.
#[derive(Clone, Copy, Debug, PartialEq, Eq, Structural)]
pub enum DispatchError {
    /// A call is under way: its answer must come first.
    CallInFlight,
    /// No call is under way, so there is no answer to take.
    NoCallInFlight,
    /// The invocation was given up after a fault or a malformed output.
    Aborted,
    /// The format cannot hold the arguments: a vector among them has 2^32
    /// items or more.
    Unencodable,
}

/// The handle through which a contract calls the host. It lets one call out
/// at a time and takes the answer to that call before the next; after a
/// fault it lets none out.
#[derive(Debug)]
pub struct PolymeshRuntimeInstance {
    phase: Phase,
}

impl View for PolymeshRuntimeInstance {
    type V = Phase;

    closed spec fn view(&self) -> Phase {
        self.phase
    }
}

/// A fresh handle, with no call under way.
pub fn new_instance() -> (instance: PolymeshRuntimeInstance)
    ensures
        instance@ == Phase::Idle,
{
    PolymeshRuntimeInstance { phase: Phase::Idle }
}

impl PolymeshRuntimeInstance {
    /// Where the invocation stands.
    pub fn phase(&self) -> (phase: Phase)
        ensures
            phase == self@,
    {
        self.phase
    }

    /// Takes a call and hands back the request to carry to the host.
    ///
    /// An idle handle accepts every call that the format can hold: the
    /// request has the identifier that the registry holds for the operation
    /// and the encoded arguments as payload, and the handle waits for the
    /// answer. In every other case the handle refuses, says why, and stays as
    /// it was.
    pub fn dispatch(&mut self, call: &Call) -> (r: Result<Request, DispatchError>)
        ensures
            match old(self)@ {
                Phase::Idle => if call.encodable() {
                    &&& r is Ok
                    &&& r->Ok_0.function_id == call.spec_operation().spec_function_id()
                    &&& r->Ok_0.payload@ == call.payload()
                    &&& final(self)@ == Phase::Awaiting(call.spec_operation())
                } else {
                    &&& r is Err
                    &&& r->Err_0 == DispatchError::Unencodable
                    &&& final(self)@ == Phase::Idle
                },
                Phase::Awaiting(_) => {
                    &&& r is Err
                    &&& r->Err_0 == DispatchError::CallInFlight
                    &&& final(self)@ == old(self)@
                },
                Phase::Aborted => {
                    &&& r is Err
                    &&& r->Err_0 == DispatchError::Aborted
                    &&& final(self)@ == Phase::Aborted
                },
            },
    {
        match self.phase {
            Phase::Idle => {
                if call.is_encodable() {
                    let request = call.request();
                    self.phase = Phase::Awaiting(call.operation());
                    Ok(request)
                } else {
                    Err(DispatchError::Unencodable)
                }
            },
            Phase::Awaiting(_) => Err(DispatchError::CallInFlight),
            Phase::Aborted => Err(DispatchError::Aborted),
        }
    }

    /// Takes the host's answer to the call under way and says how the call
    /// ended.
    ///
    /// After a value or a declared error the handle is idle again. After a
    /// fault or a malformed output it is aborted. Where no call is under way
    /// the handle refuses and stays as it was.
    pub fn complete(&mut self, status: u32, output: &[u8]) -> (r: Result<Outcome, DispatchError>)
        ensures
            match old(self)@ {
                Phase::Awaiting(op) => {
                    &&& r is Ok
                    &&& r->Ok_0.deep_view() == spec_resolve(op, status, output@)
                    &&& final(self)@ == if spec_resolve(op, status, output@).recoverable() {
                        Phase::Idle
                    } else {
                        Phase::Aborted
                    }
                },
                Phase::Idle => {
                    &&& r is Err
                    &&& r->Err_0 == DispatchError::NoCallInFlight
                    &&& final(self)@ == Phase::Idle
                },
                Phase::Aborted => {
                    &&& r is Err
                    &&& r->Err_0 == DispatchError::Aborted
                    &&& final(self)@ == Phase::Aborted
                },
            },
    {
        match self.phase {
            Phase::Awaiting(op) => {
                let outcome = resolve(op, status, output);
                match outcome {
                    Outcome::Returned(_) | Outcome::Failed(_) => {
                        self.phase = Phase::Idle;
                    },
                    _ => {
                        self.phase = Phase::Aborted;
                    },
                }
                Ok(outcome)
            },
            Phase::Idle => Err(DispatchError::NoCallInFlight),
            Phase::Aborted => Err(DispatchError::Aborted),
        }
    }
}

} // verus!
