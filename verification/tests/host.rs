//! Requests carried to a host and back through `ink_env`: the host here is
//! a stand-in that notes what it was sent and answers as it was told.

use ink_env::chain_extension::{ChainExtensionMethod, FromStatusCode};
use parity_scale_codec::{Decode, Encode, Error, Input, Output};
use polymesh_extension::call::{Call, CreateAsset, Request};
use polymesh_extension::codec::{Codec, DecodeError};
use polymesh_extension::dispatch::{Outcome, Phase, ReturnValue};
use polymesh_extension::types::{AssetName, AssetType, Ticker};
use polymesh_extension::{new_instance, Encoded, PolymeshRuntime, PolymeshRuntimeErr};
use std::cell::RefCell;
use std::rc::Rc;

struct Payload(Encoded);

impl Encode for Payload {
    fn size_hint(&self) -> usize {
        self.0.size_hint()
    }

    fn encode_to<O: Output + ?Sized>(&self, out: &mut O) {
        out.write(&(self.0).0)
    }
}

struct RawStatus(u32);

impl FromStatusCode for RawStatus {
    fn from_status_code(status_code: u32) -> Result<(), Self> {
        if status_code == 0 {
            Ok(())
        } else {
            Err(RawStatus(status_code))
        }
    }
}

struct RawOutput(Vec<u8>);

impl Decode for RawOutput {
    fn decode<I: Input>(input: &mut I) -> Result<Self, Error> {
        let len = input.remaining_len()?.unwrap_or(0);
        let mut bytes = vec![0u8; len];
        input.read(&mut bytes)?;
        Ok(RawOutput(bytes))
    }
}

fn call_host(request: &Request) -> (u32, Vec<u8>) {
    let method = ChainExtensionMethod::build(request.function_id.0)
        .input::<Payload>()
        .output::<RawOutput>()
        .handle_error_code::<RawStatus>();
    match method.call(&Payload(Encoded::from(request.payload.clone()))) {
        Ok(RawOutput(output)) => (0, output),
        Err(RawStatus(status)) => (status, Vec::new()),
    }
}

/// What the stand-in host was sent, one entry per call.
type Log = Rc<RefCell<Vec<Vec<u8>>>>;

struct Host {
    operation: PolymeshRuntime,
    status: u32,
    answer: Vec<u8>,
    log: Log,
}

impl ink_env::test::ChainExtension for Host {
    fn func_id(&self) -> u32 {
        self.operation.function_id().0
    }

    fn call(&mut self, input: &[u8], output: &mut Vec<u8>) -> u32 {
        // The test engine hands the payload over as a byte vector.
        let (payload, rest) = <Vec<u8> as Codec>::decode(input).unwrap();
        assert!(rest.is_empty());
        self.log.borrow_mut().push(payload);
        output.extend_from_slice(&self.answer);
        self.status
    }
}

fn host(operation: PolymeshRuntime, status: u32, answer: &[u8]) -> Log {
    let log = Log::default();
    ink_env::test::register_chain_extension(Host {
        operation,
        status,
        answer: answer.to_vec(),
        log: log.clone(),
    });
    log
}

fn run(call: &Call) -> Outcome {
    let mut instance = new_instance();
    let request = instance.dispatch(call).unwrap();
    let (status, output) = call_host(&request);
    let outcome = instance.complete(status, &output).unwrap();
    let expected = match outcome {
        Outcome::Returned(_) | Outcome::Failed(_) => Phase::Idle,
        _ => Phase::Aborted,
    };
    assert_eq!(instance.phase(), expected);
    outcome
}

#[test]
fn host_gets_the_ticker_once_and_unframed() {
    let log = host(PolymeshRuntime::RegisterTicker, 0, &[]);
    let outcome = run(&Call::RegisterTicker(Ticker(*b"ABCDEFGHIJKL")));
    assert_eq!(outcome, Outcome::Returned(ReturnValue::Unit));
    assert_eq!(*log.borrow(), vec![b"ABCDEFGHIJKL".to_vec()]);
}

#[test]
fn host_gets_the_create_asset_fields_in_order() {
    let log = host(PolymeshRuntime::CreateAsset, 0, &[]);
    let outcome = run(&Call::CreateAsset(CreateAsset {
        name: AssetName(b"Foo".to_vec()),
        ticker: Ticker(*b"ABCDEFGHIJKL"),
        divisible: true,
        asset_type: AssetType::EquityCommon,
        identifiers: Vec::new(),
        funding_round: None,
        disable_iu: true,
    }));
    assert_eq!(outcome, Outcome::Returned(ReturnValue::Unit));
    assert_eq!(*log.borrow(), vec![b"\x0cFooABCDEFGHIJKL\x01\x00\x00\x00\x01".to_vec()]);
}

#[test]
fn host_gets_raw_bytes_as_they_are() {
    let log = host(PolymeshRuntime::CallRuntime, 0, &[]);
    let outcome = run(&Call::CallRuntime(Encoded::from(vec![0x1a, 0x00, 0xff])));
    assert_eq!(outcome, Outcome::Returned(ReturnValue::Unit));
    assert_eq!(*log.borrow(), vec![vec![0x1au8, 0x00, 0xff]]);
}

#[test]
fn host_answer_with_a_value_is_read() {
    let log = host(PolymeshRuntime::ReadStorage, 0, &[1, 12, 7, 8, 9]);
    let outcome = run(&Call::ReadStorage(Encoded::from(b"key".to_vec())));
    assert_eq!(outcome, Outcome::Returned(ReturnValue::Bytes(Some(vec![7, 8, 9]))));
    assert_eq!(*log.borrow(), vec![b"key".to_vec()]);
}

#[test]
fn host_status_one_is_the_unknown_error() {
    host(PolymeshRuntime::AcceptTickerTransfer, 1, &[]);
    let outcome = run(&Call::AcceptTickerTransfer(9));
    assert_eq!(outcome, Outcome::Failed(PolymeshRuntimeErr::Unknown));
}

#[test]
fn host_status_outside_the_table_is_a_fault() {
    host(PolymeshRuntime::AcceptTickerTransfer, 2, &[]);
    let outcome = run(&Call::AcceptTickerTransfer(9));
    assert_eq!(outcome, Outcome::ProtocolFault(2));
}

#[test]
fn host_status_is_the_version() {
    host(PolymeshRuntime::GetSpecVersion, 5_001_002, &[]);
    let outcome = run(&Call::GetSpecVersion);
    assert_eq!(outcome, Outcome::Returned(ReturnValue::Number(5_001_002)));
}

#[test]
fn host_answer_cut_short_is_malformed() {
    host(PolymeshRuntime::Twox128, 0, &[0u8; 15]);
    let outcome = run(&Call::Twox128(Encoded::from(b"abc".to_vec())));
    assert_eq!(outcome, Outcome::Malformed(DecodeError::UnexpectedEnd));
}
