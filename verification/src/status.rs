//! Status codes: what the host says of a call, and how that becomes a typed
//! error or a fault.
//!
//! An open point of the interface shows here. The host reports every failure
//! that it has no better word for under code `1`, in every family of
//! operations, and a contract cannot tell from the code whether the operation
//! itself failed or the host did not understand the call. The library does
//! not decide this: it takes code `1` for what it is declared to be, an error
//! named `Unknown` that the caller may handle, and treats no other nonzero
//! code as an error of any kind.

use crate::codec::{Codec, DecodeError};
use vstd::prelude::*;

verus! {

/// The errors that the host may report by status code. Every family of
/// operations declares this one list: a single error, under code `1`, that
/// tells no more than that the call failed.
#[derive(Debug, Copy, Clone, PartialEq, Eq, Structural)]
pub enum PolymeshRuntimeErr {
    Unknown,
}

/// What a status code means: success, a declared error, or nothing that the
/// caller and the host have agreed on.
#[derive(Debug, Copy, Clone, PartialEq, Eq, Structural)]
pub enum StatusClass {
    /// Code `0`.
    Success,
    /// A nonzero code that stands for a declared error.
    Declared(PolymeshRuntimeErr),
    /// Any other code. It shows that caller and host disagree about the
    /// interface; the invocation cannot go on.
    Fault,
}

impl PolymeshRuntimeErr {
    /// The status code under which the error is declared.
    pub open spec fn spec_status_code(self) -> u32 {
        match self {
            PolymeshRuntimeErr::Unknown => 1,
        }
    }

    /// The error declared under `status_code`, if one is.
    pub open spec fn spec_declared(status_code: u32) -> Option<PolymeshRuntimeErr> {
        if status_code == 1 {
            Some(PolymeshRuntimeErr::Unknown)
        } else {
            None
        }
    }

    /// What `status_code` means.
    pub open spec fn spec_classify(status_code: u32) -> StatusClass {
        if status_code == 0 {
            StatusClass::Success
        } else {
            match Self::spec_declared(status_code) {
                Some(err) => StatusClass::Declared(err),
                None => StatusClass::Fault,
            }
        }
    }

    /// The status code under which the error is declared.
    #[verifier::when_used_as_spec(spec_status_code)]
    pub fn status_code(self) -> (code: u32)
        ensures
            code == self.spec_status_code(),
    {
        match self {
            PolymeshRuntimeErr::Unknown => 1,
        }
    }

    /// The error declared under `status_code`, if one is.
    #[verifier::when_used_as_spec(spec_declared)]
    pub fn declared(status_code: u32) -> (r: Option<PolymeshRuntimeErr>)
        ensures
            r == Self::spec_declared(status_code),
    {
        if status_code == 1 {
            Some(PolymeshRuntimeErr::Unknown)
        } else {
            None
        }
    }

    /// Says what `status_code` means, for every code: `0` is success, a
    /// declared code is its error, and any other code is a fault.
    #[verifier::when_used_as_spec(spec_classify)]
    pub fn classify(status_code: u32) -> (class: StatusClass)
        ensures
            class == Self::spec_classify(status_code),
            status_code == 0 <==> class == StatusClass::Success,
    {
        if status_code == 0 {
            StatusClass::Success
        } else {
            match Self::declared(status_code) {
                Some(err) => StatusClass::Declared(err),
                None => StatusClass::Fault,
            }
        }
    }

    /// Translates a status code that is `0` or declared: `Ok` for `0`, the
    /// declared error otherwise. A code that is neither is a fault, not an
    /// error; `classify` tells the three apart.
    pub fn from_status_code(status_code: u32) -> (r: Result<(), PolymeshRuntimeErr>)
        requires
            Self::spec_classify(status_code) != StatusClass::Fault,
        ensures
            r == (match Self::spec_classify(status_code) {
                StatusClass::Declared(err) => Err::<(), PolymeshRuntimeErr>(err),
                _ => Ok(()),
            }),
            r is Ok <==> status_code == 0,
    {
        match Self::classify(status_code) {
            StatusClass::Declared(err) => Err(err),
            _ => Ok(()),
        }
    }

    /// Code `0` is success, whatever errors are declared, and no error is
    /// declared under it.
    pub proof fn lemma_zero_is_success()
        ensures
            Self::spec_classify(0) == StatusClass::Success,
            Self::spec_declared(0) is None,
            forall|err: PolymeshRuntimeErr| err.spec_status_code() != 0,
    {
    }

    /// The declared codes and the errors match one to one: each error is
    /// declared under its own code, and a code declares the error whose code
    /// it is and no other.
    pub proof fn lemma_codes_match_errors(status_code: u32, err: PolymeshRuntimeErr)
        ensures
            Self::spec_declared(err.spec_status_code()) == Some(err),
            Self::spec_declared(status_code) == Some(err) <==> status_code
                == err.spec_status_code(),
    {
    }

    /// Two errors under one code are the same error.
    pub proof fn lemma_codes_distinct(a: PolymeshRuntimeErr, b: PolymeshRuntimeErr)
        ensures
            a.spec_status_code() == b.spec_status_code() ==> a == b,
    {
    }
}

impl DeepView for PolymeshRuntimeErr {
    type V = PolymeshRuntimeErr;

    open spec fn deep_view(&self) -> PolymeshRuntimeErr {
        *self
    }
}

impl Codec for PolymeshRuntimeErr {
    open spec fn encodable(m: PolymeshRuntimeErr) -> bool {
        true
    }

    open spec fn encoding(m: PolymeshRuntimeErr) -> Seq<u8> {
        seq![0u8]
    }

    open spec fn decoding(s: Seq<u8>) -> Result<(PolymeshRuntimeErr, Seq<u8>), DecodeError> {
        if s.len() == 0 {
            Err(DecodeError::UnexpectedEnd)
        } else if s[0] == 0 {
            Ok((PolymeshRuntimeErr::Unknown, s.subrange(1, s.len() as int)))
        } else {
            Err(DecodeError::Invalid)
        }
    }

    proof fn lemma_round_trip(m: PolymeshRuntimeErr, rest: Seq<u8>) {
        let s = Self::encoding(m) + rest;
        assert(s.subrange(1, s.len() as int) =~= rest);
    }

    proof fn lemma_decoding_exact(s: Seq<u8>) {
        if s.len() > 0 {
            assert(s =~= seq![s[0]] + s.subrange(1, s.len() as int));
        }
    }

    proof fn lemma_cut_short(m: PolymeshRuntimeErr, k: int) {
    }

    fn is_encodable(&self) -> (b: bool) {
        true
    }

    fn encode_to(&self, out: &mut Vec<u8>) {
        out.push(0u8);
        assert(final(out)@ =~= old(out)@ + Self::encoding(*self));
    }

    fn decode<'a>(input: &'a [u8]) -> (r: Result<(PolymeshRuntimeErr, &'a [u8]), DecodeError>) {
        if input.len() == 0 {
            Err(DecodeError::UnexpectedEnd)
        } else if input[0] == 0 {
            Ok((PolymeshRuntimeErr::Unknown, vstd::slice::slice_subrange(input, 1, input.len())))
        } else {
            Err(DecodeError::Invalid)
        }
    }
}

} // verus!
