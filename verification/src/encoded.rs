//! Bytes that are already in wire form.

use crate::codec::Codec;
use crate::scale::write_raw;
use vstd::prelude::*;

verus! {

/// Bytes that are already in wire form and go out as they are.
///
/// A byte vector that is an argument of its own is written with its length in
/// front. A payload that was encoded beforehand must not get a second length:
/// wrapped in `Encoded`, its bytes are the payload.
#[derive(Clone, Debug, PartialEq, Eq)]
pub struct Encoded(pub Vec<u8>);

impl View for Encoded {
    type V = Seq<u8>;

    open spec fn view(&self) -> Seq<u8> {
        self.0@
    }
}

impl From<Vec<u8>> for Encoded {
    /// Takes `data` as the wire form, unchanged.
    fn from(data: Vec<u8>) -> (encoded: Encoded) {
        Encoded(data)
    }
}

impl vstd::std_specs::convert::FromSpecImpl<Vec<u8>> for Encoded {
    open spec fn obeys_from_spec() -> bool {
        true
    }

    open spec fn from_spec(data: Vec<u8>) -> Encoded {
        Encoded(data)
    }
}

impl Encoded {
    /// The wire form of `value`.
    pub fn from_value<T: Codec>(value: &T) -> (encoded: Encoded)
        requires
            T::encodable(value.deep_view()),
        ensures
            encoded@ == T::encoding(value.deep_view()),
    {
        let mut data: Vec<u8> = Vec::new();
        value.encode_to(&mut data);
        assert(data@ =~= T::encoding(value.deep_view()));
        Encoded(data)
    }

    /// How many bytes `encode_to` will write.
    pub fn size_hint(&self) -> (n: usize)
        ensures
            n == self@.len(),
    {
        self.0.len()
    }

    /// Appends the bytes to `out` as they are: no length, no tag.
    pub fn encode_to(&self, out: &mut Vec<u8>)
        ensures
            final(out)@ == old(out)@ + self@,
    {
        write_raw(out, self.0.as_slice())
    }
}

} // verus!
