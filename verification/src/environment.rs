//! The environment of a contract: the primitive types of the chain it runs
//! on, and the bound on event topics.

use crate::codec::Codec;
use crate::dispatch::{new_instance, Phase, PolymeshRuntimeInstance};
use crate::ink::default_max_event_topics;
use crate::types::AccountId;
use vstd::prelude::*;

verus! {

/// An amount of the chain's currency.
pub type Balance = u128;

/// The number of a block.
pub type BlockNumber = u32;

/// A moment, in milliseconds.
pub type Timestamp = u64;

/// What a contract needs to know of the chain it runs on: the types of its
/// primitive values, each with its wire form, how many topics an event may
/// have, and the handle through which it calls the host. Code above the
/// dispatch layer is written against this trait, so that another chain is
/// another implementation and nothing else.
pub trait Environment {
    /// The key of an account.
    type AccountId: Codec;

    /// An amount of currency.
    type Balance: Codec;

    /// A hash.
    type Hash: Codec;

    /// The number of a block.
    type BlockNumber: Codec;

    /// A moment.
    type Timestamp: Codec;

    /// The handle through which the host is called.
    type Extension;

    /// The largest number of topics that an event may have.
    spec fn spec_max_event_topics() -> usize;

    /// The largest number of topics that an event may have.
    fn max_event_topics() -> (n: usize)
        ensures
            n == Self::spec_max_event_topics(),
    ;

    /// A fresh handle for one invocation.
    fn extension() -> Self::Extension;
}

/// The Polymesh environment: a marker without content, which names the types
/// and the bound. They are those of the default environment.
#[derive(Debug, Clone, Copy, PartialEq, Eq)]
pub struct PolymeshEnvironment;

impl Environment for PolymeshEnvironment {
    type AccountId = AccountId;

    type Balance = Balance;

    type Hash = crate::types::Hash;

    type BlockNumber = BlockNumber;

    type Timestamp = Timestamp;

    type Extension = PolymeshRuntimeInstance;

    open spec fn spec_max_event_topics() -> usize {
        4
    }

    fn max_event_topics() -> (n: usize) {
        default_max_event_topics()
    }

    fn extension() -> (instance: PolymeshRuntimeInstance)
        ensures
            instance@ == Phase::Idle,
    {
        new_instance()
    }
}

} // verus!
