//! What a chain offers the relayer: its types, and how a message is encoded
//! and measured.

use crate::sync::Async;
use vstd::prelude::*;

verus! {

/// A context with one error type for all its operations.
pub trait HasError {
    type Error: Async;
}

/// The types that every chain has, and the operations on its messages.
pub trait ChainContext: HasError {
    type Height: Async;

    type Timestamp: Async;

    type Message: Async;

    type RawMessage: Async;

    type Signer: Async;

    type Event: Async;

    /// The length that the chain estimates for a message, or `None` where it
    /// can give no estimate. An implementation in unverified code writes this
    /// as an ordinary function that mirrors `estimate_message_len`; nothing
    /// ever calls it.
    spec fn message_len_estimate(message: &Self::Message) -> Option<usize>;

    fn encode_message(message: &Self::Message, signer: &Self::Signer) -> Result<
        Self::RawMessage,
        Self::Error,
    >;

    /// An upper bound on the length of the encoded message. The estimate
    /// depends on the message alone: it is the one that
    /// `message_len_estimate` names. Of an implementation in unverified code
    /// this is taken on trust.
    fn estimate_message_len(message: &Self::Message) -> (estimate: Result<usize, Self::Error>)
        ensures
            estimate matches Ok(len) ==> Self::message_len_estimate(message) == Some(len),
            estimate is Err ==> Self::message_len_estimate(message) is None,
    ;
}

/// What a chain adds once it speaks to a counterparty chain.
pub trait IbcChainContext<Counterparty>: ChainContext where Counterparty: ChainContext {
    type ClientId: Async;

    type ConnectionId: Async;

    type ChannelId: Async;

    type PortId: Async;

    type Sequence: Async;

    /// The height of the counterparty that a message refers to, if it refers
    /// to one.
    fn counterparty_message_height(message: &Self::Message) -> Option<Counterparty::Height>;
}

} // verus!
