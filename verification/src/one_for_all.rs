//! A chain, or a relay, given as one trait, from which its contexts are
//! derived.

use crate::chain::{ChainContext, HasError, IbcChainContext};
use crate::relay::{InjectMismatchIbcEventsCountError, RelayContext};
use crate::sync::Async;
use vstd::prelude::*;

verus! {

/// Wraps a chain so that it can take the role of a chain context.
#[derive(Clone)]
pub struct OfaChainWrapper<Chain> {
    pub chain: Chain,
}

impl<Chain> OfaChainWrapper<Chain> {
    pub fn new(chain: Chain) -> (wrapper: Self)
        ensures
            wrapper.chain == chain,
    {
        Self { chain }
    }
}

/// The types of a chain.
pub trait OfaChainTypes: Async {
    type Error: Async;

    type Height: Ord + Async;

    type Timestamp: Async;

    type Message: Async;

    type RawMessage: Async;

    type Signer: Async;

    type Event: Async;

    type ClientId: Async;

    type ConnectionId: Async;

    type ChannelId: Async;

    type PortId: Async;

    type Sequence: Async;

    type ChainStatus: Async;

    type ConsensusState: Async;

    type WriteAcknowledgementEvent: Async;
}

/// What a chain can do by itself, without waiting on anything: it encodes
/// and measures its messages and reads its own status and events.
pub trait OfaChain: OfaChainTypes {
    type Components;

    /// The length that the chain estimates for a message, or `None` where it
    /// can give no estimate. An implementation in unverified code writes this
    /// as an ordinary function that mirrors `estimate_message_len`; nothing
    /// ever calls it.
    spec fn message_len_estimate(message: &Self::Message) -> Option<usize>;

    fn encode_raw_message(message: &Self::Message, signer: &Self::Signer) -> Result<
        Self::RawMessage,
        Self::Error,
    >;

    /// An upper bound on the length of the encoded message. The estimate
    /// depends on the message alone: it is the one that
    /// `message_len_estimate` names. Of an implementation in unverified code
    /// this is taken on trust.
    fn estimate_message_len(message: &Self::Message) -> (estimate: Result<usize, Self::Error>)
        ensures
            estimate matches Ok(len) ==> Self::message_len_estimate(message) == Some(len),
            estimate is Err ==> Self::message_len_estimate(message) is None,
    ;

    fn chain_status_height(status: &Self::ChainStatus) -> &Self::Height;

    fn chain_status_timestamp(status: &Self::ChainStatus) -> &Self::Timestamp;

    fn try_extract_write_acknowledgement_event(event: Self::Event) -> Option<
        Self::WriteAcknowledgementEvent,
    >;
}

/// What a chain can do with regard to a counterparty chain.
pub trait OfaIbcChain<Counterparty>: OfaChain where Counterparty: OfaChainTypes {
    /// The height of the counterparty that a message refers to, if it refers
    /// to one.
    fn counterparty_message_height(message: &Self::Message) -> Option<Counterparty::Height>;
}

impl<Chain: OfaChain> HasError for OfaChainWrapper<Chain> {
    type Error = Chain::Error;
}

impl<Chain: OfaChain> ChainContext for OfaChainWrapper<Chain> {
    type Height = Chain::Height;

    type Timestamp = Chain::Timestamp;

    type Message = Chain::Message;

    type RawMessage = Chain::RawMessage;

    type Signer = Chain::Signer;

    type Event = Chain::Event;

    open spec fn message_len_estimate(message: &Self::Message) -> Option<usize> {
        Chain::message_len_estimate(message)
    }

    /// Encodes the message as the wrapped chain does: the result is the one
    /// that the chain's `encode_raw_message` gives for the same message and
    /// signer, be it the raw message or the chain's error.
    fn encode_message(message: &Self::Message, signer: &Self::Signer) -> (encoded: Result<
        Self::RawMessage,
        Self::Error,
    >)
        ensures
            call_ensures(Chain::encode_raw_message, (message, signer), encoded),
    {
        Chain::encode_raw_message(message, signer)
    }

    fn estimate_message_len(message: &Self::Message) -> (estimate: Result<usize, Self::Error>) {
        Chain::estimate_message_len(message)
    }
}

impl<Chain, Counterparty> IbcChainContext<OfaChainWrapper<Counterparty>> for OfaChainWrapper<
    Chain,
> where Chain: OfaIbcChain<Counterparty>, Counterparty: OfaChain {
    type ClientId = Chain::ClientId;

    type ConnectionId = Chain::ConnectionId;

    type ChannelId = Chain::ChannelId;

    type PortId = Chain::PortId;

    type Sequence = Chain::Sequence;

    /// Reads the counterparty height as the wrapped chain does: the result
    /// is the one that the chain's `counterparty_message_height` gives for
    /// the same message.
    fn counterparty_message_height(message: &Self::Message) -> (height: Option<
        Counterparty::Height,
    >)
        ensures
            call_ensures(Chain::counterparty_message_height, (message,), height),
    {
        Chain::counterparty_message_height(message)
    }
}

/// A relay between two chains that are each given as one trait.
pub trait OfaBaseRelay: Async {
    type Error: Async;

    type SrcChain: OfaIbcChain<Self::DstChain>;

    type DstChain: OfaIbcChain<Self::SrcChain>;

    type Packet: Async;

    /// The error for a result that holds `actual` event lists where
    /// `expected` were due. An implementation in unverified code writes this
    /// as an ordinary function that mirrors
    /// `mismatch_ibc_events_count_error`; nothing ever calls it.
    spec fn mismatch_ibc_events_count(expected: usize, actual: usize) -> Self::Error;

    /// Makes the error that `mismatch_ibc_events_count` names. Of an
    /// implementation in unverified code this is taken on trust.
    fn mismatch_ibc_events_count_error(expected: usize, actual: usize) -> (error: Self::Error)
        ensures
            error == Self::mismatch_ibc_events_count(expected, actual),
    ;
}

/// Wraps a relay so that it can take the role of a relay context.
#[derive(Clone)]
pub struct OfaRelayWrapper<Relay> {
    pub relay: Relay,
}

impl<Relay> OfaRelayWrapper<Relay> {
    pub fn new(relay: Relay) -> (wrapper: Self)
        ensures
            wrapper.relay == relay,
    {
        Self { relay }
    }
}

impl<Relay: OfaBaseRelay> HasError for OfaRelayWrapper<Relay> {
    type Error = Relay::Error;
}

impl<Relay: OfaBaseRelay> RelayContext for OfaRelayWrapper<Relay> {
    type SrcChain = OfaChainWrapper<Relay::SrcChain>;

    type DstChain = OfaChainWrapper<Relay::DstChain>;

    type Packet = Relay::Packet;
}

impl<Relay: OfaBaseRelay> InjectMismatchIbcEventsCountError for OfaRelayWrapper<Relay> {
    open spec fn mismatch_ibc_events_count(expected: usize, actual: usize) -> Self::Error {
        Relay::mismatch_ibc_events_count(expected, actual)
    }

    fn mismatch_ibc_events_count_error(expected: usize, actual: usize) -> (error: Self::Error) {
        Relay::mismatch_ibc_events_count_error(expected, actual)
    }
}

} // verus!
