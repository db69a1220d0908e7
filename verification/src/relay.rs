//! A relay between two chains, and the side of it that messages go to.

use crate::chain::{HasError, IbcChainContext};
use crate::sync::Async;
use vstd::prelude::*;

verus! {

/// Two chains, each the counterparty of the other, with the packets that go
/// from the source chain to the destination chain. The relay has one error
/// type for all that it does.
pub trait RelayContext: HasError + Async {
    type SrcChain: IbcChainContext<Self::DstChain>;

    type DstChain: IbcChainContext<Self::SrcChain>;

    type Packet: Async;
}

/// A context that can make the error for a result with the wrong number of
/// event lists.
pub trait InjectMismatchIbcEventsCountError: HasError {
    /// The error for a result that holds `actual` event lists where
    /// `expected` were due.
    spec fn mismatch_ibc_events_count(expected: usize, actual: usize) -> Self::Error;

    /// Makes the error that `mismatch_ibc_events_count` names.
    fn mismatch_ibc_events_count_error(expected: usize, actual: usize) -> (error: Self::Error)
        ensures
            error == Self::mismatch_ibc_events_count(expected, actual),
    ;
}

/// The side of a relay that messages are sent to: the target chain, and the
/// chain on the other side as its counterparty.
pub trait ChainTarget<Relay: RelayContext>: Async {
    type TargetChain: IbcChainContext<Self::CounterpartyChain>;

    type CounterpartyChain: IbcChainContext<Self::TargetChain>;
}

/// Messages go to the source chain of the relay.
pub struct SourceTarget;

/// Messages go to the destination chain of the relay.
pub struct DestinationTarget;

impl<Relay: RelayContext> ChainTarget<Relay> for SourceTarget {
    type TargetChain = Relay::SrcChain;

    type CounterpartyChain = Relay::DstChain;
}

impl<Relay: RelayContext> ChainTarget<Relay> for DestinationTarget {
    type TargetChain = Relay::DstChain;

    type CounterpartyChain = Relay::SrcChain;
}

} // verus!
