use relayer_framework::batch::batch_size;
use relayer_framework::chain::{ChainContext, IbcChainContext};
use relayer_framework::one_for_all::{
    OfaBaseRelay, OfaChain, OfaChainTypes, OfaChainWrapper, OfaIbcChain, OfaRelayWrapper,
};
use relayer_framework::relay::{
    ChainTarget, DestinationTarget, InjectMismatchIbcEventsCountError, RelayContext, SourceTarget,
};

/// A chain whose messages are texts. A message is encoded as its bytes
/// behind the signer's name, and the empty message cannot be encoded.
#[derive(Clone, Debug, PartialEq)]
struct TextChain {
    name: String,
}

struct Status {
    height: u64,
    timestamp: u32,
}

impl OfaChainTypes for TextChain {
    type Error = String;
    type Height = u64;
    type Timestamp = u32;
    type Message = String;
    type RawMessage = Vec<u8>;
    type Signer = String;
    type Event = String;
    type ClientId = String;
    type ConnectionId = String;
    type ChannelId = String;
    type PortId = String;
    type Sequence = u64;
    type ChainStatus = Status;
    type ConsensusState = Vec<u8>;
    type WriteAcknowledgementEvent = String;
}

impl OfaChain for TextChain {
    type Components = ();

    fn message_len_estimate(message: &String) -> Option<usize> {
        if message.is_empty() {
            None
        } else {
            Some(message.len() + 8)
        }
    }

    fn encode_raw_message(message: &String, signer: &String) -> Result<Vec<u8>, String> {
        if message.is_empty() {
            return Err(String::from("empty message"));
        }
        let mut raw = signer.as_bytes().to_vec();
        raw.extend_from_slice(message.as_bytes());
        Ok(raw)
    }

    fn estimate_message_len(message: &String) -> Result<usize, String> {
        if message.is_empty() {
            Err(String::from("empty message"))
        } else {
            Ok(message.len() + 8)
        }
    }

    fn chain_status_height(status: &Status) -> &u64 {
        &status.height
    }

    fn chain_status_timestamp(status: &Status) -> &u32 {
        &status.timestamp
    }

    fn try_extract_write_acknowledgement_event(event: String) -> Option<String> {
        event.strip_prefix("ack:").map(String::from)
    }
}

impl OfaIbcChain<TextChain> for TextChain {
    fn counterparty_message_height(message: &String) -> Option<u64> {
        message.strip_prefix("at ").and_then(|height| height.parse().ok())
    }
}

/// A chain whose messages are numbers, each of the length 4.
#[derive(Clone, Debug, PartialEq)]
struct NumberChain;

impl OfaChainTypes for NumberChain {
    type Error = String;
    type Height = u32;
    type Timestamp = u32;
    type Message = u32;
    type RawMessage = [u8; 4];
    type Signer = ();
    type Event = u32;
    type ClientId = u8;
    type ConnectionId = u8;
    type ChannelId = u8;
    type PortId = u8;
    type Sequence = u64;
    type ChainStatus = u32;
    type ConsensusState = u32;
    type WriteAcknowledgementEvent = u32;
}

impl OfaChain for NumberChain {
    type Components = ();

    fn message_len_estimate(_message: &u32) -> Option<usize> {
        Some(4)
    }

    fn encode_raw_message(message: &u32, _signer: &()) -> Result<[u8; 4], String> {
        Ok(message.to_be_bytes())
    }

    fn estimate_message_len(_message: &u32) -> Result<usize, String> {
        Ok(4)
    }

    fn chain_status_height(status: &u32) -> &u32 {
        status
    }

    fn chain_status_timestamp(status: &u32) -> &u32 {
        status
    }

    fn try_extract_write_acknowledgement_event(event: u32) -> Option<u32> {
        Some(event)
    }
}

impl OfaIbcChain<TextChain> for NumberChain {
    fn counterparty_message_height(message: &u32) -> Option<u64> {
        Some(u64::from(*message))
    }
}

impl OfaIbcChain<NumberChain> for TextChain {
    fn counterparty_message_height(message: &String) -> Option<u32> {
        message.strip_prefix("at ").and_then(|height| height.parse().ok())
    }
}

/// A relay from the text chain to the number chain.
#[derive(Clone, Debug, PartialEq)]
struct TextToNumbers {
    name: String,
}

impl OfaBaseRelay for TextToNumbers {
    type Error = String;
    type SrcChain = TextChain;
    type DstChain = NumberChain;
    type Packet = Vec<u8>;

    fn mismatch_ibc_events_count(expected: usize, actual: usize) -> String {
        format!("expected {} event lists, got {}", expected, actual)
    }

    fn mismatch_ibc_events_count_error(expected: usize, actual: usize) -> String {
        format!("expected {} event lists, got {}", expected, actual)
    }
}

type Wrapped = OfaChainWrapper<TextChain>;
type WrappedRelay = OfaRelayWrapper<TextToNumbers>;

fn message_of<Chain: ChainContext<Message = Message>, Message>(message: Message) -> Message {
    message
}

#[test]
fn a_relay_wrapper_holds_the_relay_that_it_was_made_of() {
    let wrapper = OfaRelayWrapper::new(TextToNumbers { name: String::from("t2n") });
    assert_eq!(wrapper.relay, TextToNumbers { name: String::from("t2n") });
    assert_eq!(wrapper.clone().relay.name, "t2n");
}

#[test]
fn a_wrapped_relay_makes_the_mismatch_error_of_the_relay() {
    assert_eq!(
        <WrappedRelay as InjectMismatchIbcEventsCountError>::mismatch_ibc_events_count_error(2, 1),
        "expected 2 event lists, got 1"
    );
}

#[test]
fn the_targets_of_a_relay_are_its_two_chains() {
    type Source = <WrappedRelay as RelayContext>::SrcChain;
    type Destination = <WrappedRelay as RelayContext>::DstChain;
    type ToSource = <SourceTarget as ChainTarget<WrappedRelay>>::TargetChain;
    type FromSource = <SourceTarget as ChainTarget<WrappedRelay>>::CounterpartyChain;
    type ToDestination = <DestinationTarget as ChainTarget<WrappedRelay>>::TargetChain;
    type FromDestination = <DestinationTarget as ChainTarget<WrappedRelay>>::CounterpartyChain;

    assert_eq!(message_of::<Source, String>(String::from("a")), "a");
    assert_eq!(message_of::<Destination, u32>(7), 7);
    assert_eq!(message_of::<ToSource, String>(String::from("b")), "b");
    assert_eq!(message_of::<FromSource, u32>(8), 8);
    assert_eq!(message_of::<ToDestination, u32>(9), 9);
    assert_eq!(message_of::<FromDestination, String>(String::from("c")), "c");
    assert_eq!(batch_size::<ToDestination>(&[1, 2, 3]), 12);
    assert_eq!(batch_size::<ToSource>(&[String::from("abc")]), 11);
}

#[test]
fn a_wrapper_holds_the_chain_that_it_was_made_of() {
    let wrapper = OfaChainWrapper::new(TextChain { name: String::from("alpha") });
    assert_eq!(wrapper.chain, TextChain { name: String::from("alpha") });
    assert_eq!(wrapper.clone().chain.name, "alpha");
}

#[test]
fn a_wrapped_chain_encodes_as_the_chain_does() {
    let signer = String::from("me");
    assert_eq!(
        <Wrapped as ChainContext>::encode_message(&String::from("hi"), &signer),
        Ok(vec![b'm', b'e', b'h', b'i'])
    );
    assert_eq!(
        <Wrapped as ChainContext>::encode_message(&String::new(), &signer),
        Err(String::from("empty message"))
    );
}

#[test]
fn a_wrapped_chain_estimates_as_the_chain_does() {
    assert_eq!(<Wrapped as ChainContext>::estimate_message_len(&String::from("hello")), Ok(13));
    assert_eq!(
        <Wrapped as ChainContext>::estimate_message_len(&String::new()),
        Err(String::from("empty message"))
    );
}

#[test]
fn a_message_without_an_estimate_counts_as_nothing() {
    let messages = vec![String::from("ab"), String::new(), String::from("cde")];
    assert_eq!(batch_size::<Wrapped>(&messages), 10 + 0 + 11);
    assert_eq!(batch_size::<Wrapped>(&[String::new(), String::new()]), 0);
}

#[test]
fn a_wrapped_chain_reads_the_counterparty_height_as_the_chain_does() {
    assert_eq!(
        <Wrapped as IbcChainContext<Wrapped>>::counterparty_message_height(&String::from("at 42")),
        Some(42)
    );
    assert_eq!(
        <Wrapped as IbcChainContext<Wrapped>>::counterparty_message_height(&String::from("hi")),
        None
    );
}

#[test]
fn a_chain_reads_its_status_and_its_events() {
    let status = Status { height: 7, timestamp: 99 };
    assert_eq!(*TextChain::chain_status_height(&status), 7);
    assert_eq!(*TextChain::chain_status_timestamp(&status), 99);
    assert_eq!(
        TextChain::try_extract_write_acknowledgement_event(String::from("ack:1")),
        Some(String::from("1"))
    );
    assert_eq!(TextChain::try_extract_write_acknowledgement_event(String::from("send:1")), None);
}
