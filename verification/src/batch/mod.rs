//! Message batches, and the transaction that a run of batches makes.
//!
//! A caller hands in a batch: its messages, and the sender on which it wants
//! the result. Batches that arrive close together are submitted as one
//! transaction, as long as the transaction stays within a message count and
//! an estimated size.

use crate::chain::ChainContext;
use tokio::sync::oneshot;
use vstd::prelude::*;
use vstd::seq_lib::lemma_flatten_concat;

pub mod partition;
pub mod replies;
pub mod worker;

verus! {

/// The error of a caller whose channel to the worker, or back from it, was
/// closed before a result came.
pub struct ChannelClosedError;

/// `tokio::sync::oneshot::Sender`: the sending half of a channel that carries
/// one value. Nothing of its inside is visible here.
#[verifier::external_type_specification]
#[verifier::external_body]
#[verifier::reject_recursive_types(T)]
pub struct ExOneshotSender<T>(oneshot::Sender<T>);

/// What a caller gets for a batch: for each message the list of its events,
/// in the order of the messages, or the error of the submission.
pub type Reply<Event, Error> = Result<Vec<Vec<Event>>, Error>;

/// The sender on which the reply to a batch goes back to its caller.
pub type ReplySender<Event, Error> = oneshot::Sender<Reply<Event, Error>>;

/// The messages of one caller, and the sender on which the caller waits for
/// their events.
#[verifier::reject_recursive_types(Event)]
#[verifier::reject_recursive_types(Error)]
pub struct MessageBatch<Message, Event, Error> {
    pub messages: Vec<Message>,
    pub result_sender: ReplySender<Event, Error>,
}

impl<Message, Event, Error> MessageBatch<Message, Event, Error> {
    pub fn new(
        messages: Vec<Message>,
        result_sender: ReplySender<Event, Error>,
    ) -> (batch: Self)
        ensures
            batch.messages == messages,
            batch.result_sender == result_sender,
    {
        MessageBatch { messages, result_sender }
    }
}

/// The size that counts for a message: the chain's estimate, and 0 where the
/// chain has none.
pub open spec fn message_size<Chain: ChainContext>(message: Chain::Message) -> nat {
    match Chain::message_len_estimate(&message) {
        Some(len) => len as nat,
        None => 0,
    }
}

/// The sizes of the messages, added up.
pub open spec fn estimated_size<Chain: ChainContext>(messages: Seq<Chain::Message>) -> nat
    decreases messages.len(),
{
    if messages.len() == 0 {
        0
    } else {
        estimated_size::<Chain>(messages.drop_last()) + message_size::<Chain>(messages.last())
    }
}

/// The message lists of the batches, in the order of the batches.
pub open spec fn message_groups<Message, Event, Error>(
    batches: Seq<MessageBatch<Message, Event, Error>>,
) -> Seq<Seq<Message>> {
    batches.map_values(|batch: MessageBatch<Message, Event, Error>| batch.messages@)
}

/// The transaction that the batches make: the messages of the first batch,
/// then those of the second, and so on.
pub open spec fn transaction<Message, Event, Error>(
    batches: Seq<MessageBatch<Message, Event, Error>>,
) -> Seq<Message> {
    message_groups(batches).flatten()
}

/// A transaction is within the limits if it has at most `max_message_count`
/// messages and an estimated size of at most `max_tx_size`.
pub open spec fn within_limits<Chain: ChainContext>(
    messages: Seq<Chain::Message>,
    max_message_count: usize,
    max_tx_size: usize,
) -> bool {
    &&& messages.len() <= max_message_count
    &&& estimated_size::<Chain>(messages) <= max_tx_size
}

/// The size of a concatenation is the sum of the sizes.
pub proof fn lemma_estimated_size_concat<Chain: ChainContext>(
    front: Seq<Chain::Message>,
    back: Seq<Chain::Message>,
)
    ensures
        estimated_size::<Chain>(front + back) == estimated_size::<Chain>(front)
            + estimated_size::<Chain>(back),
    decreases back.len(),
{
    if back.len() > 0 {
        assert((front + back).drop_last() =~= front + back.drop_last());
        lemma_estimated_size_concat::<Chain>(front, back.drop_last());
    }
}

/// The transaction of batches put one after the other is the transaction of
/// the first, followed by the transaction of the second.
pub proof fn lemma_transaction_concat<Message, Event, Error>(
    front: Seq<MessageBatch<Message, Event, Error>>,
    back: Seq<MessageBatch<Message, Event, Error>>,
)
    ensures
        transaction(front + back) == transaction(front) + transaction(back),
{
    assert(message_groups(front + back) =~= message_groups(front) + message_groups(back));
    lemma_flatten_concat(message_groups(front), message_groups(back));
}

/// One more batch at the end adds its messages at the end of the transaction.
pub proof fn lemma_transaction_push<Message, Event, Error>(
    batches: Seq<MessageBatch<Message, Event, Error>>,
    batch: MessageBatch<Message, Event, Error>,
)
    ensures
        transaction(batches.push(batch)) == transaction(batches) + batch.messages@,
{
    assert(message_groups(batches.push(batch)) =~= message_groups(batches).push(batch.messages@));
    message_groups(batches).lemma_flatten_push(batch.messages@);
}

/// The estimated size of the messages, as the chain estimates each of them.
/// A message for which the estimate fails counts as 0, so that a failing
/// estimate never stops a batch.
pub fn batch_size<Chain: ChainContext>(messages: &[Chain::Message]) -> (size: u128)
    ensures
        size == estimated_size::<Chain>(messages@),
{
    let count = messages.len();
    let mut size: u128 = 0;
    let mut done: usize = 0;
    while done < count
        invariant
            count == messages@.len(),
            done <= count,
            size == estimated_size::<Chain>(messages@.take(done as int)),
            size <= done * usize::MAX,
        decreases count - done,
    {
        let len = match Chain::estimate_message_len(&messages[done]) {
            Ok(len) => len,
            Err(_) => 0,
        };
        proof {
            assert(messages@.take(done + 1).drop_last() =~= messages@.take(done as int));
            assert((done + 1) * usize::MAX == done * usize::MAX + usize::MAX) by (nonlinear_arith);
            assert((done + 1) * usize::MAX <= usize::MAX * usize::MAX) by (nonlinear_arith)
                requires
                    done + 1 <= usize::MAX,
            ;
            assert(usize::MAX * usize::MAX <= u128::MAX) by (nonlinear_arith)
                requires
                    usize::MAX <= 0xffff_ffff_ffff_ffff,
            ;
        }
        size = size + len as u128;
        done = done + 1;
    }
    proof {
        assert(messages@.take(count as int) =~= messages@);
    }
    size
}

} // verus!
