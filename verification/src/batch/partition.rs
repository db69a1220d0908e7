//! How the pending batches are split into those that are submitted next and
//! those that wait.

use crate::batch::{
    batch_size, estimated_size, lemma_estimated_size_concat, lemma_transaction_concat,
    lemma_transaction_push, transaction, within_limits, MessageBatch,
};
use crate::chain::ChainContext;
use std::collections::VecDeque;
use vstd::prelude::*;

verus! {

/// The batches fit into one transaction.
pub open spec fn fits<Chain: ChainContext, Event, Error>(
    batches: Seq<MessageBatch<Chain::Message, Event, Error>>,
    max_message_count: usize,
    max_tx_size: usize,
) -> bool {
    within_limits::<Chain>(transaction(batches), max_message_count, max_tx_size)
}

/// The number of batches in the longest run from the head that fits into one
/// transaction.
pub open spec fn fitting_prefix<Chain: ChainContext, Event, Error>(
    batches: Seq<MessageBatch<Chain::Message, Event, Error>>,
    max_message_count: usize,
    max_tx_size: usize,
) -> nat
    decreases batches.len(),
{
    if batches.len() == 0 {
        0
    } else if fits::<Chain, Event, Error>(batches, max_message_count, max_tx_size) {
        batches.len()
    } else {
        fitting_prefix::<Chain, Event, Error>(batches.drop_last(), max_message_count, max_tx_size)
    }
}

/// The number of batches that are ready: the longest run from the head that
/// fits, and the head alone where not even the head fits.
pub open spec fn ready_count<Chain: ChainContext, Event, Error>(
    batches: Seq<MessageBatch<Chain::Message, Event, Error>>,
    max_message_count: usize,
    max_tx_size: usize,
) -> nat {
    let fitting = fitting_prefix::<Chain, Event, Error>(batches, max_message_count, max_tx_size);
    if batches.len() > 0 && fitting == 0 {
        1
    } else {
        fitting
    }
}

/// The batches that are submitted next, and those that wait.
#[verifier::reject_recursive_types(Event)]
#[verifier::reject_recursive_types(Error)]
pub struct BatchResult<Message, Event, Error> {
    pub ready_batches: VecDeque<MessageBatch<Message, Event, Error>>,
    pub remaining_batches: VecDeque<MessageBatch<Message, Event, Error>>,
}

/// A run from the head that fits keeps fitting when it is cut shorter.
pub proof fn lemma_shorter_prefix_fits<Chain: ChainContext, Event, Error>(
    batches: Seq<MessageBatch<Chain::Message, Event, Error>>,
    max_message_count: usize,
    max_tx_size: usize,
    shorter: int,
    longer: int,
)
    requires
        0 <= shorter <= longer <= batches.len(),
        fits::<Chain, Event, Error>(batches.take(longer), max_message_count, max_tx_size),
    ensures
        fits::<Chain, Event, Error>(batches.take(shorter), max_message_count, max_tx_size),
{
    let front = batches.take(shorter);
    let back = batches.subrange(shorter, longer);
    assert(batches.take(longer) =~= front + back);
    lemma_transaction_concat(front, back);
    lemma_estimated_size_concat::<Chain>(transaction(front), transaction(back));
}

/// The longest fitting run is the one run that fits and cannot take the next
/// batch.
pub proof fn lemma_fitting_prefix_is<Chain: ChainContext, Event, Error>(
    batches: Seq<MessageBatch<Chain::Message, Event, Error>>,
    max_message_count: usize,
    max_tx_size: usize,
    count: int,
)
    requires
        0 <= count <= batches.len(),
        fits::<Chain, Event, Error>(batches.take(count), max_message_count, max_tx_size),
        count < batches.len() ==> !fits::<Chain, Event, Error>(
            batches.take(count + 1),
            max_message_count,
            max_tx_size,
        ),
    ensures
        fitting_prefix::<Chain, Event, Error>(batches, max_message_count, max_tx_size) == count,
    decreases batches.len(),
{
    if batches.len() == 0 {
        // nothing to show: the only run is the empty one
    } else if count == batches.len() {
        assert(batches.take(count) =~= batches);
    } else {
        if fits::<Chain, Event, Error>(batches, max_message_count, max_tx_size) {
            assert(batches.take(batches.len() as int) =~= batches);
            lemma_shorter_prefix_fits::<Chain, Event, Error>(
                batches,
                max_message_count,
                max_tx_size,
                count + 1,
                batches.len() as int,
            );
        }
        let shorter = batches.drop_last();
        assert(shorter.take(count) =~= batches.take(count));
        if count < shorter.len() {
            assert(shorter.take(count + 1) =~= batches.take(count + 1));
        }
        lemma_fitting_prefix_is::<Chain, Event, Error>(
            shorter,
            max_message_count,
            max_tx_size,
            count,
        );
    }
}

/// The longest fitting run fits, and the run that is one batch longer does
/// not.
pub proof fn lemma_fitting_prefix_fits<Chain: ChainContext, Event, Error>(
    batches: Seq<MessageBatch<Chain::Message, Event, Error>>,
    max_message_count: usize,
    max_tx_size: usize,
)
    ensures
        ({
            let fitting = fitting_prefix::<Chain, Event, Error>(
                batches,
                max_message_count,
                max_tx_size,
            );
            &&& fitting <= batches.len()
            &&& fits::<Chain, Event, Error>(
                batches.take(fitting as int),
                max_message_count,
                max_tx_size,
            )
            &&& fitting < batches.len() ==> !fits::<Chain, Event, Error>(
                batches.take((fitting + 1) as int),
                max_message_count,
                max_tx_size,
            )
        }),
    decreases batches.len(),
{
    if batches.len() == 0 {
        // nothing to show: the only run is the empty one
    } else if fits::<Chain, Event, Error>(batches, max_message_count, max_tx_size) {
        assert(batches.take(batches.len() as int) =~= batches);
    } else {
        let shorter = batches.drop_last();
        lemma_fitting_prefix_fits::<Chain, Event, Error>(shorter, max_message_count, max_tx_size);
        let fitting = fitting_prefix::<Chain, Event, Error>(
            shorter,
            max_message_count,
            max_tx_size,
        );
        assert(shorter.take(fitting as int) =~= batches.take(fitting as int));
        if fitting < shorter.len() {
            assert(shorter.take((fitting + 1) as int) =~= batches.take((fitting + 1) as int));
        } else {
            assert(batches.take((fitting + 1) as int) =~= batches);
        }
    }
}

/// No transaction is over a limit, but for one: a batch at the head of the
/// queue that is over a limit by itself is submitted alone.
pub proof fn lemma_ready_batches_within_limits<Chain: ChainContext, Event, Error>(
    batches: Seq<MessageBatch<Chain::Message, Event, Error>>,
    max_message_count: usize,
    max_tx_size: usize,
)
    ensures
        ({
            let ready = ready_count::<Chain, Event, Error>(batches, max_message_count, max_tx_size);
            let head_is_oversized = batches.len() > 0 && !fits::<Chain, Event, Error>(
                batches.take(1),
                max_message_count,
                max_tx_size,
            );
            &&& ready <= batches.len()
            &&& head_is_oversized ==> ready == 1
            &&& !head_is_oversized ==> within_limits::<Chain>(
                transaction(batches.take(ready as int)),
                max_message_count,
                max_tx_size,
            )
        }),
{
    lemma_fitting_prefix_fits::<Chain, Event, Error>(batches, max_message_count, max_tx_size);
    let fitting = fitting_prefix::<Chain, Event, Error>(batches, max_message_count, max_tx_size);
    if batches.len() > 0 && fitting >= 1 {
        lemma_shorter_prefix_fits::<Chain, Event, Error>(
            batches,
            max_message_count,
            max_tx_size,
            1,
            fitting as int,
        );
    }
}

/// As long as batches wait, one of them is ready: the queue cannot get stuck
/// behind a batch that is too large.
pub proof fn lemma_some_batch_is_ready<Chain: ChainContext, Event, Error>(
    batches: Seq<MessageBatch<Chain::Message, Event, Error>>,
    max_message_count: usize,
    max_tx_size: usize,
)
    requires
        batches.len() > 0,
    ensures
        1 <= ready_count::<Chain, Event, Error>(batches, max_message_count, max_tx_size)
            <= batches.len(),
{
    lemma_fitting_prefix_fits::<Chain, Event, Error>(batches, max_message_count, max_tx_size);
}

/// Messages for which the chain has no estimate have the size 0.
pub proof fn lemma_size_without_estimates<Chain: ChainContext>(messages: Seq<Chain::Message>)
    requires
        forall|i: int|
            0 <= i < messages.len() ==> Chain::message_len_estimate(&#[trigger] messages[i])
                is None,
    ensures
        estimated_size::<Chain>(messages) == 0,
    decreases messages.len(),
{
    if messages.len() > 0 {
        lemma_size_without_estimates::<Chain>(messages.drop_last());
    }
}

/// A chain whose estimate fails for every message still has its batches
/// partitioned: every message counts as 0, so the size limit plays no part
/// and the message count alone decides what fits.
pub proof fn lemma_count_alone_decides_without_estimates<Chain: ChainContext, Event, Error>(
    batches: Seq<MessageBatch<Chain::Message, Event, Error>>,
    max_message_count: usize,
    max_tx_size: usize,
)
    requires
        forall|message: Chain::Message| Chain::message_len_estimate(&message) is None,
    ensures
        fits::<Chain, Event, Error>(batches, max_message_count, max_tx_size) <==> transaction(
            batches,
        ).len() <= max_message_count,
        ready_count::<Chain, Event, Error>(batches, max_message_count, max_tx_size)
            == ready_count::<Chain, Event, Error>(batches, max_message_count, 0),
    decreases batches.len(),
{
    lemma_size_without_estimates::<Chain>(transaction(batches));
    if batches.len() > 0 {
        lemma_count_alone_decides_without_estimates::<Chain, Event, Error>(
            batches.drop_last(),
            max_message_count,
            max_tx_size,
        );
        lemma_count_alone_decides_without_estimates::<Chain, Event, Error>(
            batches.drop_last(),
            max_message_count,
            0,
        );
    }
}

/// Splits the batches into the ready ones and the remaining ones.
///
/// The ready batches are the longest run from the head whose transaction is
/// within both limits. Where the head alone is over a limit, the head alone
/// is ready: it is submitted by itself rather than left to block the queue.
/// No batch is split, and the order of the batches stays as it is.
pub fn partition_message_batches<Chain: ChainContext, Event, Error>(
    max_message_count: usize,
    max_tx_size: usize,
    batches: VecDeque<MessageBatch<Chain::Message, Event, Error>>,
) -> (result: BatchResult<Chain::Message, Event, Error>)
    ensures
        result.ready_batches@.len() == ready_count::<Chain, Event, Error>(
            batches@,
            max_message_count,
            max_tx_size,
        ),
        result.ready_batches@ == batches@.take(result.ready_batches@.len() as int),
        result.remaining_batches@ == batches@.skip(result.ready_batches@.len() as int),
{
    let mut batches = batches;
    let ghost all = batches@;
    let count = batches.len();
    let mut total_message_count: usize = 0;
    let mut total_batch_size: usize = 0;
    let mut ready: usize = 0;
    while ready < count
        invariant
            batches@ == all,
            count == all.len(),
            ready <= count,
            total_message_count == transaction(all.take(ready as int)).len(),
            total_batch_size == estimated_size::<Chain>(transaction(all.take(ready as int))),
            total_message_count <= max_message_count,
            total_batch_size <= max_tx_size,
            ready == count ==> ready == fitting_prefix::<Chain, Event, Error>(
                all,
                max_message_count,
                max_tx_size,
            ),
        ensures
            ready == fitting_prefix::<Chain, Event, Error>(all, max_message_count, max_tx_size),
        decreases count - ready,
    {
        let batch = &batches[ready];
        let current_message_count = batch.messages.len();
        let current_batch_size = batch_size::<Chain>(batch.messages.as_slice());
        proof {
            assert(all.take(ready + 1) =~= all.take(ready as int).push(all[ready as int]));
            lemma_transaction_push(all.take(ready as int), all[ready as int]);
            lemma_estimated_size_concat::<Chain>(
                transaction(all.take(ready as int)),
                all[ready as int].messages@,
            );
        }
        if current_message_count > max_message_count - total_message_count || current_batch_size
            > (max_tx_size - total_batch_size) as u128 {
            proof {
                lemma_fitting_prefix_is::<Chain, Event, Error>(
                    all,
                    max_message_count,
                    max_tx_size,
                    ready as int,
                );
            }
            break;
        }
        total_message_count = total_message_count + current_message_count;
        total_batch_size = total_batch_size + current_batch_size as usize;
        ready = ready + 1;
        proof {
            if ready == count {
                lemma_fitting_prefix_is::<Chain, Event, Error>(
                    all,
                    max_message_count,
                    max_tx_size,
                    ready as int,
                );
            }
        }
    }
    if ready == 0 && count > 0 {
        // The head is over a limit by itself: it goes alone.
        ready = 1;
    }
    let remaining_batches = batches.split_off(ready);
    BatchResult { ready_batches: batches, remaining_batches }
}

} // verus!
