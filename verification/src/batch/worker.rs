//! The worker behind a message sink, one turn at a time.
//!
//! The worker owns the batches that wait and the time of its last
//! submission. In each turn it polls the channel on which the batches come
//! in, and decides what is to be done next: to submit, to sleep, or to stop.
//! Whoever runs the worker carries that out and comes back for the next turn.

use crate::batch::partition::{
    lemma_ready_batches_within_limits, lemma_some_batch_is_ready, partition_message_batches,
    ready_count, BatchResult,
};
use crate::batch::replies::{collect_ready_batches, reply_senders, Submission};
use crate::batch::{
    lemma_transaction_concat, lemma_transaction_push, transaction, within_limits, MessageBatch,
};
use crate::chain::ChainContext;
use std::collections::VecDeque;
use tokio::sync::mpsc;
use vstd::prelude::*;

verus! {

/// `tokio::sync::mpsc::Receiver`: the receiving half of a bounded channel.
/// Nothing of its inside is visible here.
#[verifier::external_type_specification]
#[verifier::external_body]
#[verifier::reject_recursive_types(T)]
pub struct ExMpscReceiver<T>(mpsc::Receiver<T>);

/// What a poll of the channel gave.
pub enum Polled<T> {
    /// The next value in the channel.
    Received(T),
    /// The channel is empty for now.
    Empty,
    /// The channel is empty, and every sender of it is gone.
    Disconnected,
}

/// `tokio::sync::mpsc::Receiver::try_recv` takes the next value out of the
/// channel without waiting, or says why there is none. What comes back
/// depends on what the senders have done, so nothing is claimed of it.
#[verifier::external_body]
fn try_receive<T>(receiver: &mut mpsc::Receiver<T>) -> Polled<T> {
    match receiver.try_recv() {
        Ok(value) => Polled::Received(value),
        Err(mpsc::error::TryRecvError::Empty) => Polled::Empty,
        Err(mpsc::error::TryRecvError::Disconnected) => Polled::Disconnected,
    }
}

/// What is to be done after a turn of the worker.
#[verifier::reject_recursive_types(Event)]
#[verifier::reject_recursive_types(Error)]
pub enum Turn<Message, Event, Error> {
    /// Submit the messages, route the result to the senders, and take the
    /// next turn at once.
    Submit(Submission<Message, Event, Error>),
    /// Sleep for the poll interval, then take the next turn.
    Sleep,
    /// Every sink is gone: stop.
    Stop,
}

/// The time that has passed at `now` since `earlier`, and 0 where `earlier`
/// is not before `now`.
pub open spec fn elapsed(now: u128, earlier: u128) -> nat {
    if now >= earlier {
        (now - earlier) as nat
    } else {
        0
    }
}

/// Whether the pending batches are submitted at `now`.
///
/// They are as soon as more batches wait than are ready, so that the ready
/// ones make a full transaction; and where all of them are ready, once
/// `max_delay` has passed since the last submission.
pub open spec fn submits_now<Chain: ChainContext, Event, Error>(
    pending: Seq<MessageBatch<Chain::Message, Event, Error>>,
    max_message_count: usize,
    max_tx_size: usize,
    max_delay: u128,
    last_sent_time: u128,
    now: u128,
) -> bool {
    let ready = ready_count::<Chain, Event, Error>(pending, max_message_count, max_tx_size);
    ready > 0 && (ready < pending.len() || elapsed(now, last_sent_time) >= max_delay)
}

/// Decides what of the pending batches is submitted at `now`.
///
/// The ready batches of the result are those to submit, and the remaining
/// ones are those that go on waiting. Where nothing is submitted, no batch
/// is ready and all remain. Where something is submitted, `last_sent_time`
/// becomes `now`.
pub fn process_message_batches<Chain: ChainContext, Event, Error>(
    max_message_count: usize,
    max_tx_size: usize,
    max_delay: u128,
    last_sent_time: &mut u128,
    now: u128,
    pending_batches: VecDeque<MessageBatch<Chain::Message, Event, Error>>,
) -> (result: BatchResult<Chain::Message, Event, Error>)
    ensures
        ({
            let ready = ready_count::<Chain, Event, Error>(
                pending_batches@,
                max_message_count,
                max_tx_size,
            );
            if submits_now::<Chain, Event, Error>(
                pending_batches@,
                max_message_count,
                max_tx_size,
                max_delay,
                *old(last_sent_time),
                now,
            ) {
                &&& result.ready_batches@ == pending_batches@.take(ready as int)
                &&& result.remaining_batches@ == pending_batches@.skip(ready as int)
                &&& *final(last_sent_time) == now
            } else {
                &&& result.ready_batches@.len() == 0
                &&& result.remaining_batches@ == pending_batches@
                &&& *final(last_sent_time) == *old(last_sent_time)
            }
        }),
{
    let batch_result = partition_message_batches::<Chain, Event, Error>(
        max_message_count,
        max_tx_size,
        pending_batches,
    );
    proof {
        lemma_ready_batches_within_limits::<Chain, Event, Error>(
            pending_batches@,
            max_message_count,
            max_tx_size,
        );
    }
    let time_passed = if now >= *last_sent_time {
        now - *last_sent_time
    } else {
        0
    };
    if batch_result.ready_batches.len() == 0 {
        // Nothing waits.
        batch_result
    } else if batch_result.remaining_batches.len() == 0 && time_passed < max_delay {
        // The transaction is not full and there is time left: all batches go
        // on waiting, so that later ones can join them.
        BatchResult {
            ready_batches: batch_result.remaining_batches,
            remaining_batches: batch_result.ready_batches,
        }
    } else {
        *last_sent_time = now;
        batch_result
    }
}

/// The state of the worker: its limits, the time of its last submission, and
/// the batches that wait, oldest first. Times are counts of nanoseconds on
/// the clock of whoever runs the worker.
#[verifier::reject_recursive_types(Event)]
#[verifier::reject_recursive_types(Error)]
pub struct BatchWorker<Message, Event, Error> {
    pub max_message_count: usize,
    pub max_tx_size: usize,
    pub max_delay: u128,
    pub last_sent_time: u128,
    pub pending_batches: VecDeque<MessageBatch<Message, Event, Error>>,
}

/// `after` and `turn` are what a turn at `now` makes of the worker `before`
/// when the poll gave `polled`.
///
/// A batch that was received joins the queue at its end. Then the batches
/// that are due are taken from the head of the queue and submitted together;
/// where none is due, the worker sleeps. It sleeps as well on an empty
/// channel. When every sink is gone it stops, and drops what still waits.
pub open spec fn is_turn<Chain: ChainContext, Event, Error>(
    before: BatchWorker<Chain::Message, Event, Error>,
    polled: Polled<MessageBatch<Chain::Message, Event, Error>>,
    now: u128,
    after: BatchWorker<Chain::Message, Event, Error>,
    turn: Turn<Chain::Message, Event, Error>,
) -> bool {
    &&& after.max_message_count == before.max_message_count
    &&& after.max_tx_size == before.max_tx_size
    &&& after.max_delay == before.max_delay
    &&& match polled {
        Polled::Received(batch) => {
            let pending = before.pending_batches@.push(batch);
            let ready = ready_count::<Chain, Event, Error>(
                pending,
                before.max_message_count,
                before.max_tx_size,
            );
            if submits_now::<Chain, Event, Error>(
                pending,
                before.max_message_count,
                before.max_tx_size,
                before.max_delay,
                before.last_sent_time,
                now,
            ) {
                &&& turn matches Turn::Submit(submission)
                &&& submission.messages@ == transaction(pending.take(ready as int))
                &&& submission.senders@ == reply_senders(pending.take(ready as int))
                &&& after.pending_batches@ == pending.skip(ready as int)
                &&& after.last_sent_time == now
            } else {
                &&& turn is Sleep
                &&& after.pending_batches@ == pending
                &&& after.last_sent_time == before.last_sent_time
            }
        },
        Polled::Empty => {
            &&& turn is Sleep
            &&& after.pending_batches@ == before.pending_batches@
            &&& after.last_sent_time == before.last_sent_time
        },
        Polled::Disconnected => {
            &&& turn is Stop
            &&& after.pending_batches@.len() == 0
            &&& after.last_sent_time == before.last_sent_time
        },
    }
}

/// The messages that a turn hands over for submission.
pub open spec fn submitted_messages<Message, Event, Error>(
    turn: Turn<Message, Event, Error>,
) -> Seq<Message> {
    match turn {
        Turn::Submit(submission) => submission.messages@,
        _ => Seq::empty(),
    }
}

/// The messages that a poll brought in.
pub open spec fn received_messages<Message, Event, Error>(
    polled: Polled<MessageBatch<Message, Event, Error>>,
) -> Seq<Message> {
    match polled {
        Polled::Received(batch) => batch.messages@,
        _ => Seq::empty(),
    }
}

/// A run of the worker: turn `i` is taken at `times[i]` on what `polls[i]`
/// gave, and leads from `states[i]` to `states[i + 1]`.
pub open spec fn is_run<Chain: ChainContext, Event, Error>(
    states: Seq<BatchWorker<Chain::Message, Event, Error>>,
    polls: Seq<Polled<MessageBatch<Chain::Message, Event, Error>>>,
    times: Seq<u128>,
    turns: Seq<Turn<Chain::Message, Event, Error>>,
) -> bool {
    &&& states.len() == turns.len() + 1
    &&& polls.len() == turns.len()
    &&& times.len() == turns.len()
    &&& forall|i: int|
        0 <= i < turns.len() ==> is_turn::<Chain, Event, Error>(
            states[i],
            polls[i],
            times[i],
            states[i + 1],
            #[trigger] turns[i],
        )
}

/// The messages that the turns hand over for submission, one turn after the
/// other.
pub open spec fn all_submitted<Message, Event, Error>(
    turns: Seq<Turn<Message, Event, Error>>,
) -> Seq<Message>
    decreases turns.len(),
{
    if turns.len() == 0 {
        Seq::empty()
    } else {
        all_submitted(turns.drop_last()) + submitted_messages(turns.last())
    }
}

/// The messages that the polls brought in, one poll after the other.
pub open spec fn all_received<Message, Event, Error>(
    polls: Seq<Polled<MessageBatch<Message, Event, Error>>>,
) -> Seq<Message>
    decreases polls.len(),
{
    if polls.len() == 0 {
        Seq::empty()
    } else {
        all_received(polls.drop_last()) + received_messages(polls.last())
    }
}

/// A turn keeps the order of arrival: what it submits, followed by what
/// still waits after it, is what waited before it followed by what it
/// received.
pub proof fn lemma_turn_keeps_arrival_order<Chain: ChainContext, Event, Error>(
    before: BatchWorker<Chain::Message, Event, Error>,
    polled: Polled<MessageBatch<Chain::Message, Event, Error>>,
    now: u128,
    after: BatchWorker<Chain::Message, Event, Error>,
    turn: Turn<Chain::Message, Event, Error>,
)
    requires
        is_turn::<Chain, Event, Error>(before, polled, now, after, turn),
        !(polled is Disconnected),
    ensures
        submitted_messages(turn) + transaction(after.pending_batches@) == transaction(
            before.pending_batches@,
        ) + received_messages(polled),
{
    match polled {
        Polled::Received(batch) => {
            let pending = before.pending_batches@.push(batch);
            let ready = ready_count::<Chain, Event, Error>(
                pending,
                before.max_message_count,
                before.max_tx_size,
            );
            lemma_transaction_push(before.pending_batches@, batch);
            lemma_ready_batches_within_limits::<Chain, Event, Error>(
                pending,
                before.max_message_count,
                before.max_tx_size,
            );
            if turn is Submit {
                assert(pending =~= pending.take(ready as int) + pending.skip(ready as int));
                lemma_transaction_concat(pending.take(ready as int), pending.skip(ready as int));
            }
        },
        _ => {},
    }
}

/// Batches are submitted in the order in which they arrive. Over a run of
/// the worker that starts with nothing pending, the messages that were
/// submitted, followed by the messages that still wait, are the messages of
/// the batches that were received, batch after batch in the order of their
/// arrival and each batch in its own order.
pub proof fn lemma_run_submits_in_arrival_order<Chain: ChainContext, Event, Error>(
    states: Seq<BatchWorker<Chain::Message, Event, Error>>,
    polls: Seq<Polled<MessageBatch<Chain::Message, Event, Error>>>,
    times: Seq<u128>,
    turns: Seq<Turn<Chain::Message, Event, Error>>,
)
    requires
        is_run::<Chain, Event, Error>(states, polls, times, turns),
        states[0].pending_batches@.len() == 0,
        forall|i: int| 0 <= i < polls.len() ==> !(#[trigger] polls[i] is Disconnected),
    ensures
        all_submitted(turns) + transaction(states.last().pending_batches@) == all_received(polls),
    decreases turns.len(),
{
    if turns.len() > 0 {
        let last = turns.len() - 1;
        let earlier_states = states.drop_last();
        let earlier_polls = polls.drop_last();
        let earlier_times = times.drop_last();
        let earlier_turns = turns.drop_last();
        lemma_run_submits_in_arrival_order::<Chain, Event, Error>(
            earlier_states,
            earlier_polls,
            earlier_times,
            earlier_turns,
        );
        lemma_turn_keeps_arrival_order::<Chain, Event, Error>(
            states[last],
            polls[last],
            times[last],
            states[last + 1],
            turns[last],
        );
        assert(all_submitted(turns) + transaction(states.last().pending_batches@)
            =~= all_submitted(earlier_turns) + (submitted_messages(turns[last]) + transaction(
            states[last + 1].pending_batches@,
        )));
    }
}

/// A batch that arrives late is not held back: when a batch is received and
/// `max_delay` has passed since the last submission, the turn submits.
pub proof fn lemma_arrival_after_the_delay_submits<Chain: ChainContext, Event, Error>(
    before: BatchWorker<Chain::Message, Event, Error>,
    batch: MessageBatch<Chain::Message, Event, Error>,
    now: u128,
    after: BatchWorker<Chain::Message, Event, Error>,
    turn: Turn<Chain::Message, Event, Error>,
)
    requires
        is_turn::<Chain, Event, Error>(before, Polled::Received(batch), now, after, turn),
        elapsed(now, before.last_sent_time) >= before.max_delay,
    ensures
        turn is Submit,
        after.last_sent_time == now,
{
    lemma_some_batch_is_ready::<Chain, Event, Error>(
        before.pending_batches@.push(batch),
        before.max_message_count,
        before.max_tx_size,
    );
}

/// A full transaction does not wait for the delay: when a batch is received
/// and more batches wait than are ready, the turn submits the ready ones.
pub proof fn lemma_full_transaction_is_submitted_at_once<Chain: ChainContext, Event, Error>(
    before: BatchWorker<Chain::Message, Event, Error>,
    batch: MessageBatch<Chain::Message, Event, Error>,
    now: u128,
    after: BatchWorker<Chain::Message, Event, Error>,
    turn: Turn<Chain::Message, Event, Error>,
)
    requires
        is_turn::<Chain, Event, Error>(before, Polled::Received(batch), now, after, turn),
        ready_count::<Chain, Event, Error>(
            before.pending_batches@.push(batch),
            before.max_message_count,
            before.max_tx_size,
        ) <= before.pending_batches@.len(),
    ensures
        turn is Submit,
        after.pending_batches@.len() > 0,
{
    lemma_some_batch_is_ready::<Chain, Event, Error>(
        before.pending_batches@.push(batch),
        before.max_message_count,
        before.max_tx_size,
    );
}

/// No submission is over a limit, but for one: a batch that is over a limit
/// by itself is submitted alone. What a turn submits is within the message
/// count and the size of the worker, or it is a single batch.
pub proof fn lemma_submission_is_within_limits<Chain: ChainContext, Event, Error>(
    before: BatchWorker<Chain::Message, Event, Error>,
    polled: Polled<MessageBatch<Chain::Message, Event, Error>>,
    now: u128,
    after: BatchWorker<Chain::Message, Event, Error>,
    turn: Turn<Chain::Message, Event, Error>,
)
    requires
        is_turn::<Chain, Event, Error>(before, polled, now, after, turn),
    ensures
        turn matches Turn::Submit(submission) ==> {
            ||| within_limits::<Chain>(
                submission.messages@,
                before.max_message_count,
                before.max_tx_size,
            )
            ||| submission.senders@.len() == 1
        },
{
    if let Polled::Received(batch) = polled {
        lemma_ready_batches_within_limits::<Chain, Event, Error>(
            before.pending_batches@.push(batch),
            before.max_message_count,
            before.max_tx_size,
        );
    }
}

impl<Message, Event, Error> BatchWorker<Message, Event, Error> {
    /// A worker that starts at `now` with nothing pending.
    pub fn new(max_message_count: usize, max_tx_size: usize, max_delay: u128, now: u128) -> (worker:
        Self)
        ensures
            worker.max_message_count == max_message_count,
            worker.max_tx_size == max_tx_size,
            worker.max_delay == max_delay,
            worker.last_sent_time == now,
            worker.pending_batches@.len() == 0,
    {
        BatchWorker {
            max_message_count,
            max_tx_size,
            max_delay,
            last_sent_time: now,
            pending_batches: VecDeque::new(),
        }
    }

    /// Takes the turn that follows a poll which gave `polled`.
    pub fn on_polled<Chain>(
        &mut self,
        polled: Polled<MessageBatch<Message, Event, Error>>,
        now: u128,
    ) -> (turn: Turn<Message, Event, Error>) where Chain: ChainContext<Message = Message>
        ensures
            is_turn::<Chain, Event, Error>(*old(self), polled, now, *final(self), turn),
    {
        match polled {
            Polled::Received(batch) => {
                let mut pending_batches = VecDeque::new();
                std::mem::swap(&mut pending_batches, &mut self.pending_batches);
                pending_batches.push_back(batch);
                proof {
                    lemma_ready_batches_within_limits::<Chain, Event, Error>(
                        pending_batches@,
                        self.max_message_count,
                        self.max_tx_size,
                    );
                }
                let batch_result = process_message_batches::<Chain, Event, Error>(
                    self.max_message_count,
                    self.max_tx_size,
                    self.max_delay,
                    &mut self.last_sent_time,
                    now,
                    pending_batches,
                );
                self.pending_batches = batch_result.remaining_batches;
                if batch_result.ready_batches.len() == 0 {
                    Turn::Sleep
                } else {
                    Turn::Submit(collect_ready_batches(batch_result.ready_batches))
                }
            },
            Polled::Empty => Turn::Sleep,
            Polled::Disconnected => {
                self.pending_batches.clear();
                Turn::Stop
            },
        }
    }

    /// Polls the channel and takes the turn that follows.
    pub fn run_turn<Chain>(
        &mut self,
        receiver: &mut mpsc::Receiver<MessageBatch<Message, Event, Error>>,
        now: u128,
    ) -> (turn: Turn<Message, Event, Error>) where Chain: ChainContext<Message = Message>
        ensures
            exists|polled: Polled<MessageBatch<Message, Event, Error>>|
                is_turn::<Chain, Event, Error>(*old(self), polled, now, *final(self), turn),
    {
        let polled = try_receive(receiver);
        self.on_polled::<Chain>(polled, now)
    }
}

} // verus!
