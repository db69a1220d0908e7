//! From the ready batches to one submission, and from the result of the
//! submission back to a reply for each batch.

use crate::batch::{
    lemma_transaction_concat, lemma_transaction_push, transaction, ChannelClosedError,
    MessageBatch, Reply, ReplySender,
};
use std::collections::VecDeque;
use vstd::prelude::*;
use vstd::std_specs::convert::FromSpec;
use vstd::std_specs::iter::IteratorSpec;

verus! {

/// Takes up to `count` items from the front of the iterator: `count` of them
/// where it has as many, and all that it has otherwise. The contract speaks
/// of an iterator that keeps the laws of iterators; of another one it only
/// says that it stays such a one.
pub fn take<T, I: Iterator<Item = T>>(it: &mut I, count: usize) -> (res: Vec<T>)
    ensures
        I::obeys_prophetic_iter_laws(final(it)) == I::obeys_prophetic_iter_laws(old(it)),
        I::obeys_prophetic_iter_laws(old(it)) ==> ({
            let items = I::remaining(old(it));
            let taken = if count <= items.len() {
                count as int
            } else {
                items.len() as int
            };
            &&& res@ == items.take(taken)
            &&& I::remaining(final(it)) == items.skip(taken)
        }),
{
    let mut res = Vec::new();
    let ghost items = I::remaining(it);
    let mut taken: usize = 0;
    while taken < count
        invariant
            taken <= count,
            I::obeys_prophetic_iter_laws(it) == I::obeys_prophetic_iter_laws(old(it)),
            items == I::remaining(old(it)),
            I::obeys_prophetic_iter_laws(old(it)) ==> {
                &&& taken <= items.len()
                &&& res@ == items.take(taken as int)
                &&& I::remaining(it) == items.skip(taken as int)
            },
        decreases count - taken,
    {
        match it.next() {
            Some(x) => {
                res.push(x);
                taken = taken + 1;
            },
            None => {
                return res;
            },
        }
    }
    res
}

/// `tokio::sync::oneshot::Sender::send` hands the reply to the receiving half
/// of the channel and uses the sender up. It never waits. Where the receiver
/// is gone already, it gives the reply back as the error; the contract says
/// that, and nothing of when this happens.
#[verifier::external_body]
fn send_reply<Event, Error>(
    sender: ReplySender<Event, Error>,
    reply: Reply<Event, Error>,
) -> (outcome: Result<(), Reply<Event, Error>>)
    ensures
        outcome matches Err(returned) ==> returned == reply,
{
    sender.send(reply)
}

/// What is submitted for a run of batches: the messages of all of them, and
/// for each batch the number of its messages and the sender for its reply.
#[verifier::reject_recursive_types(Event)]
#[verifier::reject_recursive_types(Error)]
pub struct Submission<Message, Event, Error> {
    pub messages: Vec<Message>,
    pub senders: Vec<(usize, ReplySender<Event, Error>)>,
}

/// For each batch the number of its messages and the sender for its reply,
/// in the order of the batches.
pub open spec fn reply_senders<Message, Event, Error>(
    batches: Seq<MessageBatch<Message, Event, Error>>,
) -> Seq<(usize, ReplySender<Event, Error>)> {
    batches.map_values(
        |batch: MessageBatch<Message, Event, Error>| (batch.messages.len(), batch.result_sender),
    )
}

/// The number of messages in the batches before the batch at `index`: the
/// place in the result at which the events of that batch begin.
pub open spec fn event_offset<Sender>(senders: Seq<(usize, Sender)>, index: int) -> nat
    decreases index,
{
    if index <= 0 {
        0
    } else {
        event_offset(senders, index - 1) + senders[index - 1].0 as nat
    }
}

/// The `count` event lists that begin at `offset`, as far as the result has
/// them: fewer, or none, where the result is too short.
pub open spec fn event_slice<Event>(events: Seq<Vec<Event>>, offset: nat, count: nat) -> Seq<
    Vec<Event>,
> {
    let start = if offset <= events.len() {
        offset as int
    } else {
        events.len() as int
    };
    let end = if offset + count <= events.len() {
        (offset + count) as int
    } else {
        events.len() as int
    };
    events.subrange(start, end)
}

/// The reply is the one that is due to a batch of `count` messages whose
/// events begin at `offset`: its own slice of the events where the
/// submission succeeded, and a clone of the error where it failed.
pub open spec fn is_reply_for<Event, Error: Clone>(
    reply: Reply<Event, Error>,
    send_result: Reply<Event, Error>,
    offset: nat,
    count: nat,
) -> bool {
    match send_result {
        Ok(events) => reply matches Ok(slice) && slice@ == event_slice(events@, offset, count),
        Err(error) => reply matches Err(copy) && cloned(error, copy),
    }
}

/// The events of a batch begin where its messages begin in the transaction:
/// at the number of messages in the batches before it.
pub proof fn lemma_event_offset_is_message_offset<Message, Event, Error>(
    batches: Seq<MessageBatch<Message, Event, Error>>,
    index: int,
)
    requires
        0 <= index <= batches.len(),
    ensures
        event_offset(reply_senders(batches), index) == transaction(batches.take(index)).len(),
    decreases index,
{
    if index > 0 {
        lemma_event_offset_is_message_offset(batches, index - 1);
        assert(batches.take(index) =~= batches.take(index - 1).push(batches[index - 1]));
        lemma_transaction_push(batches.take(index - 1), batches[index - 1]);
    }
}

/// The events of a later batch begin no earlier than those of a batch
/// before it end.
pub proof fn lemma_event_offset_grows<Sender>(
    senders: Seq<(usize, Sender)>,
    earlier: int,
    later: int,
)
    requires
        0 <= earlier < later <= senders.len(),
    ensures
        event_offset(senders, earlier) + senders[earlier].0 <= event_offset(senders, later),
    decreases later,
{
    if earlier + 1 < later {
        lemma_event_offset_grows(senders, earlier, later - 1);
    }
}

/// Where the result has one event list for each message of the submission,
/// each batch receives exactly as many event lists as it has messages: those
/// of its own messages, in the order of its messages.
pub proof fn lemma_full_result_gives_each_batch_its_events<Event, Sender>(
    senders: Seq<(usize, Sender)>,
    events: Seq<Vec<Event>>,
    index: int,
)
    requires
        events.len() == event_offset(senders, senders.len() as int),
        0 <= index < senders.len(),
    ensures
        ({
            let offset = event_offset(senders, index);
            let count = senders[index].0 as nat;
            let slice = event_slice(events, offset, count);
            &&& slice.len() == count
            &&& forall|i: int| 0 <= i < count ==> slice[i] == events[offset + i]
        }),
{
    lemma_event_offset_grows(senders, index, senders.len() as int);
}

/// Each caller receives the events of its own messages. Where the result of
/// a submission has one event list for each message, the reply to a batch
/// has one event list for each message of the batch, and its event list at
/// `i` is the one that the result holds for the batch's message at `i`.
pub proof fn lemma_each_batch_receives_the_events_of_its_messages<Message, Event, Error>(
    batches: Seq<MessageBatch<Message, Event, Error>>,
    events: Seq<Vec<Event>>,
    index: int,
)
    requires
        events.len() == transaction(batches).len(),
        0 <= index < batches.len(),
    ensures
        ({
            let senders = reply_senders(batches);
            let messages = batches[index].messages@;
            let first = transaction(batches.take(index)).len();
            let slice = event_slice(
                events,
                event_offset(senders, index),
                senders[index].0 as nat,
            );
            &&& slice.len() == messages.len()
            &&& first + messages.len() <= events.len()
            &&& forall|i: int|
                0 <= i < messages.len() ==> {
                    &&& slice[i] == events[first + i]
                    &&& transaction(batches)[first + i] == messages[i]
                }
        }),
{
    let senders = reply_senders(batches);
    assert(batches.take(batches.len() as int) =~= batches);
    lemma_event_offset_is_message_offset(batches, batches.len() as int);
    lemma_event_offset_is_message_offset(batches, index);
    lemma_full_result_gives_each_batch_its_events(senders, events, index);
    lemma_event_offset_grows(senders, index, senders.len() as int);
    let front = batches.take(index);
    let back = batches.skip(index + 1);
    assert(batches =~= front.push(batches[index]) + back);
    lemma_transaction_push(front, batches[index]);
    lemma_transaction_concat(front.push(batches[index]), back);
}

/// Puts the ready batches together into one submission. The messages keep
/// the order of the batches, and within a batch their own order.
pub fn collect_ready_batches<Message, Event, Error>(
    ready_batches: VecDeque<MessageBatch<Message, Event, Error>>,
) -> (submission: Submission<Message, Event, Error>)
    ensures
        submission.messages@ == transaction(ready_batches@),
        submission.senders@ == reply_senders(ready_batches@),
{
    let ghost all = ready_batches@;
    let mut ready_batches = ready_batches;
    let mut messages: Vec<Message> = Vec::new();
    let mut senders: Vec<(usize, ReplySender<Event, Error>)> = Vec::new();
    let ghost mut done: int = 0;
    loop
        invariant
            0 <= done <= all.len(),
            ready_batches@ == all.skip(done),
            messages@ == transaction(all.take(done)),
            senders@ == reply_senders(all.take(done)),
        ensures
            messages@ == transaction(all),
            senders@ == reply_senders(all),
        decreases ready_batches@.len(),
    {
        match ready_batches.pop_front() {
            Some(batch) => {
                let MessageBatch { messages: mut batch_messages, result_sender } = batch;
                let message_count = batch_messages.len();
                messages.append(&mut batch_messages);
                senders.push((message_count, result_sender));
                proof {
                    assert(all.take(done + 1) =~= all.take(done).push(all[done]));
                    lemma_transaction_push(all.take(done), all[done]);
                    done = done + 1;
                }
            },
            None => {
                proof {
                    assert(all.take(done) =~= all);
                }
                break;
            },
        }
    }
    Submission { messages, senders }
}

/// Gives each batch of a submission its reply.
///
/// Where the submission succeeded, the event lists are dealt out in order:
/// each batch gets as many as it has messages, beginning where the batch
/// before it ended. A result that is too short leaves the later batches with
/// fewer event lists, or with none. Where the submission failed, each batch
/// gets a clone of the error.
pub fn route_events<Event, Error: Clone>(
    senders: Vec<(usize, ReplySender<Event, Error>)>,
    send_result: Reply<Event, Error>,
) -> (replies: Vec<(ReplySender<Event, Error>, Reply<Event, Error>)>)
    ensures
        replies@.len() == senders@.len(),
        forall|i: int|
            0 <= i < senders@.len() ==> {
                &&& (#[trigger] replies@[i]).0 == senders@[i].1
                &&& is_reply_for(
                    replies@[i].1,
                    send_result,
                    event_offset(senders@, i),
                    senders@[i].0 as nat,
                )
            },
{
    let mut replies: Vec<(ReplySender<Event, Error>, Reply<Event, Error>)> = Vec::new();
    match send_result {
        Err(e) => {
            for entry in it: senders
                invariant
                    send_result == Err::<Vec<Vec<Event>>, Error>(e),
                    it.seq() == senders@,
                    replies@.len() == it.index(),
                    forall|i: int|
                        0 <= i < it.index() ==> {
                            &&& (#[trigger] replies@[i]).0 == senders@[i].1
                            &&& is_reply_for(
                                replies@[i].1,
                                send_result,
                                event_offset(senders@, i),
                                senders@[i].0 as nat,
                            )
                        },
            {
                let (_, sender) = entry;
                replies.push((sender, Err(e.clone())));
            }
        },
        Ok(all_events) => {
            let ghost events = all_events@;
            let mut all_events = all_events.into_iter();
            for entry in it: senders
                invariant
                    send_result matches Ok(given) && given@ == events,
                    it.seq() == senders@,
                    replies@.len() == it.index(),
                    all_events.remaining() == events.skip(
                        if event_offset(senders@, it.index()) <= events.len() {
                            event_offset(senders@, it.index()) as int
                        } else {
                            events.len() as int
                        },
                    ),
                    forall|i: int|
                        0 <= i < it.index() ==> {
                            &&& (#[trigger] replies@[i]).0 == senders@[i].1
                            &&& is_reply_for(
                                replies@[i].1,
                                send_result,
                                event_offset(senders@, i),
                                senders@[i].0 as nat,
                            )
                        },
            {
                let (message_count, sender) = entry;
                let ghost offset = event_offset(senders@, it.index());
                let slice = take(&mut all_events, message_count);
                assert(slice@ == event_slice(events, offset, message_count as nat));
                replies.push((sender, Ok(slice)));
            }
        },
    }
    replies
}

/// Sends each reply on its sender, and returns the number of replies that
/// found their receiver still there. A caller that has dropped its receiver
/// has given up on the result; its reply is dropped.
pub fn deliver_replies<Event, Error>(
    replies: Vec<(ReplySender<Event, Error>, Reply<Event, Error>)>,
) -> (delivered: usize)
    ensures
        delivered <= replies@.len(),
{
    let count = replies.len();
    let mut delivered: usize = 0;
    for entry in it: replies
        invariant
            it.seq() == replies@,
            delivered <= it.index(),
            replies@.len() == count,
    {
        let (sender, reply) = entry;
        match send_reply(sender, reply) {
            Ok(()) => {
                delivered = delivered + 1;
            },
            Err(_) => {},
        }
    }
    delivered
}

/// What a caller makes of the end of its wait for a reply.
///
/// The reply that was received is the caller's result as it stands. Where
/// the channel was closed and no reply came, the result is the error that
/// stands for a closed channel.
pub fn received_reply<Event, Error: From<ChannelClosedError>>(
    received: Option<Reply<Event, Error>>,
) -> (result: Reply<Event, Error>)
    ensures
        received matches Some(reply) ==> result == reply,
        received is None ==> result is Err,
        received is None && Error::obeys_from_spec() ==> result == Err::<Vec<Vec<Event>>, Error>(
            Error::from_spec(ChannelClosedError),
        ),
{
    match received {
        Some(reply) => reply,
        None => Err(Error::from(ChannelClosedError)),
    }
}

} // verus!
