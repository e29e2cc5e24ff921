//! PUBLISH

use super::subscribe::{channel_position, subscribers};
use super::{ascii, bytes_of, Outcome, RedisCommand};
use crate::redis::instance::{Delivery, Instance, State};
use crate::resp::{
    array_wire, bulk_string_wire, create_array_resp, create_bulk_string_resp, create_len_resp,
    int_wire, views,
};
use vstd::prelude::*;

verus! {

/// PUBLISH: has a message sent to every subscriber of a channel and
/// replies their number.
pub struct PublishCommand {
    pub channel: Vec<u8>,
    pub message: Vec<u8>,
}

/// The frame that a subscriber is sent: `message`, the channel, the
/// message.
pub open spec fn message_wire(channel: Seq<u8>, message: Seq<u8>) -> Seq<u8> {
    array_wire(
        seq![
            bulk_string_wire(ascii("message")),
            bulk_string_wire(channel),
            bulk_string_wire(message),
        ],
    )
}

/// One delivery of `bytes` to each of `ids`, in their order.
pub open spec fn deliveries_to(ids: Seq<Seq<u8>>, bytes: Seq<u8>) -> Seq<(Seq<u8>, Seq<u8>)> {
    Seq::new(ids.len(), |i: int| (ids[i], bytes))
}

/// What PUBLISH gives.
pub open spec fn publish_outcome(before: State, channel: Seq<u8>, message: Seq<u8>) -> Outcome {
    let ids = subscribers(before.channels, channel);
    Outcome {
        state: State {
            outbox: before.outbox + deliveries_to(ids, message_wire(channel, message)),
            ..before
        },
        reply: Some(int_wire(ids.len() as int)),
    }
}

/// Encodes the frame that a subscriber is sent.
pub fn create_message_resp(channel: &Vec<u8>, message: &Vec<u8>) -> (out: Vec<u8>)
    ensures
        out@ == message_wire(channel@, message@),
{
    let mut items: Vec<Vec<u8>> = Vec::new();
    items.push(create_bulk_string_resp(bytes_of("message")));
    items.push(create_bulk_string_resp(channel.clone()));
    items.push(create_bulk_string_resp(message.clone()));
    assert(views(items@) =~= seq![
        bulk_string_wire(ascii("message")),
        bulk_string_wire(channel@),
        bulk_string_wire(message@),
    ]);
    create_array_resp(items)
}

impl PublishCommand {
    pub fn new(channel: Vec<u8>, message: Vec<u8>) -> (c: Self)
        ensures
            c.channel == channel,
            c.message == message,
    {
        PublishCommand { channel, message }
    }
}

impl RedisCommand for PublishCommand {
    open spec fn outcome(&self, before: State, now: u128) -> Outcome {
        publish_outcome(before, self.channel@, self.message@)
    }

    fn execute(&self, instance: &mut Instance, now: u128) -> (reply: Option<Vec<u8>>) {
        let ghost ids = subscribers(instance@.channels, self.channel@);
        let ghost outbox = instance@.outbox;
        match channel_position(&instance.channel_to_subscribers, self.channel.as_slice()) {
            Some(i) => {
                let frame = create_message_resp(&self.channel, &self.message);
                let count = instance.channel_to_subscribers[i].subscribers.len();
                let mut k: usize = 0;
                while k < count
                    invariant
                        k <= count,
                        i < instance.channel_to_subscribers.len(),
                        instance.channel_to_subscribers == old(instance).channel_to_subscribers,
                        count == instance.channel_to_subscribers[i as int].subscribers.len(),
                        ids == views(instance.channel_to_subscribers[i as int].subscribers@),
                        frame@ == message_wire(self.channel@, self.message@),
                        instance.outbox.len() == outbox.len() + k,
                        forall|j: int|
                            0 <= j < outbox.len() ==> (#[trigger] instance.outbox[j].to@,
                                instance.outbox[j].bytes@) == outbox[j],
                        forall|j: int|
                            outbox.len() <= j < instance.outbox.len() ==> (
                            #[trigger] instance.outbox[j].to@, instance.outbox[j].bytes@) == (
                                ids[j - outbox.len()],
                                frame@,
                            ),
                        instance.is_master == old(instance).is_master,
                        instance.cache == old(instance).cache,
                        instance.write_commands == old(instance).write_commands,
                        instance.replica_clients == old(instance).replica_clients,
                        instance.ack_replicas == old(instance).ack_replicas,
                        instance.master_repl_id == old(instance).master_repl_id,
                        instance.master_repl_offset == old(instance).master_repl_offset,
                    decreases count - k,
                {
                    let to = instance.channel_to_subscribers[i].subscribers[k].clone();
                    instance.outbox.push(Delivery { to, bytes: frame.clone() });
                    k = k + 1;
                }
                assert(instance@.outbox =~= outbox + deliveries_to(
                    ids,
                    message_wire(self.channel@, self.message@),
                ));
                Some(create_len_resp(count))
            },
            None => {
                assert(ids =~= Seq::<Seq<u8>>::empty());
                assert(instance@.outbox =~= outbox + deliveries_to(
                    ids,
                    message_wire(self.channel@, self.message@),
                ));
                Some(create_len_resp(0))
            },
        }
    }
}

} // verus!
