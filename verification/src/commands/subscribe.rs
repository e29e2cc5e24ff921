//! SUBSCRIBE

use super::{ascii, bytes_of, lemma_ids_stay_distinct, find_bytes, with_id, Outcome, RedisCommand};
use crate::redis::instance::{channels_of, channels_wf, Channel, Instance, State};
use crate::redis::store::{
    distinct_keys, holds, lemma_put_keys, lemma_slot, lookup, put, same_bytes, slot_of,
};
use crate::resp::{
    array_wire, bulk_string_wire, create_array_resp, create_bulk_string_resp, create_int_resp,
    int_wire, views,
};
use vstd::prelude::*;

verus! {

/// SUBSCRIBE: adds the connection to the subscribers of a channel and
/// replies the number of channels that the connection has subscribed to.
pub struct SubscribeCommand {
    pub id: Vec<u8>,
    pub channel: Vec<u8>,
    pub num_subscribed_channels: i64,
}

/// The subscribers of a channel.
pub open spec fn subscribers(channels: Seq<(Seq<u8>, Seq<Seq<u8>>)>, channel: Seq<u8>) -> Seq<
    Seq<u8>,
> {
    match lookup(channels, channel) {
        Some(ids) => ids,
        None => Seq::empty(),
    }
}

/// The reply to SUBSCRIBE and UNSUBSCRIBE: the word, the channel and the
/// number of channels of the connection.
pub open spec fn subscription_wire(word: &str, channel: Seq<u8>, count: i64) -> Seq<u8> {
    array_wire(
        seq![bulk_string_wire(ascii(word)), bulk_string_wire(channel), int_wire(count as int)],
    )
}

/// What SUBSCRIBE gives.
pub open spec fn subscribe_outcome(
    before: State,
    id: Seq<u8>,
    channel: Seq<u8>,
    count: i64,
) -> Outcome {
    Outcome {
        state: State {
            channels: put(
                before.channels,
                channel,
                with_id(subscribers(before.channels, channel), id),
            ),
            ..before
        },
        reply: Some(subscription_wire("subscribe", channel, count)),
    }
}

/// Encodes the reply to SUBSCRIBE and UNSUBSCRIBE.
pub fn create_subscription_resp(word: &str, channel: &Vec<u8>, count: i64) -> (out: Vec<u8>)
    ensures
        out@ == subscription_wire(word, channel@, count),
{
    let mut items: Vec<Vec<u8>> = Vec::new();
    items.push(create_bulk_string_resp(bytes_of(word)));
    items.push(create_bulk_string_resp(channel.clone()));
    items.push(create_int_resp(count));
    assert(views(items@) =~= seq![
        bulk_string_wire(ascii(word)),
        bulk_string_wire(channel@),
        int_wire(count as int),
    ]);
    create_array_resp(items)
}

/// The slot of a channel.
pub fn channel_position(channels: &Vec<Channel>, channel: &[u8]) -> (r: Option<usize>)
    requires
        distinct_keys(channels_of(channels@)),
    ensures
        match r {
            Some(i) => i < channels.len() && channels[i as int].name@ == channel@ && holds(
                channels_of(channels@),
                channel@,
            ) && slot_of(channels_of(channels@), channel@) == i,
            None => !holds(channels_of(channels@), channel@),
        },
{
    let mut i: usize = 0;
    while i < channels.len()
        invariant
            i <= channels.len(),
            distinct_keys(channels_of(channels@)),
            forall|j: int| 0 <= j < i ==> (#[trigger] channels_of(channels@)[j]).0 != channel@,
        decreases channels.len() - i,
    {
        if same_bytes(channels[i].name.as_slice(), channel) {
            proof {
                lemma_slot(channels_of(channels@), i as int);
            }
            return Some(i);
        }
        i = i + 1;
    }
    None
}

/// Writing a list of subscribers that names none twice keeps the
/// invariant of the channels.
pub proof fn lemma_put_channel(
    channels: Seq<(Seq<u8>, Seq<Seq<u8>>)>,
    channel: Seq<u8>,
    ids: Seq<Seq<u8>>,
)
    requires
        channels_wf(channels),
        ids.no_duplicates(),
    ensures
        channels_wf(put(channels, channel, ids)),
{
    lemma_put_keys(channels, channel, ids);
    let p = put(channels, channel, ids);
    assert forall|a: int| 0 <= a < p.len() implies (#[trigger] p[a]).1.no_duplicates() by {
        if holds(channels, channel) {
            if a != slot_of(channels, channel) {
                assert(p[a] == channels[a]);
            }
        } else {
            if a < channels.len() {
                assert(p[a] == channels[a]);
            }
        }
    }
}

impl SubscribeCommand {
    pub fn new(id: Vec<u8>, channel: Vec<u8>, num_subscribed_channels: i64) -> (c: Self)
        ensures
            c.id == id,
            c.channel == channel,
            c.num_subscribed_channels == num_subscribed_channels,
    {
        SubscribeCommand { id, channel, num_subscribed_channels }
    }
}

impl RedisCommand for SubscribeCommand {
    open spec fn outcome(&self, before: State, now: u128) -> Outcome {
        subscribe_outcome(before, self.id@, self.channel@, self.num_subscribed_channels)
    }

    fn execute(&self, instance: &mut Instance, now: u128) -> (reply: Option<Vec<u8>>) {
        let ghost channels = instance@.channels;
        let ghost ids = subscribers(channels, self.channel@);
        match channel_position(&instance.channel_to_subscribers, self.channel.as_slice()) {
            Some(i) => {
                proof {
                    assert(channels[i as int].1.no_duplicates());
                    lemma_ids_stay_distinct(ids, self.id@);
                    lemma_put_channel(channels, self.channel@, with_id(ids, self.id@));
                }
                assert(ids == views(instance.channel_to_subscribers[i as int].subscribers@));
                if find_bytes(
                    &instance.channel_to_subscribers[i].subscribers,
                    self.id.as_slice(),
                ).is_none() {
                    instance.channel_to_subscribers[i].subscribers.push(self.id.clone());
                }
                assert(views(instance.channel_to_subscribers[i as int].subscribers@) =~= with_id(
                    ids,
                    self.id@,
                ));
                assert(instance@.channels =~= channels.update(
                    i as int,
                    (self.channel@, with_id(ids, self.id@)),
                ));
            },
            None => {
                let mut subscribers: Vec<Vec<u8>> = Vec::new();
                subscribers.push(self.id.clone());
                proof {
                    assert(ids =~= Seq::<Seq<u8>>::empty());
                    assert(!ids.contains(self.id@));
                    assert(views(subscribers@) =~= with_id(ids, self.id@));
                    lemma_ids_stay_distinct(ids, self.id@);
                    lemma_put_channel(channels, self.channel@, with_id(ids, self.id@));
                }
                instance.channel_to_subscribers.push(
                    Channel { name: self.channel.clone(), subscribers },
                );
                assert(instance@.channels =~= put(channels, self.channel@, with_id(ids, self.id@)));
            },
        }
        Some(create_subscription_resp("subscribe", &self.channel, self.num_subscribed_channels))
    }
}

} // verus!
