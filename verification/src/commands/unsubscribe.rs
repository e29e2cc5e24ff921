//! UNSUBSCRIBE

use super::subscribe::{
    channel_position, create_subscription_resp, lemma_put_channel, subscribers,
    subscription_wire,
};
use super::{find_bytes, lemma_ids_stay_distinct, without, Outcome, RedisCommand};
use crate::redis::instance::{Instance, State};
use crate::redis::store::{holds, put};
use crate::resp::views;
use vstd::prelude::*;

verus! {

/// UNSUBSCRIBE: takes the connection out of the subscribers of a channel
/// and replies the number of channels that the connection has subscribed
/// to.
pub struct UnsubscribeCommand {
    pub id: Vec<u8>,
    pub channel: Vec<u8>,
    pub num_subscribed_channels: i64,
}

/// What UNSUBSCRIBE gives.
pub open spec fn unsubscribe_outcome(
    before: State,
    id: Seq<u8>,
    channel: Seq<u8>,
    count: i64,
) -> Outcome {
    super::Outcome {
        state: if holds(before.channels, channel) {
            State {
                channels: put(
                    before.channels,
                    channel,
                    without(subscribers(before.channels, channel), id),
                ),
                ..before
            }
        } else {
            before
        },
        reply: Some(subscription_wire("unsubscribe", channel, count)),
    }
}

impl UnsubscribeCommand {
    pub fn new(id: Vec<u8>, channel: Vec<u8>, num_subscribed_channels: i64) -> (c: Self)
        ensures
            c.id == id,
            c.channel == channel,
            c.num_subscribed_channels == num_subscribed_channels,
    {
        UnsubscribeCommand { id, channel, num_subscribed_channels }
    }
}

impl RedisCommand for UnsubscribeCommand {
    open spec fn outcome(&self, before: State, now: u128) -> Outcome {
        unsubscribe_outcome(before, self.id@, self.channel@, self.num_subscribed_channels)
    }

    fn execute(&self, instance: &mut Instance, now: u128) -> (reply: Option<Vec<u8>>) {
        let ghost channels = instance@.channels;
        let ghost ids = subscribers(channels, self.channel@);
        match channel_position(&instance.channel_to_subscribers, self.channel.as_slice()) {
            Some(i) => {
                proof {
                    assert(channels[i as int].1.no_duplicates());
                    lemma_ids_stay_distinct(ids, self.id@);
                    lemma_put_channel(channels, self.channel@, without(ids, self.id@));
                }
                assert(ids == views(instance.channel_to_subscribers[i as int].subscribers@));
                match find_bytes(
                    &instance.channel_to_subscribers[i].subscribers,
                    self.id.as_slice(),
                ) {
                    Some(at) => {
                        proof {
                            assert(ids[at as int] == self.id@);
                            assert(ids.index_of(self.id@) == at);
                        }
                        instance.channel_to_subscribers[i].subscribers.remove(at);
                    },
                    None => {},
                }
                assert(views(instance.channel_to_subscribers[i as int].subscribers@) =~= without(
                    ids,
                    self.id@,
                ));
                assert(instance@.channels =~= channels.update(
                    i as int,
                    (self.channel@, without(ids, self.id@)),
                ));
            },
            None => {},
        }
        Some(create_subscription_resp("unsubscribe", &self.channel, self.num_subscribed_channels))
    }
}

} // verus!
