//! PING

use super::{ascii, bytes_of, Outcome, RedisCommand};
use crate::redis::instance::{Instance, State};
use crate::resp::{
    array_wire, bulk_string_wire, create_array_resp, create_bulk_string_resp,
    create_simple_string_resp, simple_string_wire, views,
};
use vstd::prelude::*;

verus! {

/// PING: replies `PONG`, or the pair `pong`, `` to a connection that has
/// subscribed to a channel.
pub struct PingCommand {
    pub is_subscribe_context: bool,
}

/// The reply to PING.
pub open spec fn ping_reply(subscribed: bool) -> Seq<u8> {
    if subscribed {
        array_wire(seq![bulk_string_wire(ascii("pong")), bulk_string_wire(ascii(""))])
    } else {
        simple_string_wire(ascii("PONG"))
    }
}

/// What PING gives.
pub open spec fn ping_outcome(before: State, subscribed: bool) -> Outcome {
    Outcome { state: before, reply: Some(ping_reply(subscribed)) }
}

impl PingCommand {
    pub fn new(is_subscribe_context: bool) -> (c: Self)
        ensures
            c.is_subscribe_context == is_subscribe_context,
    {
        PingCommand { is_subscribe_context }
    }
}

impl RedisCommand for PingCommand {
    open spec fn outcome(&self, before: State, now: u128) -> Outcome {
        ping_outcome(before, self.is_subscribe_context)
    }

    fn execute(&self, instance: &mut Instance, now: u128) -> (reply: Option<Vec<u8>>) {
        if self.is_subscribe_context {
            let mut items: Vec<Vec<u8>> = Vec::new();
            items.push(create_bulk_string_resp(bytes_of("pong")));
            items.push(create_bulk_string_resp(bytes_of("")));
            assert(views(items@) =~= seq![
                bulk_string_wire(ascii("pong")),
                bulk_string_wire(ascii("")),
            ]);
            Some(create_array_resp(items))
        } else {
            Some(create_simple_string_resp(bytes_of("PONG")))
        }
    }
}

} // verus!
