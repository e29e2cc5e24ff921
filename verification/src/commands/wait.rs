//! WAIT

use super::{passed, Deadline, Outcome, RedisCommand};
use crate::redis::instance::{Instance, State};
use crate::resp::{create_len_resp, int_wire};
use vstd::prelude::*;

verus! {

/// WAIT: replies the number of followers that have acknowledged the last
/// broadcast, once it has reached the number asked for or the deadline
/// has passed.
pub struct WaitCommand {
    pub num_replicas: usize,
    pub deadline: Deadline,
}

/// The reply of one attempt of WAIT, where the attempt ends the command.
pub open spec fn wait_reply(
    acks: nat,
    num_replicas: usize,
    deadline: Deadline,
    now: u128,
) -> Option<Seq<u8>> {
    if passed(deadline, now) || acks >= num_replicas {
        Some(int_wire(acks as int))
    } else {
        None
    }
}

/// What one attempt of WAIT gives.
pub open spec fn wait_outcome(
    before: State,
    num_replicas: usize,
    deadline: Deadline,
    now: u128,
) -> Outcome {
    Outcome { state: before, reply: wait_reply(before.acks, num_replicas, deadline, now) }
}

impl WaitCommand {
    pub fn new(num_replicas: usize, deadline: Deadline) -> (c: Self)
        ensures
            c.num_replicas == num_replicas,
            c.deadline == deadline,
    {
        WaitCommand { num_replicas, deadline }
    }
}

impl RedisCommand for WaitCommand {
    open spec fn outcome(&self, before: State, now: u128) -> Outcome {
        wait_outcome(before, self.num_replicas, self.deadline, now)
    }

    fn execute(&self, instance: &mut Instance, now: u128) -> (reply: Option<Vec<u8>>) {
        if self.deadline.has_passed(now) || instance.ack_replicas >= self.num_replicas {
            Some(create_len_resp(instance.ack_replicas))
        } else {
            None
        }
    }
}

} // verus!
