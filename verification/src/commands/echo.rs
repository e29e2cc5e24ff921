//! ECHO

use super::{create_text_resp, text_wire, Outcome, RedisCommand};
use crate::redis::instance::{Instance, State};
use vstd::prelude::*;

verus! {

/// ECHO: replies its argument.
pub struct EchoCommand {
    pub message: Vec<u8>,
}

/// What ECHO gives.
pub open spec fn echo_outcome(before: State, message: Seq<u8>) -> Outcome {
    Outcome { state: before, reply: Some(text_wire(message)) }
}

impl EchoCommand {
    pub fn new(message: Vec<u8>) -> (c: Self)
        ensures
            c.message == message,
    {
        EchoCommand { message }
    }
}

impl RedisCommand for EchoCommand {
    open spec fn outcome(&self, before: State, now: u128) -> Outcome {
        echo_outcome(before, self.message@)
    }

    fn execute(&self, instance: &mut Instance, now: u128) -> (reply: Option<Vec<u8>>) {
        Some(create_text_resp(&self.message))
    }
}

} // verus!
