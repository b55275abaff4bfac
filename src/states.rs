//! State builders shared by several defense profiles.

use vstd::prelude::*;
use crate::model::{
    certain, constant_dist, make_certain, make_constant_dist, Edge, Event, Machine, MachineModel, Param,
    State, StateModel,
};

verus! {

/// A state with an empty table, no distributions and no flags set.
pub open spec fn bare_state(edges: Seq<Edge>) -> StateModel {
    StateModel {
        edges,
        timeout: None,
        action: None,
        limit: None,
        action_is_block: false,
        bypass: false,
        replace: false,
    }
}

/// The START state: the first non-padding packet, sent or received, moves
/// the machine to `next`.
pub open spec fn start_model(next: usize) -> StateModel {
    bare_state(seq![certain(Event::NonPaddingSent, next), certain(Event::NonPaddingRecv, next)])
}

/// The BLOCK state: blocks outgoing traffic indefinitely as soon as it is
/// entered, and moves to `next` once the blocking has begun.
pub open spec fn block_model(next: usize) -> StateModel {
    StateModel {
        edges: seq![certain(Event::BlockingBegin, next)],
        timeout: Some(constant_dist(Param::Whole(0))),
        action: Some(constant_dist(Param::Unbounded)),
        limit: None,
        action_is_block: true,
        bypass: true,
        replace: true,
    }
}

/// Budgets of a machine that may pad and block without limit.
pub open spec fn unlimited_machine(states: Seq<StateModel>) -> MachineModel {
    MachineModel {
        states,
        allowed_padding_bytes: u64::MAX,
        max_padding_frac: Param::Whole(0),
        allowed_blocked_microsec: u64::MAX,
        max_blocking_frac: Param::Whole(0),
        include_small_packets: false,
    }
}

/// Builds the START state.
pub fn start_state(next: usize) -> (r: State)
    ensures
        r@ == start_model(next),
{
    let mut edges: Vec<Edge> = Vec::new();
    edges.push(make_certain(Event::NonPaddingSent, next));
    edges.push(make_certain(Event::NonPaddingRecv, next));
    let r = State {
        edges,
        timeout: None,
        action: None,
        limit: None,
        action_is_block: false,
        bypass: false,
        replace: false,
    };
    assert(r@.edges =~= start_model(next).edges);
    r
}

/// Builds the BLOCK state.
pub fn block_state(next: usize) -> (r: State)
    ensures
        r@ == block_model(next),
{
    let mut edges: Vec<Edge> = Vec::new();
    edges.push(make_certain(Event::BlockingBegin, next));
    let r = State {
        edges,
        timeout: Some(make_constant_dist(Param::Whole(0))),
        action: Some(make_constant_dist(Param::Unbounded)),
        limit: None,
        action_is_block: true,
        bypass: true,
        replace: true,
    };
    assert(r@.edges =~= block_model(next).edges);
    r
}

/// Wraps a list of states with unlimited budgets.
pub fn make_unlimited_machine(states: Vec<State>) -> (r: Machine)
    ensures
        r@ == unlimited_machine(states@.map_values(|s: State| s@)),
{
    Machine {
        states,
        allowed_padding_bytes: u64::MAX,
        max_padding_frac: Param::Whole(0),
        allowed_blocked_microsec: u64::MAX,
        max_blocking_frac: Param::Whole(0),
        include_small_packets: false,
    }
}

} // verus!
