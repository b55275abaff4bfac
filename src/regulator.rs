//! The RegulaTor profile: a relay machine that sends at a surging, then
//! decaying, constant rate, and a client machine that sends one cell for
//! every `upload_ratio` cells received.
//!
//! The rates come from numeric fitting of the decay curve, done outside this
//! module: the relay machine is built from one [`SendPlan`] per SEND state,
//! once the fitting has found how many there are.

use vstd::prelude::*;
use crate::model::{
    certain, constant_dist, edges_wf, make_certain, make_constant_dist, Edge, Event, Machine, Param,
    State, StateModel, CELL_SIZE,
};
use crate::states::{block_model, block_state, make_unlimited_machine, unlimited_machine};

verus! {

/// Number of BOOT states, which come after START and BLOCK.
pub const BOOT_STATES: usize = 9;

/// Index of the first SEND state.
pub const FIRST_SEND: usize = 11;

/// Delay of a BOOT state, in microseconds.
pub const BOOT_TIMEOUT: u64 = 100000;

/// The fitted parameters of one SEND state.
#[derive(Clone, Copy, Debug, PartialEq, Eq, Structural)]
pub struct SendPlan {
    /// Delay between cells: the reciprocal of the state's rate.
    pub timeout: Param,
    /// Probability that a non-padding packet sent here restarts the surge.
    pub reset_prob: Param,
}

/// The relay's START state: its first non-padding packet leads to BLOCK.
pub open spec fn relay_start_model() -> StateModel {
    StateModel {
        edges: seq![certain(Event::NonPaddingSent, 1)],
        timeout: None,
        action: None,
        limit: None,
        action_is_block: false,
        bypass: false,
        replace: false,
    }
}

/// A BOOT state at `curr`: pads at a slow constant rate until the next
/// non-padding packet, which leads to `next`.
pub open spec fn boot_model(curr: usize, next: usize) -> StateModel {
    StateModel {
        edges: seq![certain(Event::PaddingSent, curr), certain(Event::NonPaddingSent, next)],
        timeout: Some(constant_dist(Param::Whole(BOOT_TIMEOUT))),
        action: Some(constant_dist(Param::Whole(CELL_SIZE))),
        limit: None,
        action_is_block: false,
        bypass: true,
        replace: true,
    }
}

/// The table of a SEND state at `curr`: it stays in place on each cell,
/// moves to `next` once `limit` cells are sent, and, past the first SEND
/// state, a non-padding packet sent returns to the first one with the
/// plan's reset probability.
pub open spec fn send_edges(curr: usize, next: usize, reset_prob: Param) -> Seq<Edge> {
    let base = seq![certain(Event::PaddingSent, curr), certain(Event::LimitReached, next)];
    if curr > FIRST_SEND {
        base.push(Edge { event: Event::NonPaddingSent, target: FIRST_SEND, prob: reset_prob })
    } else {
        base
    }
}

/// A SEND state at `curr`.
pub open spec fn send_model(curr: usize, next: usize, limit: Param, p: SendPlan) -> StateModel {
    StateModel {
        edges: send_edges(curr, next, p.reset_prob),
        timeout: Some(constant_dist(p.timeout)),
        action: Some(constant_dist(Param::Whole(CELL_SIZE))),
        limit: Some(constant_dist(limit)),
        action_is_block: false,
        bypass: true,
        replace: true,
    }
}

/// The relay's states: START, BLOCK, the BOOT chain, then one SEND state per
/// plan, each leading to the next and the last to End.
pub open spec fn relay_states(sends: Seq<SendPlan>, limit: Param) -> Seq<StateModel> {
    Seq::new(
        sends.len() + FIRST_SEND as nat,
        |i: int|
            if i == 0 {
                relay_start_model()
            } else if i == 1 {
                block_model(2)
            } else if i < FIRST_SEND {
                boot_model(i as usize, (i + 1) as usize)
            } else {
                send_model(i as usize, (i + 1) as usize, limit, sends[i - FIRST_SEND])
            },
    )
}

/// Builds the relay's START state.
pub fn relay_start_state() -> (r: State)
    ensures
        r@ == relay_start_model(),
{
    let mut edges: Vec<Edge> = Vec::new();
    edges.push(make_certain(Event::NonPaddingSent, 1));
    let r = State {
        edges,
        timeout: None,
        action: None,
        limit: None,
        action_is_block: false,
        bypass: false,
        replace: false,
    };
    assert(r@.edges =~= relay_start_model().edges);
    r
}

/// Builds a BOOT state.
pub fn boot_state(curr: usize, next: usize) -> (r: State)
    ensures
        r@ == boot_model(curr, next),
{
    let mut edges: Vec<Edge> = Vec::new();
    edges.push(make_certain(Event::PaddingSent, curr));
    edges.push(make_certain(Event::NonPaddingSent, next));
    let r = State {
        edges,
        timeout: Some(make_constant_dist(Param::Whole(BOOT_TIMEOUT))),
        action: Some(make_constant_dist(Param::Whole(CELL_SIZE))),
        limit: None,
        action_is_block: false,
        bypass: true,
        replace: true,
    };
    assert(r@.edges =~= boot_model(curr, next).edges);
    r
}

/// Builds a SEND state.
pub fn send_state(curr: usize, next: usize, limit: Param, p: SendPlan) -> (r: State)
    ensures
        r@ == send_model(curr, next, limit, p),
{
    let mut edges: Vec<Edge> = Vec::new();
    edges.push(make_certain(Event::PaddingSent, curr));
    edges.push(make_certain(Event::LimitReached, next));
    if curr > FIRST_SEND {
        edges.push(Edge { event: Event::NonPaddingSent, target: FIRST_SEND, prob: p.reset_prob });
    }
    let r = State {
        edges,
        timeout: Some(make_constant_dist(p.timeout)),
        action: Some(make_constant_dist(Param::Whole(CELL_SIZE))),
        limit: Some(make_constant_dist(limit)),
        action_is_block: false,
        bypass: true,
        replace: true,
    };
    assert(r@.edges =~= send_model(curr, next, limit, p).edges);
    r
}

/// Why no relay machine could be made.
#[derive(Clone, Copy, Debug, PartialEq, Eq, Structural)]
pub enum RelayError {
    /// No SEND state was planned.
    NoSendStates,
}

/// Builds the relay machine from the plans of its SEND states, in order;
/// each SEND state ends after `limit` cells.
pub fn relay_machine(sends: &Vec<SendPlan>, limit: Param) -> (r: Result<Machine, RelayError>)
    requires
        sends@.len() < usize::MAX - FIRST_SEND,
    ensures
        match r {
            Ok(m) => {
                &&& sends@.len() > 0
                &&& m@ == unlimited_machine(relay_states(sends@, limit))
                &&& m@.wf()
            },
            Err(e) => e == RelayError::NoSendStates && sends@.len() == 0,
        },
{
    let n = sends.len();
    if n == 0 {
        return Err(RelayError::NoSendStates);
    }
    let ghost spec_states = relay_states(sends@, limit);
    let mut states: Vec<State> = Vec::new();
    states.push(relay_start_state());
    states.push(block_state(2));
    let mut i: usize = 2;
    while i < FIRST_SEND
        invariant
            2 <= i <= FIRST_SEND,
            n == sends@.len(),
            spec_states == relay_states(sends@, limit),
            states@.len() == i,
            forall|j: int| 0 <= j < i ==> #[trigger] states@[j]@ == spec_states[j],
        decreases FIRST_SEND - i,
    {
        states.push(boot_state(i, i + 1));
        i = i + 1;
    }
    let total = n + FIRST_SEND;
    while i < total
        invariant
            FIRST_SEND <= i <= total,
            total == n + FIRST_SEND,
            n == sends@.len(),
            n < usize::MAX - FIRST_SEND,
            spec_states == relay_states(sends@, limit),
            states@.len() == i,
            forall|j: int| 0 <= j < i ==> #[trigger] states@[j]@ == spec_states[j],
        decreases total - i,
    {
        states.push(send_state(i, i + 1, limit, sends[i - FIRST_SEND]));
        i = i + 1;
    }
    let m = make_unlimited_machine(states);
    assert(m@.states =~= spec_states);
    proof {
        lemma_relay_shape(sends@, limit);
    }
    Ok(m)
}

/// How the last COUNTER state splits its step: it moves on with probability
/// `forward` and stays with probability `stay`.
#[derive(Clone, Copy, Debug, PartialEq, Eq, Structural)]
pub struct Split {
    pub forward: Param,
    pub stay: Param,
}

/// The table of the COUNTER state at `i` that leads to `i + 1`.
pub open spec fn counter_edges(i: usize, split: Option<Split>) -> Seq<Edge> {
    match split {
        None => seq![certain(Event::PaddingRecv, (i + 1) as usize), certain(Event::NonPaddingRecv, (i + 1) as usize)],
        Some(sp) => seq![
            Edge { event: Event::PaddingRecv, target: (i + 1) as usize, prob: sp.forward },
            Edge { event: Event::PaddingRecv, target: i, prob: sp.stay },
            Edge { event: Event::NonPaddingRecv, target: (i + 1) as usize, prob: sp.forward },
            Edge { event: Event::NonPaddingRecv, target: i, prob: sp.stay },
            certain(Event::LimitReached, (i + 1) as usize),
        ],
    }
}

/// A COUNTER state at `i`: blocks and counts a received packet, then
/// moves to `i + 1`, or, split, may stay to count another.
pub open spec fn counter_model(i: usize, split: Option<Split>) -> StateModel {
    StateModel {
        edges: counter_edges(i, split),
        timeout: Some(constant_dist(Param::Whole(0))),
        action: Some(constant_dist(Param::Unbounded)),
        limit: Some(constant_dist(Param::Whole(2))),
        action_is_block: true,
        bypass: true,
        replace: true,
    }
}

/// The client's SEND state: sends one cell at once, replacing queued
/// traffic, and returns to the first COUNTER state.
pub open spec fn client_send_model() -> StateModel {
    StateModel {
        edges: seq![certain(Event::PaddingSent, 0)],
        timeout: Some(constant_dist(Param::Whole(0))),
        action: Some(constant_dist(Param::Whole(CELL_SIZE))),
        limit: None,
        action_is_block: false,
        bypass: true,
        replace: true,
    }
}

/// The client's states: `counters` COUNTER states, the last one split when
/// `split` is given, then the SEND state.
pub open spec fn client_states(counters: nat, split: Option<Split>) -> Seq<StateModel> {
    Seq::new(
        counters + 1,
        |i: int|
            if i == counters {
                client_send_model()
            } else if i + 1 == counters {
                counter_model(i as usize, split)
            } else {
                counter_model(i as usize, None)
            },
    )
}

/// Builds a COUNTER state.
pub fn counter_state(i: usize, split: Option<Split>) -> (r: State)
    requires
        i < usize::MAX,
    ensures
        r@ == counter_model(i, split),
{
    let mut edges: Vec<Edge> = Vec::new();
    match split {
        None => {
            edges.push(make_certain(Event::PaddingRecv, i + 1));
            edges.push(make_certain(Event::NonPaddingRecv, i + 1));
        },
        Some(sp) => {
            edges.push(Edge { event: Event::PaddingRecv, target: i + 1, prob: sp.forward });
            edges.push(Edge { event: Event::PaddingRecv, target: i, prob: sp.stay });
            edges.push(Edge { event: Event::NonPaddingRecv, target: i + 1, prob: sp.forward });
            edges.push(Edge { event: Event::NonPaddingRecv, target: i, prob: sp.stay });
            edges.push(make_certain(Event::LimitReached, i + 1));
        },
    }
    let r = State {
        edges,
        timeout: Some(make_constant_dist(Param::Whole(0))),
        action: Some(make_constant_dist(Param::Unbounded)),
        limit: Some(make_constant_dist(Param::Whole(2))),
        action_is_block: true,
        bypass: true,
        replace: true,
    };
    assert(r@.edges =~= counter_model(i, split).edges);
    r
}

/// Builds the client's SEND state.
pub fn client_send_state() -> (r: State)
    ensures
        r@ == client_send_model(),
{
    let mut edges: Vec<Edge> = Vec::new();
    edges.push(make_certain(Event::PaddingSent, 0));
    let r = State {
        edges,
        timeout: Some(make_constant_dist(Param::Whole(0))),
        action: Some(make_constant_dist(Param::Whole(CELL_SIZE))),
        limit: None,
        action_is_block: false,
        bypass: true,
        replace: true,
    };
    assert(r@.edges =~= client_send_model().edges);
    r
}

/// Builds the client machine: `counters` is the whole part of the upload
/// ratio; `split` is given when its fractional part is felt, and then says
/// how the last COUNTER state moves on.
pub fn client_machine(counters: usize, split: Option<Split>) -> (r: Machine)
    requires
        counters < usize::MAX,
    ensures
        r@ == unlimited_machine(client_states(counters as nat, split)),
        r@.wf(),
{
    let ghost spec_states = client_states(counters as nat, split);
    let mut states: Vec<State> = Vec::new();
    let mut i: usize = 0;
    while i < counters
        invariant
            i <= counters < usize::MAX,
            spec_states == client_states(counters as nat, split),
            states@.len() == i,
            forall|j: int| 0 <= j < i ==> #[trigger] states@[j]@ == spec_states[j],
        decreases counters - i,
    {
        let s = if i + 1 == counters {
            counter_state(i, split)
        } else {
            counter_state(i, None)
        };
        states.push(s);
        i = i + 1;
    }
    states.push(client_send_state());
    let m = make_unlimited_machine(states);
    assert(m@.states =~= spec_states);
    proof {
        lemma_client_shape(counters as nat, split);
    }
    m
}

/// The relay machine is well formed and has one state for each SEND plan
/// beyond its START, BLOCK and BOOT states. Only SEND states past the first
/// may restart the surge, and the last SEND state leads to End.
pub proof fn lemma_relay_shape(sends: Seq<SendPlan>, limit: Param)
    requires
        0 < sends.len() < usize::MAX - FIRST_SEND,
    ensures
        ({
            let m = unlimited_machine(relay_states(sends, limit));
            &&& m.wf()
            &&& m.states.len() == sends.len() + FIRST_SEND
            &&& m.states[FIRST_SEND as int].edges.len() == 2
            &&& forall|i: int|
                FIRST_SEND < i < m.states.len() ==> (#[trigger] m.states[i].edges).last() == (Edge {
                    event: Event::NonPaddingSent,
                    target: FIRST_SEND,
                    prob: sends[i - FIRST_SEND].reset_prob,
                })
            &&& m.states.last().edges[1] == certain(Event::LimitReached, m.end() as usize)
        }),
{
    let states = relay_states(sends, limit);
    let total = sends.len() + FIRST_SEND as nat;
    assert forall|i: int| 0 <= i < total implies edges_wf(#[trigger] states[i].edges, total) by {
        if i >= FIRST_SEND {
            let e = states[i].edges;
            assert(e[1].target == i + 1);
        }
    }
    let m = unlimited_machine(states);
    assert(m.wf());
}

/// The client machine is well formed and has `counters` COUNTER states then
/// its SEND state. Each COUNTER state but the last moves on with certainty;
/// the last, when split, moves on with the split's forward probability.
pub proof fn lemma_client_shape(counters: nat, split: Option<Split>)
    requires
        counters < usize::MAX,
    ensures
        ({
            let m = unlimited_machine(client_states(counters, split));
            &&& m.wf()
            &&& m.states.len() == counters + 1
            &&& m.states[counters as int] == client_send_model()
            &&& forall|i: int|
                0 <= i < counters - 1 ==> (#[trigger] m.states[i]).edges == seq![
                    certain(Event::PaddingRecv, (i + 1) as usize),
                    certain(Event::NonPaddingRecv, (i + 1) as usize),
                ]
            &&& counters > 0 && split is Some ==> m.states[counters - 1].edges[0] == (Edge {
                event: Event::PaddingRecv,
                target: counters as usize,
                prob: split->0.forward,
            })
        }),
{
    let states = client_states(counters, split);
    assert forall|i: int| 0 <= i <= counters implies edges_wf(
        #[trigger] states[i].edges,
        counters + 1,
    ) by {
        if i < counters {
            let e = states[i].edges;
            assert(e[0].target == i + 1);
        }
    }
    let m = unlimited_machine(states);
    assert(m.wf());
}

} // verus!
