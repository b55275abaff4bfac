//! The state-machine data model: events, distributions, states and machines.
//!
//! A machine is an index-addressed list of states. Transition targets are
//! positions in that list; the position equal to the list's length is the
//! virtual End state, which is never materialized.

use vstd::prelude::*;

verus! {

/// A numeric parameter of a distribution or a transition probability.
///
/// The synthesis logic never does arithmetic on these values: it places them.
/// Values that the logic knows exactly are held exactly; values derived by
/// numeric curve fitting are held as the bit pattern of the IEEE-754 binary64
/// number that the fitting produced.
#[derive(Clone, Copy, Debug, PartialEq, Eq, Structural)]
pub enum Param {
    /// A non-negative whole number.
    Whole(u64),
    /// Positive infinity.
    Unbounded,
    /// A real number, given by its IEEE-754 binary64 bit pattern.
    Computed(u64),
}

/// Fixed size of a padding cell, in bytes.
pub const CELL_SIZE: u64 = 512;

/// An observable occurrence that may trigger a transition.
#[derive(Clone, Copy, Debug, PartialEq, Eq, Structural)]
pub enum Event {
    NonPaddingRecv,
    PaddingRecv,
    NonPaddingSent,
    PaddingSent,
    BlockingBegin,
    BlockingEnd,
    LimitReached,
}

/// The family of a sampling distribution.
#[derive(Clone, Copy, Debug, PartialEq, Eq, Structural)]
pub enum DistKind {
    Uniform,
    Normal,
}

/// How a runtime value (a delay, a size, a repeat count) is later drawn.
#[derive(Clone, Copy, Debug, PartialEq, Eq, Structural)]
pub struct Dist {
    pub kind: DistKind,
    pub param1: Param,
    pub param2: Param,
    pub start: Param,
    pub max: Param,
}

/// One entry of a state's transition table: on `event`, go to `target` with
/// probability `prob`.
#[derive(Clone, Copy, Debug, PartialEq, Eq, Structural)]
pub struct Edge {
    pub event: Event,
    pub target: usize,
    pub prob: Param,
}

/// One state of a machine. A distribution that is `None` is never sampled.
#[derive(Clone, Debug, PartialEq)]
pub struct State {
    pub edges: Vec<Edge>,
    pub timeout: Option<Dist>,
    pub action: Option<Dist>,
    pub limit: Option<Dist>,
    pub action_is_block: bool,
    pub bypass: bool,
    pub replace: bool,
}

/// The mathematical value of a [`State`].
pub ghost struct StateModel {
    pub edges: Seq<Edge>,
    pub timeout: Option<Dist>,
    pub action: Option<Dist>,
    pub limit: Option<Dist>,
    pub action_is_block: bool,
    pub bypass: bool,
    pub replace: bool,
}

impl View for State {
    type V = StateModel;

    open spec fn view(&self) -> StateModel {
        StateModel {
            edges: self.edges@,
            timeout: self.timeout,
            action: self.action,
            limit: self.limit,
            action_is_block: self.action_is_block,
            bypass: self.bypass,
            replace: self.replace,
        }
    }
}

/// A finished machine: its states and its enforcement budgets.
#[derive(Clone, Debug, PartialEq)]
pub struct Machine {
    pub states: Vec<State>,
    pub allowed_padding_bytes: u64,
    pub max_padding_frac: Param,
    pub allowed_blocked_microsec: u64,
    pub max_blocking_frac: Param,
    pub include_small_packets: bool,
}

/// The mathematical value of a [`Machine`].
pub ghost struct MachineModel {
    pub states: Seq<StateModel>,
    pub allowed_padding_bytes: u64,
    pub max_padding_frac: Param,
    pub allowed_blocked_microsec: u64,
    pub max_blocking_frac: Param,
    pub include_small_packets: bool,
}

impl View for Machine {
    type V = MachineModel;

    open spec fn view(&self) -> MachineModel {
        MachineModel {
            states: self.states@.map_values(|s: State| s@),
            allowed_padding_bytes: self.allowed_padding_bytes,
            max_padding_frac: self.max_padding_frac,
            allowed_blocked_microsec: self.allowed_blocked_microsec,
            max_blocking_frac: self.max_blocking_frac,
            include_small_packets: self.include_small_packets,
        }
    }
}

/// A constant distribution: uniform over `[v, v]`.
pub open spec fn constant_dist(v: Param) -> Dist {
    Dist { kind: DistKind::Uniform, param1: v, param2: v, start: Param::Whole(0), max: Param::Whole(0) }
}

/// A certain transition.
pub open spec fn certain(event: Event, target: usize) -> Edge {
    Edge { event, target, prob: Param::Whole(1) }
}

/// A state's table has targets within `[0, num_states]` (the last being End)
/// and at most one entry for each pair of event and target.
pub open spec fn edges_wf(edges: Seq<Edge>, num_states: nat) -> bool {
    &&& forall|i: int| 0 <= i < edges.len() ==> edges[i].target <= num_states
    &&& forall|i: int, j: int|
        0 <= i < j < edges.len() ==> !(edges[i].event == edges[j].event && edges[i].target
            == edges[j].target)
}

impl MachineModel {
    /// Index of the virtual End state.
    pub open spec fn end(self) -> nat {
        self.states.len()
    }

    /// Every state's transition table is well formed for this machine.
    pub open spec fn wf(self) -> bool {
        &&& self.states.len() >= 1
        &&& forall|i: int| 0 <= i < self.states.len() ==> edges_wf(#[trigger] self.states[i].edges, self.states.len())
    }
}

impl Machine {
    /// Number of concrete states.
    pub fn len(&self) -> (r: usize)
        ensures
            r == self@.states.len(),
    {
        self.states.len()
    }

    /// Index of the virtual End state.
    pub fn end_index(&self) -> (r: usize)
        ensures
            r == self@.end(),
    {
        self.states.len()
    }
}

/// Builds a constant distribution.
pub fn make_constant_dist(v: Param) -> (r: Dist)
    ensures
        r == constant_dist(v),
{
    Dist { kind: DistKind::Uniform, param1: v, param2: v, start: Param::Whole(0), max: Param::Whole(0) }
}

/// Builds a certain transition.
pub fn make_certain(event: Event, target: usize) -> (r: Edge)
    ensures
        r == certain(event, target),
{
    Edge { event, target, prob: Param::Whole(1) }
}

} // verus!
