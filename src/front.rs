//! The FRONT profile and its pipelined variant: padding drawn from a
//! Rayleigh-shaped schedule, approximated by a chain of padding states.
//!
//! The timing of each padding state comes from numeric fitting of the
//! Rayleigh curve, done outside this module and handed in as a
//! [`PaddingPlan`] per state.

use vstd::prelude::*;
use crate::model::{
    certain, constant_dist, edges_wf, make_certain, make_constant_dist, Dist, DistKind, Edge, Event, Machine,
    MachineModel, Param, State, StateModel, CELL_SIZE,
};
use crate::states::start_model;
use vstd::arithmetic::div_mod::lemma_small_mod;

verus! {

/// The fitted parameters of one padding state.
#[derive(Clone, Copy, Debug, PartialEq, Eq, Structural)]
pub struct PaddingPlan {
    /// Mean delay between padding cells.
    pub timeout: Param,
    /// Standard deviation of that delay.
    pub stdev: Param,
    /// Cap on a sampled delay.
    pub timeout_max: Param,
    /// Share of the padding budget allotted to the state: the upper bound of
    /// the number of cells it sends.
    pub limit: Param,
}

/// A padding state at `curr`: sends cells after normally distributed delays,
/// staying in place on each, until its limit is met; then moves to `next`.
pub open spec fn padding_model(curr: usize, next: usize, p: PaddingPlan) -> StateModel {
    StateModel {
        edges: seq![certain(Event::PaddingSent, curr), certain(Event::LimitReached, next)],
        timeout: Some(
            Dist {
                kind: DistKind::Normal,
                param1: p.timeout,
                param2: p.stdev,
                start: Param::Whole(0),
                max: p.timeout_max,
            },
        ),
        action: Some(constant_dist(Param::Whole(CELL_SIZE))),
        limit: Some(
            Dist {
                kind: DistKind::Uniform,
                param1: Param::Whole(1),
                param2: p.limit,
                start: Param::Whole(0),
                max: Param::Whole(0),
            },
        ),
        action_is_block: false,
        bypass: false,
        replace: false,
    }
}

/// Builds a padding state.
pub fn padding_state(curr: usize, next: usize, p: PaddingPlan) -> (r: State)
    ensures
        r@ == padding_model(curr, next, p),
{
    let mut edges: Vec<Edge> = Vec::new();
    edges.push(make_certain(Event::PaddingSent, curr));
    edges.push(make_certain(Event::LimitReached, next));
    let r = State {
        edges,
        timeout: Some(
            Dist {
                kind: DistKind::Normal,
                param1: p.timeout,
                param2: p.stdev,
                start: Param::Whole(0),
                max: p.timeout_max,
            },
        ),
        action: Some(make_constant_dist(Param::Whole(CELL_SIZE))),
        limit: Some(
            Dist {
                kind: DistKind::Uniform,
                param1: Param::Whole(1),
                param2: p.limit,
                start: Param::Whole(0),
                max: Param::Whole(0),
            },
        ),
        action_is_block: false,
        bypass: false,
        replace: false,
    };
    assert(r@.edges =~= padding_model(curr, next, p).edges);
    r
}

/// Entry `j` of the START table of a machine with `per` padding states in
/// each pipeline: sends and receives alternate, the pair `j / 2` leading to
/// the first state of pipeline `j / 2`.
pub open spec fn fan_edge(j: int, per: nat, fan: Param) -> Edge {
    Edge {
        event: if j % 2 == 0 {
            Event::NonPaddingSent
        } else {
            Event::NonPaddingRecv
        },
        target: (1 + (j / 2) * per) as usize,
        prob: fan,
    }
}

/// The START state of a pipelined machine: the first non-padding packet
/// leads to the first state of each pipeline with probability `fan`.
pub open spec fn fan_start_model(per: nat, pipelines: nat, fan: Param) -> StateModel {
    StateModel {
        edges: Seq::new(2 * pipelines, |j: int| fan_edge(j, per, fan)),
        timeout: None,
        action: None,
        limit: None,
        action_is_block: false,
        bypass: false,
        replace: false,
    }
}

/// Builds the START state of a pipelined machine.
pub fn fan_start_state(per: usize, pipelines: usize, fan: Param) -> (r: State)
    requires
        pipelines * per < usize::MAX,
    ensures
        r@ == fan_start_model(per as nat, pipelines as nat, fan),
{
    let mut edges: Vec<Edge> = Vec::new();
    let mut k: usize = 0;
    while k < pipelines
        invariant
            k <= pipelines,
            pipelines * per < usize::MAX,
            edges@.len() == 2 * k,
            forall|j: int| 0 <= j < 2 * k ==> #[trigger] edges@[j] == fan_edge(j, per as nat, fan),
        decreases pipelines - k,
    {
        assert(k * per + per <= pipelines * per) by (nonlinear_arith)
            requires k < pipelines;
        let target = 1 + k * per;
        edges.push(Edge { event: Event::NonPaddingSent, target, prob: fan });
        edges.push(Edge { event: Event::NonPaddingRecv, target, prob: fan });
        assert((2 * k) / 2 == k && (2 * k + 1) / 2 == k);
        k = k + 1;
    }
    let r = State {
        edges,
        timeout: None,
        action: None,
        limit: None,
        action_is_block: false,
        bypass: false,
        replace: false,
    };
    assert(r@.edges =~= fan_start_model(per as nat, pipelines as nat, fan).edges);
    r
}

/// Where the padding state at `idx` leads: the next state of its pipeline,
/// or End after the last one.
pub open spec fn padding_next(idx: int, per: nat, end: nat) -> int {
    if idx % (per as int) == 0 {
        end as int
    } else {
        idx + 1
    }
}

/// The states of a pipelined machine: START, then the `per` padding states
/// of each pipeline in turn, the state at position `i` fitted by `plans[i - 1]`.
pub open spec fn pipelined_states(
    per: nat,
    pipelines: nat,
    plans: Seq<PaddingPlan>,
    fan: Param,
) -> Seq<StateModel> {
    let total = pipelines * per + 1;
    Seq::new(
        total,
        |i: int|
            if i == 0 {
                fan_start_model(per, pipelines, fan)
            } else {
                padding_model(i as usize, padding_next(i, per, total) as usize, plans[i - 1])
            },
    )
}

/// Budgets of a FRONT machine: unlimited padding, no blocking.
pub open spec fn front_budgets(states: Seq<StateModel>) -> MachineModel {
    MachineModel {
        states,
        allowed_padding_bytes: u64::MAX,
        max_padding_frac: Param::Whole(0),
        allowed_blocked_microsec: 0,
        max_blocking_frac: Param::Whole(0),
        include_small_packets: false,
    }
}

/// Why no FRONT machine could be made.
#[derive(Clone, Copy, Debug, PartialEq, Eq, Structural)]
pub enum FrontError {
    /// Zero padding states were asked for.
    NoPaddingStates,
    /// Zero pipelines were asked for.
    NoPipelines,
    /// The plans are not one per padding state of each pipeline.
    PlanLength,
}

/// Builds a pipelined FRONT machine with `pipelines` chains of `per` padding
/// states each; `fan` is the probability of entering each chain.
pub fn pipelined_front_machine(
    per: usize,
    pipelines: usize,
    plans: &Vec<PaddingPlan>,
    fan: Param,
) -> (r: Result<Machine, FrontError>)
    requires
        plans@.len() < usize::MAX,
    ensures
        match r {
            Ok(m) => {
                &&& per > 0 && pipelines > 0
                &&& plans@.len() == pipelines * per
                &&& m@ == front_budgets(pipelined_states(per as nat, pipelines as nat, plans@, fan))
                &&& m@.wf()
            },
            Err(FrontError::NoPaddingStates) => per == 0,
            Err(FrontError::NoPipelines) => per > 0 && pipelines == 0,
            Err(FrontError::PlanLength) => per > 0 && pipelines > 0 && plans@.len() != pipelines
                * per,
        },
{
    if per == 0 {
        return Err(FrontError::NoPaddingStates);
    }
    if pipelines == 0 {
        return Err(FrontError::NoPipelines);
    }
    let count = match pipelines.checked_mul(per) {
        Some(c) => c,
        None => {
            return Err(FrontError::PlanLength);
        },
    };
    if plans.len() != count {
        return Err(FrontError::PlanLength);
    }
    let total = count + 1;
    let ghost spec_states = pipelined_states(per as nat, pipelines as nat, plans@, fan);
    let mut states: Vec<State> = Vec::new();
    states.push(fan_start_state(per, pipelines, fan));
    let mut idx: usize = 1;
    while idx < total
        invariant
            1 <= idx <= total,
            total == pipelines * per + 1,
            per > 0,
            plans@.len() == total - 1,
            spec_states == pipelined_states(per as nat, pipelines as nat, plans@, fan),
            states@.len() == idx,
            forall|i: int| 0 <= i < idx ==> #[trigger] states@[i]@ == spec_states[i],
        decreases total - idx,
    {
        let next = if idx % per == 0 {
            total
        } else {
            idx + 1
        };
        states.push(padding_state(idx, next, plans[idx - 1]));
        idx = idx + 1;
    }
    let m = Machine {
        states,
        allowed_padding_bytes: u64::MAX,
        max_padding_frac: Param::Whole(0),
        allowed_blocked_microsec: 0,
        max_blocking_frac: Param::Whole(0),
        include_small_packets: false,
    };
    assert(m@.states =~= spec_states);
    proof {
        lemma_pipelined_wf(per as nat, pipelines as nat, plans@, fan);
    }
    Ok(m)
}

/// Builds a FRONT machine: START, then one padding state for each plan, in
/// order, the last leading to End.
pub fn front_machine(plans: &Vec<PaddingPlan>) -> (r: Result<Machine, FrontError>)
    requires
        plans@.len() < usize::MAX,
    ensures
        match r {
            Ok(m) => {
                &&& plans@.len() > 0
                &&& m@ == front_budgets(pipelined_states(plans@.len(), 1, plans@, Param::Whole(1)))
                &&& m@.wf()
            },
            Err(e) => e == FrontError::NoPaddingStates && plans@.len() == 0,
        },
{
    pipelined_front_machine(plans.len(), 1, plans, Param::Whole(1))
}

/// Distinct pipelines start at distinct states.
proof fn lemma_pipeline_starts_distinct(k1: int, k2: int, per: int)
    requires
        0 <= k1 < k2,
        per > 0,
    ensures
        k1 * per < k2 * per,
{
    assert(k1 * per < k2 * per) by (nonlinear_arith)
        requires 0 <= k1 < k2, per > 0;
}

/// A pipelined machine is well formed: every START entry leads to the first
/// state of a pipeline, and every padding state stays in place or moves on
/// within the machine or to End.
pub proof fn lemma_pipelined_wf(per: nat, pipelines: nat, plans: Seq<PaddingPlan>, fan: Param)
    requires
        per > 0,
        pipelines > 0,
        plans.len() == pipelines * per,
        pipelines * per + 1 <= usize::MAX,
    ensures
        front_budgets(pipelined_states(per, pipelines, plans, fan)).wf(),
        front_budgets(pipelined_states(per, pipelines, plans, fan)).states.len() == pipelines
            * per + 1,
{
    let states = pipelined_states(per, pipelines, plans, fan);
    let total = pipelines * per + 1;
    let e0 = states[0].edges;
    assert forall|j: int| 0 <= j < e0.len() implies (#[trigger] e0[j]).target <= total by {
        let k = j / 2;
        assert(k < pipelines);
        assert(k * per + per <= pipelines * per) by (nonlinear_arith)
            requires k < pipelines, k >= 0;
    }
    assert forall|i: int, j: int|
        0 <= i < j < e0.len() implies !(e0[i].event == e0[j].event && e0[i].target
        == e0[j].target) by {
        if e0[i].event == e0[j].event {
            assert(i % 2 == j % 2);
            assert(i / 2 < j / 2);
            lemma_pipeline_starts_distinct(i / 2, j / 2, per as int);
            assert((i / 2) * per < pipelines * per) by (nonlinear_arith)
                requires i / 2 < j / 2, j / 2 < pipelines, per > 0;
            assert((j / 2) * per < pipelines * per) by (nonlinear_arith)
                requires j / 2 < pipelines, per > 0;
        }
    }
    assert(edges_wf(e0, total));
    assert forall|i: int| 0 <= i < total implies edges_wf(#[trigger] states[i].edges, total) by {
        if i > 0 {
            assert(padding_next(i, per, total) <= total);
        }
    }
}

/// A FRONT machine with `n` padding states has exactly `n + 1` states: START,
/// which leads to the first padding state, then the padding states in
/// order, state `i` sending up to the budget share `plans[i - 1].limit`
/// before moving to `i + 1`, where the last one reaches End.
pub proof fn lemma_front_shape(plans: Seq<PaddingPlan>)
    requires
        plans.len() > 0,
        plans.len() + 1 < usize::MAX,
    ensures
        ({
            let m = front_budgets(pipelined_states(plans.len(), 1, plans, Param::Whole(1)));
            &&& m.wf()
            &&& m.states.len() == plans.len() + 1
            &&& m.states[0] == start_model(1)
            &&& forall|i: int|
                1 <= i <= plans.len() ==> #[trigger] m.states[i] == padding_model(
                    i as usize,
                    (i + 1) as usize,
                    plans[i - 1],
                )
            &&& forall|i: int|
                1 <= i <= plans.len() ==> (#[trigger] m.states[i]).limit.unwrap().param2
                    == plans[i - 1].limit
        }),
{
    let n = plans.len();
    lemma_pipelined_wf(n, 1, plans, Param::Whole(1));
    let m = front_budgets(pipelined_states(n, 1, plans, Param::Whole(1)));
    assert(1int / 2 == 0 && 0int / 2 == 0 && 0 * (n as int) == 0);
    assert(fan_edge(0, n, Param::Whole(1)) == certain(Event::NonPaddingSent, 1));
    assert(fan_edge(1, n, Param::Whole(1)) == certain(Event::NonPaddingRecv, 1));
    assert(m.states[0].edges =~= start_model(1).edges);
    assert forall|i: int| 1 <= i <= n implies #[trigger] m.states[i] == padding_model(
        i as usize,
        (i + 1) as usize,
        plans[i - 1],
    ) by {
        if i < n {
            lemma_small_mod(i as nat, n);
        }
    }
}

} // verus!
