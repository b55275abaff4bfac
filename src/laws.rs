//! Laws that concern every defense profile at once.

use vstd::prelude::*;
use crate::front::{front_budgets, pipelined_states, PaddingPlan};
use crate::model::Param;
use crate::regulator::{client_states, relay_states, SendPlan, Split};
use crate::states::unlimited_machine;
use crate::surakav::{bursts_of, read_trace_spec, side_machine};

verus! {

/// Synthesis depends on its inputs alone: nothing else (no clock, no
/// randomness) enters a machine, so two runs on equal inputs give equal
/// machines for every profile.
pub proof fn lemma_synthesis_deterministic(
    front_a: (nat, nat, Seq<PaddingPlan>, Param),
    front_b: (nat, nat, Seq<PaddingPlan>, Param),
    relay_a: (Seq<SendPlan>, Param),
    relay_b: (Seq<SendPlan>, Param),
    client_a: (nat, Option<Split>),
    client_b: (nat, Option<Split>),
    lines_a: Seq<Seq<u8>>,
    lines_b: Seq<Seq<u8>>,
)
    requires
        front_a == front_b,
        relay_a == relay_b,
        client_a == client_b,
        lines_a == lines_b,
    ensures
        front_budgets(pipelined_states(front_a.0, front_a.1, front_a.2, front_a.3)) == front_budgets(
            pipelined_states(front_b.0, front_b.1, front_b.2, front_b.3),
        ),
        unlimited_machine(relay_states(relay_a.0, relay_a.1)) == unlimited_machine(
            relay_states(relay_b.0, relay_b.1),
        ),
        unlimited_machine(client_states(client_a.0, client_a.1)) == unlimited_machine(
            client_states(client_b.0, client_b.1),
        ),
        read_trace_spec(lines_a) == read_trace_spec(lines_b),
        forall|relay: bool|
            read_trace_spec(lines_a) is Ok ==> #[trigger] side_machine(
                bursts_of(read_trace_spec(lines_a)->Ok_0),
                relay,
            ) == side_machine(bursts_of(read_trace_spec(lines_b)->Ok_0), relay),
{
}

} // verus!
