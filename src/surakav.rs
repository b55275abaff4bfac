//! The Surakav profile: a pair of machines replaying the bursts of a
//! reference trace, one for each side of the connection.
//!
//! A trace is a sequence of lines, each a non-negative decimal integer: a
//! burst of that many cells, or `0`, which hands the sending role to the
//! other side without a burst.

use vstd::prelude::*;
use crate::model::{
    certain, constant_dist, edges_wf, make_certain, make_constant_dist, Edge, Event, Machine, MachineModel,
    Param, State, StateModel, CELL_SIZE,
};
use crate::states::{
    block_model, block_state, make_unlimited_machine, start_model, start_state,
    unlimited_machine,
};

verus! {

/// Reading a trace stops once this many non-zero bursts have been read.
pub const CUTOFF_LENGTH: usize = 8000;

/// An ASCII decimal digit.
pub open spec fn is_digit(b: u8) -> bool {
    48 <= b <= 57
}

/// The value of a string of decimal digits.
pub open spec fn decimal_value(s: Seq<u8>) -> nat
    decreases s.len(),
{
    if s.len() == 0 {
        0
    } else {
        decimal_value(s.drop_last()) * 10 + (s.last() - 48) as nat
    }
}

/// The text of a count without its optional leading `+`.
pub open spec fn unsigned_part(line: Seq<u8>) -> Seq<u8> {
    if line.len() > 0 && line[0] == 43 {
        line.subrange(1, line.len() as int)
    } else {
        line
    }
}

/// A line read as a 32-bit count: an optional `+`, then one or more decimal
/// digits whose value fits in 32 bits.
pub open spec fn parse_count(line: Seq<u8>) -> Option<u32> {
    let d = unsigned_part(line);
    if d.len() > 0 && (forall|i: int| 0 <= i < d.len() ==> is_digit(#[trigger] d[i]))
        && decimal_value(d) <= u32::MAX {
        Some(decimal_value(d) as u32)
    } else {
        None
    }
}

/// Reads a line as a 32-bit count.
pub fn parse_line(line: &Vec<u8>) -> (r: Option<u32>)
    ensures
        r == parse_count(line@),
{
    let n = line.len();
    let mut i: usize = 0;
    if n > 0 && line[0] == 43u8 {
        i = 1;
    }
    let first = i;
    let ghost d = unsigned_part(line@);
    assert(n > 0 && line@[0] == 43 ==> first == 1);
    assert(d =~= line@.subrange(first as int, n as int));
    if first == n {
        assert(d.len() == 0);
        return None;
    }
    let mut v: u64 = 0;
    let limit: u64 = 0x1_0000_0000;
    while i < n
        invariant
            first <= i <= n,
            n == line@.len(),
            d == line@.subrange(first as int, n as int),
            d == unsigned_part(line@),
            forall|k: int| 0 <= k < i - first ==> is_digit(#[trigger] d[k]),
            v == if decimal_value(d.subrange(0, i - first)) < limit {
                decimal_value(d.subrange(0, i - first))
            } else {
                limit as nat
            },
            limit == u32::MAX + 1,
        decreases n - i,
    {
        let b = line[i];
        if !(48u8 <= b && b <= 57u8) {
            assert(!is_digit(d[i - first]));
            return None;
        }
        let ghost prev = d.subrange(0, i - first);
        let ghost next = d.subrange(0, i + 1 - first);
        assert(next.drop_last() =~= prev);
        assert(decimal_value(next) == decimal_value(prev) * 10 + (b - 48) as nat);
        if v < limit {
            let w = v * 10 + (b - 48) as u64;
            v = if w < limit { w } else { limit };
        } else {
            assert(decimal_value(prev) * 10 >= limit) by (nonlinear_arith)
                requires decimal_value(prev) >= limit;
        }
        i = i + 1;
    }
    assert(d.subrange(0, n - first) =~= d);
    if v < limit {
        Some(v as u32)
    } else {
        None
    }
}

/// What reading lines `i..` yields, with `count` non-zero bursts read before
/// them: the counts read, or the index of the first line that is not a
/// count. Reading stops at the end of the lines or once the cutoff is met.
pub open spec fn read_from(lines: Seq<Seq<u8>>, i: nat, count: nat) -> Result<Seq<u32>, nat>
    decreases lines.len() - i,
{
    if i >= lines.len() || count >= CUTOFF_LENGTH {
        Ok(Seq::empty())
    } else {
        match parse_count(lines[i as int]) {
            None => Err(i),
            Some(v) => match read_from(lines, i + 1, if v == 0 { count } else { count + 1 }) {
                Ok(rest) => Ok(seq![v] + rest),
                Err(e) => Err(e),
            },
        }
    }
}

/// The counts of a whole trace, read from its first line.
pub open spec fn read_trace_spec(lines: Seq<Seq<u8>>) -> Result<Seq<u32>, nat> {
    read_from(lines, 0, 0)
}

/// A result with `p` put in front of what it holds.
pub open spec fn after(p: Seq<u32>, r: Result<Seq<u32>, nat>) -> Result<Seq<u32>, nat> {
    match r {
        Ok(rest) => Ok(p + rest),
        Err(e) => Err(e),
    }
}

/// The lines of a trace as byte strings.
pub open spec fn line_views(lines: Seq<Vec<u8>>) -> Seq<Seq<u8>> {
    lines.map_values(|l: Vec<u8>| l@)
}

/// A line of a trace that is not a count.
#[derive(Clone, Copy, Debug, PartialEq, Eq, Structural)]
pub struct TraceError {
    /// Zero-based index of the offending line.
    pub line: usize,
}

/// Reads the counts of a trace, stopping after the cutoff number of non-zero
/// bursts.
pub fn read_trace(lines: &Vec<Vec<u8>>) -> (r: Result<Vec<u32>, TraceError>)
    ensures
        match (r, read_trace_spec(line_views(lines@))) {
            (Ok(v), Ok(s)) => v@ == s,
            (Err(e), Err(i)) => e.line == i,
            _ => false,
        },
{
    let ghost ls = line_views(lines@);
    let mut out: Vec<u32> = Vec::new();
    let mut count: usize = 0;
    let mut i: usize = 0;
    while i < lines.len() && count < CUTOFF_LENGTH
        invariant
            ls == line_views(lines@),
            i <= lines@.len(),
            count <= CUTOFF_LENGTH,
            read_trace_spec(ls) == after(out@, read_from(ls, i as nat, count as nat)),
        decreases lines@.len() - i,
    {
        let parsed = parse_line(&lines[i]);
        assert(ls[i as int] == lines@[i as int]@);
        match parsed {
            None => {
                return Err(TraceError { line: i });
            },
            Some(v) => {
                let ghost old_out = out@;
                out.push(v);
                let ghost rest = read_from(ls, (i + 1) as nat, if v == 0 { count as nat } else { count as nat + 1 });
                proof {
                    if let Ok(t) = rest {
                        assert(old_out + (seq![v] + t) =~= out@ + t);
                    }
                }
                if v != 0 {
                    count = count + 1;
                }
                i = i + 1;
            },
        }
    }
    assert(out@ + Seq::<u32>::empty() =~= out@);
    Ok(out)
}

/// One burst of a trace: its size in cells and the side that sends it.
#[derive(Clone, Copy, Debug, PartialEq, Eq, Structural)]
pub struct Burst {
    pub cells: u32,
    pub relay_sends: bool,
}

/// The bursts of a trace, in order.
///
/// The client holds the sending role first. Every line hands the role to the
/// other side: a zero does only that, while a non-zero line is first sent, as
/// a burst, by the side holding the role. So the line at position `j` is sent
/// by the relay exactly when `j` is odd.
pub open spec fn bursts_of(trace: Seq<u32>) -> Seq<Burst>
    decreases trace.len(),
{
    if trace.len() == 0 {
        Seq::empty()
    } else {
        let prev = bursts_of(trace.drop_last());
        let j = trace.len() - 1;
        if trace[j] == 0 {
            prev
        } else {
            prev.push(Burst { cells: trace[j], relay_sends: j % 2 == 1 })
        }
    }
}

/// There are no more bursts than lines.
pub proof fn lemma_bursts_len(trace: Seq<u32>)
    ensures
        bursts_of(trace).len() <= trace.len(),
    decreases trace.len(),
{
    if trace.len() > 0 {
        lemma_bursts_len(trace.drop_last());
    }
}

/// Lists the bursts of a trace.
pub fn trace_bursts(trace: &Vec<u32>) -> (r: Vec<Burst>)
    ensures
        r@ == bursts_of(trace@),
{
    let mut out: Vec<Burst> = Vec::new();
    let mut relay_sending = false;
    let mut j: usize = 0;
    while j < trace.len()
        invariant
            j <= trace@.len(),
            out@ == bursts_of(trace@.subrange(0, j as int)),
            relay_sending == (j % 2 == 1),
        decreases trace@.len() - j,
    {
        let ghost pre = trace@.subrange(0, j as int);
        let ghost post = trace@.subrange(0, j + 1);
        assert(post.drop_last() =~= pre);
        if trace[j] != 0 {
            out.push(Burst { cells: trace[j], relay_sends: relay_sending });
        }
        relay_sending = !relay_sending;
        j = j + 1;
    }
    assert(trace@.subrange(0, j as int) =~= trace@);
    out
}

/// The state in which a side sends a burst of `cells` padding cells, one
/// every few microseconds, before moving to `next`.
pub open spec fn send_model(curr: usize, next: usize, cells: u32) -> StateModel {
    StateModel {
        edges: seq![certain(Event::LimitReached, next), certain(Event::PaddingSent, curr)],
        timeout: Some(constant_dist(Param::Whole(5))),
        action: Some(constant_dist(Param::Whole(CELL_SIZE))),
        limit: Some(constant_dist(Param::Whole(cells as u64))),
        action_is_block: false,
        bypass: true,
        replace: true,
    }
}

/// The state in which a side blocks while it receives a burst of `cells`
/// cells, before moving to `next`.
pub open spec fn recv_model(curr: usize, next: usize, cells: u32) -> StateModel {
    StateModel {
        edges: seq![
            certain(Event::LimitReached, next),
            certain(Event::NonPaddingRecv, curr),
            certain(Event::PaddingRecv, curr),
        ],
        timeout: Some(constant_dist(Param::Whole(0))),
        action: Some(constant_dist(Param::Unbounded)),
        limit: Some(constant_dist(Param::Whole(cells as u64))),
        action_is_block: true,
        bypass: true,
        replace: true,
    }
}

/// Builds the sending and the receiving state of one burst.
pub fn burst_states(cells: u32, curr: usize, next: usize) -> (r: (State, State))
    ensures
        r.0@ == send_model(curr, next, cells),
        r.1@ == recv_model(curr, next, cells),
{
    let mut send_edges: Vec<Edge> = Vec::new();
    send_edges.push(make_certain(Event::LimitReached, next));
    send_edges.push(make_certain(Event::PaddingSent, curr));
    let mut recv_edges: Vec<Edge> = Vec::new();
    recv_edges.push(make_certain(Event::LimitReached, next));
    recv_edges.push(make_certain(Event::NonPaddingRecv, curr));
    recv_edges.push(make_certain(Event::PaddingRecv, curr));
    let limit = make_constant_dist(Param::Whole(cells as u64));
    let send = State {
        edges: send_edges,
        timeout: Some(make_constant_dist(Param::Whole(5))),
        action: Some(make_constant_dist(Param::Whole(CELL_SIZE))),
        limit: Some(limit),
        action_is_block: false,
        bypass: true,
        replace: true,
    };
    let recv = State {
        edges: recv_edges,
        timeout: Some(make_constant_dist(Param::Whole(0))),
        action: Some(make_constant_dist(Param::Unbounded)),
        limit: Some(limit),
        action_is_block: true,
        bypass: true,
        replace: true,
    };
    assert(send@.edges =~= send_model(curr, next, cells).edges);
    assert(recv@.edges =~= recv_model(curr, next, cells).edges);
    (send, recv)
}

/// The states of one side's machine: START, BLOCK, then one state for each
/// burst, sending the bursts that this side sends and blocking through the
/// others. The last burst state moves to End.
pub open spec fn side_states(bursts: Seq<Burst>, relay: bool) -> Seq<StateModel> {
    Seq::new(
        bursts.len() + 2,
        |i: int|
            if i == 0 {
                start_model(1)
            } else if i == 1 {
                block_model(2)
            } else if bursts[i - 2].relay_sends == relay {
                send_model(i as usize, (i + 1) as usize, bursts[i - 2].cells)
            } else {
                recv_model(i as usize, (i + 1) as usize, bursts[i - 2].cells)
            },
    )
}

/// The machine of one side.
pub open spec fn side_machine(bursts: Seq<Burst>, relay: bool) -> MachineModel {
    unlimited_machine(side_states(bursts, relay))
}

/// The two machines of the Surakav profile.
#[derive(Clone, Debug, PartialEq)]
pub struct SurakavMachines {
    pub relay: Machine,
    pub client: Machine,
}

/// Why no machine could be made from a trace.
#[derive(Clone, Copy, Debug, PartialEq, Eq, Structural)]
pub enum SurakavError {
    /// The trace holds no non-zero burst.
    NoBursts,
}

/// Builds the relay's and the client's machine from the counts of a trace.
pub fn surakav_machines(trace: &Vec<u32>) -> (r: Result<SurakavMachines, SurakavError>)
    requires
        trace@.len() < usize::MAX - 2,
    ensures
        match r {
            Ok(m) => {
                &&& bursts_of(trace@).len() > 0
                &&& m.relay@ == side_machine(bursts_of(trace@), true)
                &&& m.client@ == side_machine(bursts_of(trace@), false)
                &&& m.relay@.wf() && m.client@.wf()
            },
            Err(e) => e == SurakavError::NoBursts && bursts_of(trace@).len() == 0,
        },
{
    let bursts = trace_bursts(trace);
    let ghost bs = bursts@;
    proof {
        lemma_bursts_len(trace@);
    }
    let n = bursts.len();
    if n == 0 {
        return Err(SurakavError::NoBursts);
    }
    let mut relay_states: Vec<State> = Vec::new();
    let mut client_states: Vec<State> = Vec::new();
    relay_states.push(start_state(1));
    relay_states.push(block_state(2));
    client_states.push(start_state(1));
    client_states.push(block_state(2));
    let mut k: usize = 0;
    while k < n
        invariant
            n == bs.len(),
            bursts@ == bs,
            n < usize::MAX - 2,
            k <= n,
            relay_states@.len() == k + 2,
            client_states@.len() == k + 2,
            forall|i: int| 0 <= i < k + 2 ==> #[trigger] relay_states@[i]@ == side_states(bs, true)[i],
            forall|i: int| 0 <= i < k + 2 ==> #[trigger] client_states@[i]@ == side_states(bs, false)[i],
        decreases n - k,
    {
        let b = bursts[k];
        let (send, recv) = burst_states(b.cells, k + 2, k + 3);
        if b.relay_sends {
            relay_states.push(send);
            client_states.push(recv);
        } else {
            relay_states.push(recv);
            client_states.push(send);
        }
        k = k + 1;
    }
    let relay = make_unlimited_machine(relay_states);
    let client = make_unlimited_machine(client_states);
    assert(relay@.states =~= side_states(bs, true));
    assert(client@.states =~= side_states(bs, false));
    proof {
        lemma_sides_mirror(bs);
    }
    Ok(SurakavMachines { relay, client })
}

/// One burst for each non-zero line of a trace, in order, of that line's
/// size: zeros switch direction and are not themselves bursts.
pub proof fn lemma_bursts_are_nonzero_lines(trace: Seq<u32>)
    ensures
        bursts_of(trace).map_values(|b: Burst| b.cells as u32) == trace.filter(|v: u32| v != 0),
    decreases trace.len(),
{
    reveal_with_fuel(Seq::filter, 1);
    if trace.len() > 0 {
        lemma_bursts_are_nonzero_lines(trace.drop_last());
        let prev = bursts_of(trace.drop_last());
        assert(prev.push(Burst { cells: trace.last(), relay_sends: (trace.len() - 1) % 2 == 1 }).map_values(
            |b: Burst| b.cells as u32,
        ) =~= prev.map_values(|b: Burst| b.cells as u32).push(trace.last()));
    } else {
        assert(bursts_of(trace).map_values(|b: Burst| b.cells as u32) =~= trace.filter(
            |v: u32| v != 0,
        ));
    }
}

/// At burst state `i`, the side that sends the burst holds the sending
/// state and the other side the receiving one.
pub open spec fn mirrored(relay: StateModel, client: StateModel, i: usize, b: Burst) -> bool {
    let next = (i + 1) as usize;
    if b.relay_sends {
        relay == send_model(i, next, b.cells) && client == recv_model(i, next, b.cells)
    } else {
        client == send_model(i, next, b.cells) && relay == recv_model(i, next, b.cells)
    }
}

/// Both sides' machines are well formed and mirror each other: the same
/// number of states, two more than there are bursts, and at each burst
/// exactly one side sends while the other blocks and receives.
pub proof fn lemma_sides_mirror(bursts: Seq<Burst>)
    requires
        bursts.len() < usize::MAX - 2,
    ensures
        side_machine(bursts, true).wf(),
        side_machine(bursts, false).wf(),
        side_machine(bursts, true).states.len() == bursts.len() + 2,
        side_machine(bursts, false).states.len() == bursts.len() + 2,
        forall|i: int|
            2 <= i < bursts.len() + 2 ==> mirrored(
                #[trigger] side_machine(bursts, true).states[i],
                side_machine(bursts, false).states[i],
                i as usize,
                bursts[i - 2],
            ),
{
    assert forall|relay: bool, i: int| 0 <= i < bursts.len() + 2 implies edges_wf(
        #[trigger] side_states(bursts, relay)[i].edges,
        bursts.len() + 2,
    ) by {
        let e = side_states(bursts, relay)[i].edges;
        if i >= 2 {
            assert(e[0].target == i + 1);
        }
    }
    assert(side_machine(bursts, true).wf());
    assert(side_machine(bursts, false).wf());
    assert forall|i: int| 2 <= i < bursts.len() + 2 implies mirrored(
        #[trigger] side_machine(bursts, true).states[i],
        side_machine(bursts, false).states[i],
        i as usize,
        bursts[i - 2],
    ) by {
        assert(side_machine(bursts, true).states[i] == side_states(bursts, true)[i]);
        assert(side_machine(bursts, false).states[i] == side_states(bursts, false)[i]);
    }
}

/// The bursts `bs` with their sending side swapped when `swap` holds.
pub open spec fn handed(bs: Seq<Burst>, swap: bool) -> Seq<Burst> {
    bs.map_values(|b: Burst| Burst { cells: b.cells, relay_sends: b.relay_sends != swap })
}

/// The bursts of two traces read one after the other: those of the first,
/// then those of the second, handed to the other side when the first has an
/// odd number of lines.
pub proof fn lemma_bursts_concat(t: Seq<u32>, u: Seq<u32>)
    ensures
        bursts_of(t + u) == bursts_of(t) + handed(bursts_of(u), t.len() % 2 == 1),
    decreases u.len(),
{
    if u.len() == 0 {
        assert(t + u =~= t);
        assert(bursts_of(t) + handed(bursts_of(u), t.len() % 2 == 1) =~= bursts_of(t));
    } else {
        let v = u.drop_last();
        lemma_bursts_concat(t, v);
        assert((t + u).drop_last() =~= t + v);
        let swap = t.len() % 2 == 1;
        let j = u.len() - 1;
        assert((t.len() + j) % 2 == 1 <==> (j % 2 == 1) != swap);
        if u.last() != 0 {
            let b = Burst { cells: u.last(), relay_sends: j % 2 == 1 };
            assert(handed(bursts_of(v).push(b), swap) =~= handed(bursts_of(v), swap).push(
                Burst { cells: b.cells, relay_sends: b.relay_sends != swap },
            ));
            assert(bursts_of(t) + handed(bursts_of(v), swap).push(
                Burst { cells: b.cells, relay_sends: b.relay_sends != swap },
            ) =~= (bursts_of(t) + handed(bursts_of(v), swap)).push(
                Burst { cells: b.cells, relay_sends: b.relay_sends != swap },
            ));
        }
    }
}

/// A zero line is a direction switch: inserted anywhere in a trace, it
/// leaves the bursts before it as they were and hands every burst after it
/// to the other side.
pub proof fn lemma_zero_switches_direction(t: Seq<u32>, u: Seq<u32>)
    ensures
        bursts_of(t + u) == bursts_of(t) + handed(bursts_of(u), t.len() % 2 == 1),
        bursts_of(t + seq![0u32] + u) == bursts_of(t) + handed(bursts_of(u), t.len() % 2 == 0),
{
    lemma_bursts_concat(t, u);
    let z = t + seq![0u32];
    lemma_bursts_concat(z, u);
    assert(z.drop_last() =~= t);
    assert(bursts_of(z) == bursts_of(t));
}

} // verus!
