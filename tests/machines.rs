use defense_machines::front::{front_machine, pipelined_front_machine, FrontError, PaddingPlan};
use defense_machines::model::{DistKind, Edge, Event, Machine, Param, CELL_SIZE};
use defense_machines::regulator::{
    client_machine, relay_machine, RelayError, SendPlan, Split, BOOT_TIMEOUT, FIRST_SEND,
};
use defense_machines::surakav::{
    parse_line, read_trace, surakav_machines, trace_bursts, SurakavError, TraceError,
    CUTOFF_LENGTH,
};

fn computed(x: f64) -> Param {
    Param::Computed(x.to_bits())
}

fn plan(i: u64) -> PaddingPlan {
    PaddingPlan {
        timeout: computed(10.0 * i as f64),
        stdev: computed(1.5 * i as f64),
        timeout_max: computed(20.0 * i as f64),
        limit: computed(100.0 + i as f64),
    }
}

fn lines(text: &[&str]) -> Vec<Vec<u8>> {
    text.iter().map(|l| l.as_bytes().to_vec()).collect()
}

fn targets(m: &Machine, state: usize, event: Event) -> Vec<usize> {
    m.states[state].edges.iter().filter(|e| e.event == event).map(|e| e.target).collect()
}

fn sends_padding(m: &Machine, state: usize) -> bool {
    !m.states[state].action_is_block
}

#[test]
fn parse_line_accepts_counts() {
    assert_eq!(parse_line(&b"42".to_vec()), Some(42));
    assert_eq!(parse_line(&b"+7".to_vec()), Some(7));
    assert_eq!(parse_line(&b"0".to_vec()), Some(0));
    assert_eq!(parse_line(&b"007".to_vec()), Some(7));
    assert_eq!(parse_line(&b"4294967295".to_vec()), Some(u32::MAX));
}

#[test]
fn parse_line_rejects_other_text() {
    assert_eq!(parse_line(&b"".to_vec()), None);
    assert_eq!(parse_line(&b"+".to_vec()), None);
    assert_eq!(parse_line(&b"-1".to_vec()), None);
    assert_eq!(parse_line(&b"4294967296".to_vec()), None);
    assert_eq!(parse_line(&b"99999999999999999999".to_vec()), None);
    assert_eq!(parse_line(&b"1a".to_vec()), None);
    assert_eq!(parse_line(&b" 1".to_vec()), None);
}

#[test]
fn read_trace_reads_every_line() {
    let r = read_trace(&lines(&["3", "2", "0", "4", "0"]));
    assert_eq!(r, Ok(vec![3, 2, 0, 4, 0]));
}

#[test]
fn read_trace_reports_malformed_line() {
    let r = read_trace(&lines(&["3", "x", "4"]));
    assert_eq!(r, Err(TraceError { line: 1 }));
}

#[test]
fn read_trace_stops_at_cutoff() {
    let mut text: Vec<Vec<u8>> = Vec::new();
    for _ in 0..CUTOFF_LENGTH {
        text.push(b"1".to_vec());
        text.push(b"0".to_vec());
    }
    text.push(b"5".to_vec());
    text.push(b"not a count".to_vec());
    let r = read_trace(&text).unwrap();
    // The zero after the last counted burst is not read.
    assert_eq!(r.len(), 2 * CUTOFF_LENGTH - 1);
    assert_eq!(r.iter().filter(|v| **v != 0).count(), CUTOFF_LENGTH);
}

#[test]
fn trace_bursts_follow_direction_switches() {
    let b = trace_bursts(&vec![3, 2, 0, 4, 0]);
    assert_eq!(b.len(), 3);
    assert_eq!(b.iter().map(|x| x.cells).collect::<Vec<u32>>(), vec![3, 2, 4]);
    // client, then relay; the zero keeps the role with the relay
    assert_eq!(b.iter().map(|x| x.relay_sends).collect::<Vec<bool>>(), vec![false, true, true]);
}

#[test]
fn surakav_three_burst_pairs() {
    let m = surakav_machines(&vec![3, 2, 0, 4, 0]).unwrap();
    assert_eq!(m.relay.states.len(), 5);
    assert_eq!(m.client.states.len(), 5);
    // one state pair per burst: one side sends, the other blocks
    let client_sends: Vec<bool> = (2..5).map(|i| sends_padding(&m.client, i)).collect();
    let relay_sends: Vec<bool> = (2..5).map(|i| sends_padding(&m.relay, i)).collect();
    assert_eq!(client_sends, vec![true, false, false]);
    assert_eq!(relay_sends, vec![false, true, true]);
    // the sending role changes hands once between bursts, at the first zero it stays
    let switches = relay_sends.windows(2).filter(|w| w[0] != w[1]).count();
    assert_eq!(switches, 1);
    for i in 2..5 {
        assert_eq!(targets(&m.relay, i, Event::LimitReached), vec![i + 1]);
        assert_eq!(targets(&m.client, i, Event::LimitReached), vec![i + 1]);
    }
    assert_eq!(m.relay.end_index(), 5);
    let cells = [3u64, 2, 4];
    for k in 0..3 {
        let limit = m.client.states[k + 2].limit.unwrap();
        assert_eq!(limit.param1, Param::Whole(cells[k]));
        assert_eq!(m.relay.states[k + 2].limit.unwrap().param2, Param::Whole(cells[k]));
    }
    let send = &m.client.states[2];
    assert_eq!(send.timeout.unwrap().param1, Param::Whole(5));
    assert_eq!(send.action.unwrap().param1, Param::Whole(CELL_SIZE));
    let recv = &m.relay.states[2];
    assert_eq!(recv.action.unwrap().param1, Param::Unbounded);
    assert_eq!(targets(&m.relay, 2, Event::PaddingRecv), vec![2]);
    assert_eq!(targets(&m.relay, 2, Event::NonPaddingRecv), vec![2]);
}

#[test]
fn surakav_start_and_block() {
    let m = surakav_machines(&vec![7]).unwrap();
    assert_eq!(m.client.states.len(), 3);
    assert_eq!(targets(&m.client, 0, Event::NonPaddingSent), vec![1]);
    assert_eq!(targets(&m.client, 0, Event::NonPaddingRecv), vec![1]);
    assert_eq!(targets(&m.client, 1, Event::BlockingBegin), vec![2]);
    assert!(m.client.states[1].action_is_block);
    assert_eq!(m.client.allowed_padding_bytes, u64::MAX);
    assert_eq!(m.client.allowed_blocked_microsec, u64::MAX);
}

#[test]
fn surakav_rejects_traces_without_bursts() {
    assert_eq!(surakav_machines(&vec![0, 0, 0]), Err(SurakavError::NoBursts));
    assert_eq!(surakav_machines(&vec![]), Err(SurakavError::NoBursts));
}

#[test]
fn front_machine_has_one_state_per_plan() {
    let plans: Vec<PaddingPlan> = (1..=3).map(plan).collect();
    let m = front_machine(&plans).unwrap();
    assert_eq!(m.len(), 4);
    assert_eq!(targets(&m, 0, Event::NonPaddingSent), vec![1]);
    assert_eq!(targets(&m, 0, Event::NonPaddingRecv), vec![1]);
    for i in 1..=3 {
        let s = &m.states[i];
        assert_eq!(targets(&m, i, Event::PaddingSent), vec![i]);
        assert_eq!(targets(&m, i, Event::LimitReached), vec![i + 1]);
        let limit = s.limit.unwrap();
        assert_eq!(limit.param1, Param::Whole(1));
        assert_eq!(limit.param2, plans[i - 1].limit);
        let timeout = s.timeout.unwrap();
        assert_eq!(timeout.kind, DistKind::Normal);
        assert_eq!(timeout.param1, plans[i - 1].timeout);
        assert_eq!(timeout.param2, plans[i - 1].stdev);
        assert_eq!(timeout.max, plans[i - 1].timeout_max);
        assert_eq!(s.action.unwrap().param2, Param::Whole(512));
    }
    assert_eq!(m.end_index(), 4);
    assert_eq!(m.allowed_blocked_microsec, 0);
}

#[test]
fn front_machine_needs_a_padding_state() {
    assert_eq!(front_machine(&vec![]), Err(FrontError::NoPaddingStates));
}

#[test]
fn pipelined_front_fans_out() {
    let plans: Vec<PaddingPlan> = (1..=6).map(plan).collect();
    let fan = computed(1.0 / 3.0);
    let m = pipelined_front_machine(2, 3, &plans, fan).unwrap();
    assert_eq!(m.len(), 7);
    assert_eq!(targets(&m, 0, Event::NonPaddingSent), vec![1, 3, 5]);
    assert_eq!(targets(&m, 0, Event::NonPaddingRecv), vec![1, 3, 5]);
    assert!(m.states[0].edges.iter().all(|e: &Edge| e.prob == fan));
    assert_eq!(targets(&m, 1, Event::LimitReached), vec![2]);
    assert_eq!(targets(&m, 2, Event::LimitReached), vec![7]);
    assert_eq!(targets(&m, 3, Event::LimitReached), vec![4]);
    assert_eq!(targets(&m, 4, Event::LimitReached), vec![7]);
    assert_eq!(targets(&m, 6, Event::LimitReached), vec![7]);
    assert_eq!(m.states[5].limit.unwrap().param2, plans[4].limit);
}

#[test]
fn pipelined_front_errors() {
    let plans: Vec<PaddingPlan> = (1..=6).map(plan).collect();
    let one = Param::Whole(1);
    assert_eq!(pipelined_front_machine(0, 3, &plans, one), Err(FrontError::NoPaddingStates));
    assert_eq!(pipelined_front_machine(2, 0, &plans, one), Err(FrontError::NoPipelines));
    assert_eq!(pipelined_front_machine(4, 2, &plans, one), Err(FrontError::PlanLength));
    assert_eq!(pipelined_front_machine(usize::MAX, 2, &plans, one), Err(FrontError::PlanLength));
}

#[test]
fn single_pipeline_matches_front() {
    let plans: Vec<PaddingPlan> = (1..=4).map(plan).collect();
    assert_eq!(pipelined_front_machine(4, 1, &plans, Param::Whole(1)), front_machine(&plans));
}

#[test]
fn relay_machine_layout() {
    let sends = vec![
        SendPlan { timeout: computed(1000.0), reset_prob: computed(0.02) },
        SendPlan { timeout: computed(2000.0), reset_prob: computed(0.04) },
        SendPlan { timeout: computed(1e6), reset_prob: computed(0.5) },
    ];
    let limit = computed(50.0);
    let m = relay_machine(&sends, limit).unwrap();
    assert_eq!(m.len(), 3 + FIRST_SEND);
    assert_eq!(targets(&m, 0, Event::NonPaddingSent), vec![1]);
    assert!(m.states[0].edges.len() == 1);
    assert_eq!(targets(&m, 1, Event::BlockingBegin), vec![2]);
    for i in 2..FIRST_SEND {
        assert_eq!(targets(&m, i, Event::PaddingSent), vec![i]);
        assert_eq!(targets(&m, i, Event::NonPaddingSent), vec![i + 1]);
        assert_eq!(m.states[i].timeout.unwrap().param1, Param::Whole(BOOT_TIMEOUT));
    }
    // the first SEND state cannot restart the surge; later ones can
    assert!(targets(&m, FIRST_SEND, Event::NonPaddingSent).is_empty());
    assert_eq!(targets(&m, 12, Event::NonPaddingSent), vec![FIRST_SEND]);
    assert_eq!(m.states[12].edges[2].prob, computed(0.04));
    assert_eq!(targets(&m, 13, Event::LimitReached), vec![14]);
    assert_eq!(m.end_index(), 14);
    assert_eq!(m.states[13].timeout.unwrap().param1, computed(1e6));
    assert_eq!(m.states[13].limit.unwrap().param1, limit);
    assert!(m.states[13].bypass && m.states[13].replace);
}

#[test]
fn relay_machine_needs_a_send_state() {
    assert_eq!(relay_machine(&vec![], Param::Whole(10)), Err(RelayError::NoSendStates));
}

#[test]
fn client_machine_fractional_ratio() {
    let upload_ratio: f64 = 2.5;
    let forward = 1.0 - upload_ratio.fract();
    let split = Split { forward: computed(forward), stay: computed(1.0 - forward) };
    let m = client_machine(upload_ratio as usize, Some(split));
    // two COUNTER states, then SEND
    assert_eq!(m.len(), 3);
    assert_eq!(targets(&m, 0, Event::PaddingRecv), vec![1]);
    assert_eq!(m.states[0].edges[0].prob, Param::Whole(1));
    assert!(targets(&m, 0, Event::LimitReached).is_empty());
    let last = &m.states[1];
    assert_eq!(last.edges[0], Edge { event: Event::PaddingRecv, target: 2, prob: computed(0.5) });
    match last.edges[0].prob {
        Param::Computed(bits) => assert_eq!(f64::from_bits(bits), 0.5),
        _ => panic!("forward probability is not fitted"),
    }
    assert_eq!(targets(&m, 1, Event::PaddingRecv), vec![2, 1]);
    assert_eq!(targets(&m, 1, Event::NonPaddingRecv), vec![2, 1]);
    assert_eq!(targets(&m, 1, Event::LimitReached), vec![2]);
    assert!(last.action_is_block);
    assert_eq!(last.limit.unwrap().param1, Param::Whole(2));
    assert_eq!(targets(&m, 2, Event::PaddingSent), vec![0]);
    assert_eq!(m.states[2].action.unwrap().param1, Param::Whole(CELL_SIZE));
}

#[test]
fn client_machine_whole_ratio() {
    let m = client_machine(3, None);
    assert_eq!(m.len(), 4);
    for i in 0..3 {
        assert_eq!(targets(&m, i, Event::PaddingRecv), vec![i + 1]);
        assert_eq!(targets(&m, i, Event::NonPaddingRecv), vec![i + 1]);
    }
    assert_eq!(client_machine(0, None).len(), 1);
}

#[test]
fn synthesis_is_repeatable() {
    let trace = vec![5, 0, 1, 9, 0, 0, 2];
    assert_eq!(surakav_machines(&trace), surakav_machines(&trace));
    let plans: Vec<PaddingPlan> = (1..=5).map(plan).collect();
    assert_eq!(front_machine(&plans), front_machine(&plans));
    let sends = vec![SendPlan { timeout: computed(3.0), reset_prob: computed(0.1) }];
    assert_eq!(relay_machine(&sends, Param::Whole(4)), relay_machine(&sends, Param::Whole(4)));
}

#[test]
fn zero_line_switches_direction() {
    let sides = |t: Vec<u32>| trace_bursts(&t).iter().map(|b| b.relay_sends).collect::<Vec<bool>>();
    assert_eq!(sides(vec![3, 4, 5]), vec![false, true, false]);
    assert_eq!(sides(vec![3, 0, 4, 5]), vec![false, false, true]);
    assert_eq!(sides(vec![0, 3, 4, 5]), vec![true, false, true]);
    assert_eq!(sides(vec![3, 4, 5, 0]), vec![false, true, false]);
}
