use metalogic_core::basic::{create_gate, AndGate, ClockGate, LedGate, NotGate, ToggleGate, TriBufferGate};
use metalogic_core::engine::SimulationEngine;
use metalogic_core::gate::Gate;
use metalogic_core::records::{GateState, SimulationSnapshot, WireState};
use metalogic_core::state::{resolve_wire_state, StateType};

fn gate(id: &str, kind: &str, inputs: usize) -> GateState {
    GateState {
        id: id.to_string(),
        gate_type: kind.to_string(),
        input_states: vec![4; inputs],
        output_states: vec![],
    }
}

fn wire(id: &str, state: u8, src: &str, sp: u32, tgt: &str, tp: u32) -> WireState {
    WireState {
        id: id.to_string(),
        state,
        source_gate_id: src.to_string(),
        source_port_index: sp,
        target_gate_id: tgt.to_string(),
        target_port_index: tp,
    }
}

fn gate_of<'a>(snap: &'a SimulationSnapshot, id: &str) -> &'a GateState {
    snap.gates.iter().find(|g| g.id == id).unwrap()
}

fn steps(e: &mut SimulationEngine, n: u32) {
    for _ in 0..n {
        e.step();
    }
}

#[test]
fn half_adder() {
    let mut e = SimulationEngine::new();
    e.initialize(
        vec![gate("A", "TOGGLE", 0), gate("B", "TOGGLE", 0), gate("X", "XOR", 2), gate("C", "AND", 2)],
        vec![
            wire("w1", 4, "A", 0, "X", 0),
            wire("w2", 4, "B", 0, "X", 1),
            wire("w3", 4, "A", 0, "C", 0),
            wire("w4", 4, "B", 0, "C", 1),
        ],
    );
    e.toggle_input("A");
    e.toggle_input("B");
    steps(&mut e, 5);
    let snap = e.get_snapshot();
    assert_eq!(gate_of(&snap, "X").output_states, vec![0]);
    assert_eq!(gate_of(&snap, "C").output_states, vec![1]);
}

#[test]
fn inverter_chain_settles() {
    let mut e = SimulationEngine::new();
    e.initialize(
        vec![gate("T", "TOGGLE", 0), gate("N1", "NOT", 1), gate("N2", "NOT", 1)],
        vec![wire("a", 4, "T", 0, "N1", 0), wire("b", 4, "N1", 0, "N2", 0)],
    );
    e.toggle_input("T");
    steps(&mut e, 3);
    let snap = e.get_snapshot();
    assert_eq!(gate_of(&snap, "N1").output_states, vec![0]);
    assert_eq!(gate_of(&snap, "N2").output_states, vec![1]);
}

#[test]
fn multi_drive_conflict() {
    let mut e = SimulationEngine::new();
    e.initialize(
        vec![gate("T1", "TOGGLE", 0), gate("T2", "TOGGLE", 0), gate("L", "LED", 1)],
        vec![wire("a", 0, "T1", 0, "L", 0), wire("b", 0, "T2", 0, "L", 0)],
    );
    e.toggle_input("T1");
    steps(&mut e, 3);
    let snap = e.get_snapshot();
    let states: Vec<StateType> = snap
        .wires
        .iter()
        .filter(|w| w.target_gate_id == "L" && w.target_port_index == 0)
        .map(|w| StateType::from_u8(w.state))
        .collect();
    assert_eq!(states.len(), 2);
    assert_eq!(resolve_wire_state(&states), StateType::Conflict);
    assert_eq!(gate_of(&snap, "L").input_states, vec![3]);
    assert!(gate_of(&snap, "L").output_states.is_empty());
}

#[test]
fn hiz_through_tri_state_buffer() {
    let mut e = SimulationEngine::new();
    let mut tb = gate("TB", "TRI_BUFFER", 2);
    tb.input_states = vec![0, 0];
    e.initialize(
        vec![gate("D", "TOGGLE", 0), gate("E", "TOGGLE", 0), tb],
        vec![wire("d", 0, "D", 0, "TB", 0), wire("en", 0, "E", 0, "TB", 1)],
    );
    e.toggle_input("D");
    steps(&mut e, 3);
    let snap = e.get_snapshot();
    assert_eq!(gate_of(&snap, "TB").input_states, vec![1, 0]);
    assert_eq!(gate_of(&snap, "TB").output_states, vec![2]);
    e.toggle_input("E");
    steps(&mut e, 3);
    let snap = e.get_snapshot();
    assert_eq!(gate_of(&snap, "TB").output_states, vec![1]);
}

#[test]
fn records_set_initial_input_states() {
    let mut e = SimulationEngine::new();
    let mut n = gate("N", "NOT", 1);
    n.input_states = vec![0];
    let mut a = gate("A", "AND", 3);
    a.input_states = vec![1, 9, 3];
    e.initialize(vec![n, a], vec![]);
    let snap = e.get_snapshot();
    assert_eq!(gate_of(&snap, "N").input_states, vec![0]);
    assert_eq!(gate_of(&snap, "A").input_states, vec![1, 4, 3]);
    steps(&mut e, 1);
    let snap = e.get_snapshot();
    assert_eq!(gate_of(&snap, "N").output_states, vec![1]);
    assert_eq!(gate_of(&snap, "A").output_states, vec![3]);
}

#[test]
fn clock_ticks_by_period() {
    let mut c = ClockGate::new("clk".to_string());
    assert_eq!(c.tick(0), StateType::Zero);
    assert_eq!(c.tick(5), StateType::Zero);
    assert_eq!(c.tick(10), StateType::One);
    assert_eq!(c.tick(15), StateType::One);
    assert_eq!(c.get_outputs(), &[StateType::One]);
    let r = c.evaluate();
    assert_eq!(r.outputs, vec![StateType::One]);
    assert_eq!(r.delay, 0);
    c.reset();
    assert_eq!(c.get_outputs(), &[StateType::Zero]);
}

#[test]
fn oscillator_step_is_bounded() {
    let mut e = SimulationEngine::new();
    e.initialize(vec![gate("N", "NOT", 1)], vec![wire("loop", 4, "N", 0, "N", 0)]);
    for _ in 0..10_001 {
        e.toggle_input("N");
    }
    assert_eq!(e.pending_events(), 10_002);
    let before = e.get_current_time();
    e.step();
    assert_eq!(e.pending_events(), 2);
    assert!(e.get_current_time() >= before + 1);
}

#[test]
fn process_due_events_stops_at_the_bound() {
    let mut e = SimulationEngine::new();
    e.initialize(vec![gate("N", "NOT", 1)], vec![]);
    for _ in 0..10_500 {
        e.toggle_input("N");
    }
    assert_eq!(e.process_due_events(), 10_000);
    assert_eq!(e.pending_events(), 501);
    assert_eq!(e.process_due_events(), 501);
    assert_eq!(e.process_due_events(), 0);
}

#[test]
fn time_is_monotone_across_steps() {
    let mut e = SimulationEngine::new();
    e.initialize(
        vec![gate("T", "TOGGLE", 0), gate("N", "NOT", 1)],
        vec![wire("a", 4, "T", 0, "N", 0)],
    );
    let mut last = e.get_current_time();
    for i in 0..20 {
        if i % 3 == 0 {
            e.toggle_input("T");
        }
        e.step();
        let now = e.get_current_time();
        assert!(now >= last + 1);
        last = now;
    }
    assert_eq!(SimulationEngine::new().get_current_time(), 0);
}

#[test]
fn propagating_the_current_value_again_schedules_nothing() {
    let mut e = SimulationEngine::new();
    e.initialize(
        vec![gate("T", "TOGGLE", 0), gate("L", "LED", 1)],
        vec![wire("w", 4, "T", 0, "L", 0)],
    );
    steps(&mut e, 1);
    e.propagate_wire_state("w", StateType::One);
    let pending = e.pending_events();
    assert_eq!(pending, 1);
    e.propagate_wire_state("w", StateType::One);
    assert_eq!(e.pending_events(), pending);
    e.propagate_wire_state("missing", StateType::Zero);
    assert_eq!(e.pending_events(), pending);
    steps(&mut e, 1);
    let snap = e.get_snapshot();
    assert_eq!(gate_of(&snap, "L").input_states, vec![1]);
}

#[test]
fn snapshot_round_trip_keeps_the_netlist() {
    let mut e = SimulationEngine::new();
    e.initialize(
        vec![gate("X", "XOR", 3), gate("N", "NOT", 0), gate("L", "LED", 0), gate("B", "TRI_BUFFER", 0)],
        vec![wire("a", 4, "X", 0, "N", 0), wire("b", 1, "N", 0, "L", 0), wire("c", 0, "N", 0, "B", 1)],
    );
    steps(&mut e, 4);
    let snap = e.get_snapshot();
    let mut again = SimulationEngine::new();
    again.initialize(snap.gates.clone(), snap.wires.clone());
    let snap2 = again.get_snapshot();
    let mut ids1: Vec<(String, String, usize)> =
        snap.gates.iter().map(|g| (g.id.clone(), g.gate_type.clone(), g.input_states.len())).collect();
    let mut ids2: Vec<(String, String, usize)> =
        snap2.gates.iter().map(|g| (g.id.clone(), g.gate_type.clone(), g.input_states.len())).collect();
    ids1.sort();
    ids2.sort();
    assert_eq!(ids1, ids2);
    let mut w1: Vec<(String, String, u32, String, u32)> = snap
        .wires
        .iter()
        .map(|w| (w.id.clone(), w.source_gate_id.clone(), w.source_port_index, w.target_gate_id.clone(), w.target_port_index))
        .collect();
    let mut w2: Vec<(String, String, u32, String, u32)> = snap2
        .wires
        .iter()
        .map(|w| (w.id.clone(), w.source_gate_id.clone(), w.source_port_index, w.target_gate_id.clone(), w.target_port_index))
        .collect();
    w1.sort();
    w2.sort();
    assert_eq!(w1, w2);
    assert_eq!(gate_of(&snap2, "X").input_states.len(), 3);
}

#[test]
fn initialize_replaces_and_later_records_win() {
    let mut e = SimulationEngine::new();
    e.initialize(vec![gate("old", "AND", 2)], vec![]);
    e.initialize(
        vec![gate("g", "AND", 2), gate("g", "OR", 4), gate("h", "WHATEVER", 0)],
        vec![wire("w", 9, "g", 0, "h", 0), wire("w", 1, "h", 0, "g", 3)],
    );
    let snap = e.get_snapshot();
    assert_eq!(snap.time, 0);
    assert_eq!(snap.gates.len(), 2);
    assert_eq!(gate_of(&snap, "g").gate_type, "OR");
    assert_eq!(gate_of(&snap, "g").input_states.len(), 4);
    assert_eq!(gate_of(&snap, "h").gate_type, "BUFFER");
    assert_eq!(snap.wires.len(), 1);
    assert_eq!(snap.wires[0].state, 1);
    assert_eq!(snap.wires[0].target_port_index, 3);
    assert_eq!(e.pending_events(), 2);
}

#[test]
fn reset_restores_quiescent_state() {
    let mut e = SimulationEngine::new();
    e.initialize(
        vec![gate("T", "TOGGLE", 0), gate("N", "NOT", 1)],
        vec![wire("a", 4, "T", 0, "N", 0)],
    );
    e.toggle_input("T");
    steps(&mut e, 4);
    e.set_running(true);
    assert!(e.is_running());
    e.reset();
    assert_eq!(e.get_current_time(), 0);
    assert!(e.is_running());
    assert_eq!(e.pending_events(), 2);
    let snap = e.get_snapshot();
    assert_eq!(gate_of(&snap, "T").output_states, vec![0]);
    assert_eq!(gate_of(&snap, "N").input_states, vec![4]);
    assert_eq!(gate_of(&snap, "N").output_states, vec![4]);
    assert_eq!(snap.wires[0].state, 4);
    e.set_running(false);
    assert!(!e.is_running());
}

#[test]
fn gate_kinds_evaluate_per_table() {
    let mut and = AndGate::new("a".to_string(), 3, 1);
    and.set_input(0, StateType::One);
    and.set_input(1, StateType::One);
    and.set_input(2, StateType::One);
    and.set_input(7, StateType::Zero);
    assert_eq!(and.evaluate().outputs, vec![StateType::One]);
    and.set_input(1, StateType::HiZ);
    assert_eq!(and.evaluate().outputs, vec![StateType::Unknown]);
    assert_eq!(and.input_count(), 3);
    assert_eq!(and.gate_type(), "AND");
    assert_eq!(and.id(), "a");

    let mut not = NotGate::new("n".to_string(), 1);
    not.set_input(0, StateType::Zero);
    let r = not.evaluate();
    assert_eq!(r.outputs, vec![StateType::One]);
    assert_eq!(r.delay, 1);

    let mut tb = TriBufferGate::new("t".to_string(), 1);
    tb.set_input(0, StateType::One);
    tb.set_input(1, StateType::Zero);
    assert_eq!(tb.evaluate().outputs, vec![StateType::HiZ]);
    tb.set_input(1, StateType::One);
    assert_eq!(tb.evaluate().outputs, vec![StateType::One]);
    tb.set_input(1, StateType::Unknown);
    assert_eq!(tb.evaluate().outputs, vec![StateType::Unknown]);

    let mut t = ToggleGate::new("s".to_string());
    assert_eq!(t.evaluate().outputs, vec![StateType::Zero]);
    t.toggle();
    assert_eq!(t.evaluate().outputs, vec![StateType::One]);
    t.toggle();
    assert_eq!(t.evaluate().outputs, vec![StateType::Zero]);

    let mut led = LedGate::new("l".to_string());
    led.set_input(0, StateType::One);
    assert_eq!(led.get_inputs(), &[StateType::One]);
    assert!(led.evaluate().outputs.is_empty());
    led.reset();
    assert_eq!(led.get_inputs(), &[StateType::Unknown]);
}

#[test]
fn create_gate_builds_each_kind() {
    let kinds = [
        ("AND", 2usize, 1usize, 1u64),
        ("OR", 2, 1, 1),
        ("NOT", 1, 1, 1),
        ("XOR", 2, 1, 1),
        ("NAND", 2, 1, 1),
        ("NOR", 2, 1, 1),
        ("XNOR", 2, 1, 1),
        ("BUFFER", 1, 1, 1),
        ("TRI_BUFFER", 2, 1, 1),
        ("TOGGLE", 0, 1, 0),
        ("CLOCK", 0, 1, 0),
        ("PULSE", 0, 1, 0),
        ("LED", 1, 0, 0),
    ];
    for (kind, ins, outs, delay) in kinds.iter() {
        let g = create_gate(kind, "g".to_string(), None);
        assert_eq!(g.gate_type(), *kind);
        assert_eq!(g.input_count(), *ins);
        assert_eq!(g.output_count(), *outs);
        assert_eq!(g.delay(), *delay);
    }
    let g = create_gate("NAND", "g".to_string(), Some(5));
    assert_eq!(g.input_count(), 5);
    let g = create_gate("nonsense", "g".to_string(), Some(5));
    assert_eq!(g.gate_type(), "BUFFER");
    assert_eq!(g.input_count(), 1);
    let mut g = create_gate("XNOR", "g".to_string(), None);
    g.set_input(0, StateType::One);
    g.set_input(1, StateType::Zero);
    assert_eq!(g.evaluate().outputs, vec![StateType::Zero]);
    assert!(!g.is_rising_edge(0));
}

#[test]
fn step_advances_clocks() {
    let mut e = SimulationEngine::new();
    e.initialize(
        vec![gate("CLK", "CLOCK", 0), gate("L", "LED", 1)],
        vec![wire("c", 0, "CLK", 0, "L", 0)],
    );
    while e.get_current_time() < 13 {
        e.step();
    }
    let snap = e.get_snapshot();
    assert_eq!(gate_of(&snap, "CLK").output_states, vec![1]);
    assert_eq!(gate_of(&snap, "L").input_states, vec![1]);
    while e.get_current_time() < 23 {
        e.step();
    }
    let snap = e.get_snapshot();
    assert_eq!(gate_of(&snap, "CLK").output_states, vec![0]);
    assert_eq!(gate_of(&snap, "L").input_states, vec![0]);
}
