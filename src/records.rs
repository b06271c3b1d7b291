//! Plain records through which a netlist comes in and a snapshot goes out.
use vstd::prelude::*;

verus! {

/// One gate: its id, kind tag, and port states in the boundary encoding.
#[derive(Debug, Clone)]
pub struct GateState {
    pub id: String,
    pub gate_type: String,
    pub input_states: Vec<u8>,
    pub output_states: Vec<u8>,
}

/// One wire, from an output port to an input port, with its state encoded.
#[derive(Debug, Clone)]
pub struct WireState {
    pub id: String,
    pub state: u8,
    pub source_gate_id: String,
    pub source_port_index: u32,
    pub target_gate_id: String,
    pub target_port_index: u32,
}

/// A copy of the whole simulation at one moment.
#[derive(Debug, Clone)]
pub struct SimulationSnapshot {
    pub time: u64,
    pub gates: Vec<GateState>,
    pub wires: Vec<WireState>,
}

} // verus!
