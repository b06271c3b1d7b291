//! Every kind of logic primitive, and one enum that holds any of them.
use crate::gate::{Gate, GateResult};
use crate::state::{
    and_fold, first_or_unknown, or_fold, reduce_and, reduce_or, reduce_xor, unknown_states,
    unknowns, xor_fold, not_spec, StateType,
};
use vstd::prelude::*;
use vstd::slice::slice_to_vec;

verus! {

/// AND of all inputs, folded from the left.
pub struct AndGate {
    id: String,
    inputs: Vec<StateType>,
    outputs: Vec<StateType>,
    delay: u64,
}

impl AndGate {
    pub fn new(id: String, input_count: usize, delay: u64) -> (r: AndGate)
        ensures
            r.wf(),
            r.spec_id() == id@,
            r.spec_inputs() == unknowns(input_count as nat),
            r.spec_outputs() == unknowns(1),
            r.spec_delay() == delay,
    {
        AndGate {
            id,
            inputs: unknown_states(input_count),
            outputs: unknown_states(1),
            delay,
        }
    }
}

impl Gate for AndGate {
    closed spec fn spec_id(&self) -> Seq<char> {
        self.id@
    }

    open spec fn spec_kind(&self) -> Seq<char> {
        "AND"@
    }

    closed spec fn spec_inputs(&self) -> Seq<StateType> {
        self.inputs@
    }

    closed spec fn spec_outputs(&self) -> Seq<StateType> {
        self.outputs@
    }

    closed spec fn spec_delay(&self) -> u64 {
        self.delay
    }

    open spec fn spec_level(&self) -> StateType {
        StateType::Zero
    }

    open spec fn spec_toggled_level(&self) -> StateType {
        StateType::Zero
    }

    open spec fn spec_reset_outputs(&self) -> Seq<StateType> {
        unknowns(1)
    }

    open spec fn spec_evaluated(&self) -> Seq<StateType> {
        seq![and_fold(self.spec_inputs())]
    }

    closed spec fn wf(&self) -> bool {
        self.outputs@.len() == 1
    }

    fn id(&self) -> (r: &str) {
        self.id.as_str()
    }

    fn gate_type(&self) -> (r: &str) {
        "AND"
    }

    fn input_count(&self) -> (r: usize) {
        self.inputs.len()
    }

    fn output_count(&self) -> (r: usize) {
        1
    }

    fn get_inputs(&self) -> (r: &[StateType]) {
        self.inputs.as_slice()
    }

    fn get_outputs(&self) -> (r: &[StateType]) {
        self.outputs.as_slice()
    }

    fn delay(&self) -> (r: u64) {
        self.delay
    }

    fn set_input(&mut self, index: usize, state: StateType) {
        if index < self.inputs.len() {
            self.inputs[index] = state;
        }
    }

    fn evaluate(&mut self) -> (r: GateResult) {
        self.outputs[0] = reduce_and(self.inputs.as_slice());
        GateResult { outputs: slice_to_vec(self.outputs.as_slice()), delay: self.delay }
    }

    fn reset(&mut self) {
        self.inputs = unknown_states(self.inputs.len());
        self.outputs = unknown_states(1);
    }

    fn toggle(&mut self) {
    }
}

/// OR of all inputs, folded from the left.
pub struct OrGate {
    id: String,
    inputs: Vec<StateType>,
    outputs: Vec<StateType>,
    delay: u64,
}

impl OrGate {
    pub fn new(id: String, input_count: usize, delay: u64) -> (r: OrGate)
        ensures
            r.wf(),
            r.spec_id() == id@,
            r.spec_inputs() == unknowns(input_count as nat),
            r.spec_outputs() == unknowns(1),
            r.spec_delay() == delay,
    {
        OrGate {
            id,
            inputs: unknown_states(input_count),
            outputs: unknown_states(1),
            delay,
        }
    }
}

impl Gate for OrGate {
    closed spec fn spec_id(&self) -> Seq<char> {
        self.id@
    }

    open spec fn spec_kind(&self) -> Seq<char> {
        "OR"@
    }

    closed spec fn spec_inputs(&self) -> Seq<StateType> {
        self.inputs@
    }

    closed spec fn spec_outputs(&self) -> Seq<StateType> {
        self.outputs@
    }

    closed spec fn spec_delay(&self) -> u64 {
        self.delay
    }

    open spec fn spec_level(&self) -> StateType {
        StateType::Zero
    }

    open spec fn spec_toggled_level(&self) -> StateType {
        StateType::Zero
    }

    open spec fn spec_reset_outputs(&self) -> Seq<StateType> {
        unknowns(1)
    }

    open spec fn spec_evaluated(&self) -> Seq<StateType> {
        seq![or_fold(self.spec_inputs())]
    }

    closed spec fn wf(&self) -> bool {
        self.outputs@.len() == 1
    }

    fn id(&self) -> (r: &str) {
        self.id.as_str()
    }

    fn gate_type(&self) -> (r: &str) {
        "OR"
    }

    fn input_count(&self) -> (r: usize) {
        self.inputs.len()
    }

    fn output_count(&self) -> (r: usize) {
        1
    }

    fn get_inputs(&self) -> (r: &[StateType]) {
        self.inputs.as_slice()
    }

    fn get_outputs(&self) -> (r: &[StateType]) {
        self.outputs.as_slice()
    }

    fn delay(&self) -> (r: u64) {
        self.delay
    }

    fn set_input(&mut self, index: usize, state: StateType) {
        if index < self.inputs.len() {
            self.inputs[index] = state;
        }
    }

    fn evaluate(&mut self) -> (r: GateResult) {
        self.outputs[0] = reduce_or(self.inputs.as_slice());
        GateResult { outputs: slice_to_vec(self.outputs.as_slice()), delay: self.delay }
    }

    fn reset(&mut self) {
        self.inputs = unknown_states(self.inputs.len());
        self.outputs = unknown_states(1);
    }

    fn toggle(&mut self) {
    }
}

/// XOR of all inputs, folded from the left.
pub struct XorGate {
    id: String,
    inputs: Vec<StateType>,
    outputs: Vec<StateType>,
    delay: u64,
}

impl XorGate {
    pub fn new(id: String, input_count: usize, delay: u64) -> (r: XorGate)
        ensures
            r.wf(),
            r.spec_id() == id@,
            r.spec_inputs() == unknowns(input_count as nat),
            r.spec_outputs() == unknowns(1),
            r.spec_delay() == delay,
    {
        XorGate {
            id,
            inputs: unknown_states(input_count),
            outputs: unknown_states(1),
            delay,
        }
    }
}

impl Gate for XorGate {
    closed spec fn spec_id(&self) -> Seq<char> {
        self.id@
    }

    open spec fn spec_kind(&self) -> Seq<char> {
        "XOR"@
    }

    closed spec fn spec_inputs(&self) -> Seq<StateType> {
        self.inputs@
    }

    closed spec fn spec_outputs(&self) -> Seq<StateType> {
        self.outputs@
    }

    closed spec fn spec_delay(&self) -> u64 {
        self.delay
    }

    open spec fn spec_level(&self) -> StateType {
        StateType::Zero
    }

    open spec fn spec_toggled_level(&self) -> StateType {
        StateType::Zero
    }

    open spec fn spec_reset_outputs(&self) -> Seq<StateType> {
        unknowns(1)
    }

    open spec fn spec_evaluated(&self) -> Seq<StateType> {
        seq![xor_fold(self.spec_inputs())]
    }

    closed spec fn wf(&self) -> bool {
        self.outputs@.len() == 1
    }

    fn id(&self) -> (r: &str) {
        self.id.as_str()
    }

    fn gate_type(&self) -> (r: &str) {
        "XOR"
    }

    fn input_count(&self) -> (r: usize) {
        self.inputs.len()
    }

    fn output_count(&self) -> (r: usize) {
        1
    }

    fn get_inputs(&self) -> (r: &[StateType]) {
        self.inputs.as_slice()
    }

    fn get_outputs(&self) -> (r: &[StateType]) {
        self.outputs.as_slice()
    }

    fn delay(&self) -> (r: u64) {
        self.delay
    }

    fn set_input(&mut self, index: usize, state: StateType) {
        if index < self.inputs.len() {
            self.inputs[index] = state;
        }
    }

    fn evaluate(&mut self) -> (r: GateResult) {
        self.outputs[0] = reduce_xor(self.inputs.as_slice());
        GateResult { outputs: slice_to_vec(self.outputs.as_slice()), delay: self.delay }
    }

    fn reset(&mut self) {
        self.inputs = unknown_states(self.inputs.len());
        self.outputs = unknown_states(1);
    }

    fn toggle(&mut self) {
    }
}

/// Complement of the AND of all inputs, folded from the left.
pub struct NandGate {
    id: String,
    inputs: Vec<StateType>,
    outputs: Vec<StateType>,
    delay: u64,
}

impl NandGate {
    pub fn new(id: String, input_count: usize, delay: u64) -> (r: NandGate)
        ensures
            r.wf(),
            r.spec_id() == id@,
            r.spec_inputs() == unknowns(input_count as nat),
            r.spec_outputs() == unknowns(1),
            r.spec_delay() == delay,
    {
        NandGate {
            id,
            inputs: unknown_states(input_count),
            outputs: unknown_states(1),
            delay,
        }
    }
}

impl Gate for NandGate {
    closed spec fn spec_id(&self) -> Seq<char> {
        self.id@
    }

    open spec fn spec_kind(&self) -> Seq<char> {
        "NAND"@
    }

    closed spec fn spec_inputs(&self) -> Seq<StateType> {
        self.inputs@
    }

    closed spec fn spec_outputs(&self) -> Seq<StateType> {
        self.outputs@
    }

    closed spec fn spec_delay(&self) -> u64 {
        self.delay
    }

    open spec fn spec_level(&self) -> StateType {
        StateType::Zero
    }

    open spec fn spec_toggled_level(&self) -> StateType {
        StateType::Zero
    }

    open spec fn spec_reset_outputs(&self) -> Seq<StateType> {
        unknowns(1)
    }

    open spec fn spec_evaluated(&self) -> Seq<StateType> {
        seq![not_spec(and_fold(self.spec_inputs()))]
    }

    closed spec fn wf(&self) -> bool {
        self.outputs@.len() == 1
    }

    fn id(&self) -> (r: &str) {
        self.id.as_str()
    }

    fn gate_type(&self) -> (r: &str) {
        "NAND"
    }

    fn input_count(&self) -> (r: usize) {
        self.inputs.len()
    }

    fn output_count(&self) -> (r: usize) {
        1
    }

    fn get_inputs(&self) -> (r: &[StateType]) {
        self.inputs.as_slice()
    }

    fn get_outputs(&self) -> (r: &[StateType]) {
        self.outputs.as_slice()
    }

    fn delay(&self) -> (r: u64) {
        self.delay
    }

    fn set_input(&mut self, index: usize, state: StateType) {
        if index < self.inputs.len() {
            self.inputs[index] = state;
        }
    }

    fn evaluate(&mut self) -> (r: GateResult) {
        self.outputs[0] = reduce_and(self.inputs.as_slice()).not();
        GateResult { outputs: slice_to_vec(self.outputs.as_slice()), delay: self.delay }
    }

    fn reset(&mut self) {
        self.inputs = unknown_states(self.inputs.len());
        self.outputs = unknown_states(1);
    }

    fn toggle(&mut self) {
    }
}

/// Complement of the OR of all inputs, folded from the left.
pub struct NorGate {
    id: String,
    inputs: Vec<StateType>,
    outputs: Vec<StateType>,
    delay: u64,
}

impl NorGate {
    pub fn new(id: String, input_count: usize, delay: u64) -> (r: NorGate)
        ensures
            r.wf(),
            r.spec_id() == id@,
            r.spec_inputs() == unknowns(input_count as nat),
            r.spec_outputs() == unknowns(1),
            r.spec_delay() == delay,
    {
        NorGate {
            id,
            inputs: unknown_states(input_count),
            outputs: unknown_states(1),
            delay,
        }
    }
}

impl Gate for NorGate {
    closed spec fn spec_id(&self) -> Seq<char> {
        self.id@
    }

    open spec fn spec_kind(&self) -> Seq<char> {
        "NOR"@
    }

    closed spec fn spec_inputs(&self) -> Seq<StateType> {
        self.inputs@
    }

    closed spec fn spec_outputs(&self) -> Seq<StateType> {
        self.outputs@
    }

    closed spec fn spec_delay(&self) -> u64 {
        self.delay
    }

    open spec fn spec_level(&self) -> StateType {
        StateType::Zero
    }

    open spec fn spec_toggled_level(&self) -> StateType {
        StateType::Zero
    }

    open spec fn spec_reset_outputs(&self) -> Seq<StateType> {
        unknowns(1)
    }

    open spec fn spec_evaluated(&self) -> Seq<StateType> {
        seq![not_spec(or_fold(self.spec_inputs()))]
    }

    closed spec fn wf(&self) -> bool {
        self.outputs@.len() == 1
    }

    fn id(&self) -> (r: &str) {
        self.id.as_str()
    }

    fn gate_type(&self) -> (r: &str) {
        "NOR"
    }

    fn input_count(&self) -> (r: usize) {
        self.inputs.len()
    }

    fn output_count(&self) -> (r: usize) {
        1
    }

    fn get_inputs(&self) -> (r: &[StateType]) {
        self.inputs.as_slice()
    }

    fn get_outputs(&self) -> (r: &[StateType]) {
        self.outputs.as_slice()
    }

    fn delay(&self) -> (r: u64) {
        self.delay
    }

    fn set_input(&mut self, index: usize, state: StateType) {
        if index < self.inputs.len() {
            self.inputs[index] = state;
        }
    }

    fn evaluate(&mut self) -> (r: GateResult) {
        self.outputs[0] = reduce_or(self.inputs.as_slice()).not();
        GateResult { outputs: slice_to_vec(self.outputs.as_slice()), delay: self.delay }
    }

    fn reset(&mut self) {
        self.inputs = unknown_states(self.inputs.len());
        self.outputs = unknown_states(1);
    }

    fn toggle(&mut self) {
    }
}

/// Complement of the XOR of all inputs, folded from the left.
pub struct XnorGate {
    id: String,
    inputs: Vec<StateType>,
    outputs: Vec<StateType>,
    delay: u64,
}

impl XnorGate {
    pub fn new(id: String, input_count: usize, delay: u64) -> (r: XnorGate)
        ensures
            r.wf(),
            r.spec_id() == id@,
            r.spec_inputs() == unknowns(input_count as nat),
            r.spec_outputs() == unknowns(1),
            r.spec_delay() == delay,
    {
        XnorGate {
            id,
            inputs: unknown_states(input_count),
            outputs: unknown_states(1),
            delay,
        }
    }
}

impl Gate for XnorGate {
    closed spec fn spec_id(&self) -> Seq<char> {
        self.id@
    }

    open spec fn spec_kind(&self) -> Seq<char> {
        "XNOR"@
    }

    closed spec fn spec_inputs(&self) -> Seq<StateType> {
        self.inputs@
    }

    closed spec fn spec_outputs(&self) -> Seq<StateType> {
        self.outputs@
    }

    closed spec fn spec_delay(&self) -> u64 {
        self.delay
    }

    open spec fn spec_level(&self) -> StateType {
        StateType::Zero
    }

    open spec fn spec_toggled_level(&self) -> StateType {
        StateType::Zero
    }

    open spec fn spec_reset_outputs(&self) -> Seq<StateType> {
        unknowns(1)
    }

    open spec fn spec_evaluated(&self) -> Seq<StateType> {
        seq![not_spec(xor_fold(self.spec_inputs()))]
    }

    closed spec fn wf(&self) -> bool {
        self.outputs@.len() == 1
    }

    fn id(&self) -> (r: &str) {
        self.id.as_str()
    }

    fn gate_type(&self) -> (r: &str) {
        "XNOR"
    }

    fn input_count(&self) -> (r: usize) {
        self.inputs.len()
    }

    fn output_count(&self) -> (r: usize) {
        1
    }

    fn get_inputs(&self) -> (r: &[StateType]) {
        self.inputs.as_slice()
    }

    fn get_outputs(&self) -> (r: &[StateType]) {
        self.outputs.as_slice()
    }

    fn delay(&self) -> (r: u64) {
        self.delay
    }

    fn set_input(&mut self, index: usize, state: StateType) {
        if index < self.inputs.len() {
            self.inputs[index] = state;
        }
    }

    fn evaluate(&mut self) -> (r: GateResult) {
        self.outputs[0] = reduce_xor(self.inputs.as_slice()).not();
        GateResult { outputs: slice_to_vec(self.outputs.as_slice()), delay: self.delay }
    }

    fn reset(&mut self) {
        self.inputs = unknown_states(self.inputs.len());
        self.outputs = unknown_states(1);
    }

    fn toggle(&mut self) {
    }
}

/// The complement of its one input.
pub struct NotGate {
    id: String,
    inputs: Vec<StateType>,
    outputs: Vec<StateType>,
    delay: u64,
}

impl NotGate {
    pub fn new(id: String, delay: u64) -> (r: NotGate)
        ensures
            r.wf(),
            r.spec_id() == id@,
            r.spec_inputs() == unknowns(1),
            r.spec_outputs() == unknowns(1),
            r.spec_delay() == delay,
    {
        NotGate {
            id,
            inputs: unknown_states(1),
            outputs: unknown_states(1),
            delay,
        }
    }
}

impl Gate for NotGate {
    closed spec fn spec_id(&self) -> Seq<char> {
        self.id@
    }

    open spec fn spec_kind(&self) -> Seq<char> {
        "NOT"@
    }

    closed spec fn spec_inputs(&self) -> Seq<StateType> {
        self.inputs@
    }

    closed spec fn spec_outputs(&self) -> Seq<StateType> {
        self.outputs@
    }

    closed spec fn spec_delay(&self) -> u64 {
        self.delay
    }

    open spec fn spec_level(&self) -> StateType {
        StateType::Zero
    }

    open spec fn spec_toggled_level(&self) -> StateType {
        StateType::Zero
    }

    open spec fn spec_reset_outputs(&self) -> Seq<StateType> {
        unknowns(1)
    }

    open spec fn spec_evaluated(&self) -> Seq<StateType> {
        seq![not_spec(first_or_unknown(self.spec_inputs()))]
    }

    closed spec fn wf(&self) -> bool {
        self.inputs@.len() == 1 && self.outputs@.len() == 1
    }

    fn id(&self) -> (r: &str) {
        self.id.as_str()
    }

    fn gate_type(&self) -> (r: &str) {
        "NOT"
    }

    fn input_count(&self) -> (r: usize) {
        1
    }

    fn output_count(&self) -> (r: usize) {
        1
    }

    fn get_inputs(&self) -> (r: &[StateType]) {
        self.inputs.as_slice()
    }

    fn get_outputs(&self) -> (r: &[StateType]) {
        self.outputs.as_slice()
    }

    fn delay(&self) -> (r: u64) {
        self.delay
    }

    fn set_input(&mut self, index: usize, state: StateType) {
        if index < self.inputs.len() {
            self.inputs[index] = state;
        }
    }

    fn evaluate(&mut self) -> (r: GateResult) {
        self.outputs[0] = self.inputs[0].not();
        GateResult { outputs: slice_to_vec(self.outputs.as_slice()), delay: self.delay }
    }

    fn reset(&mut self) {
        self.inputs = unknown_states(self.inputs.len());
        self.outputs = unknown_states(1);
    }

    fn toggle(&mut self) {
    }
}

/// Passes its one input through.
pub struct BufferGate {
    id: String,
    inputs: Vec<StateType>,
    outputs: Vec<StateType>,
    delay: u64,
}

impl BufferGate {
    pub fn new(id: String, delay: u64) -> (r: BufferGate)
        ensures
            r.wf(),
            r.spec_id() == id@,
            r.spec_inputs() == unknowns(1),
            r.spec_outputs() == unknowns(1),
            r.spec_delay() == delay,
    {
        BufferGate {
            id,
            inputs: unknown_states(1),
            outputs: unknown_states(1),
            delay,
        }
    }
}

impl Gate for BufferGate {
    closed spec fn spec_id(&self) -> Seq<char> {
        self.id@
    }

    open spec fn spec_kind(&self) -> Seq<char> {
        "BUFFER"@
    }

    closed spec fn spec_inputs(&self) -> Seq<StateType> {
        self.inputs@
    }

    closed spec fn spec_outputs(&self) -> Seq<StateType> {
        self.outputs@
    }

    closed spec fn spec_delay(&self) -> u64 {
        self.delay
    }

    open spec fn spec_level(&self) -> StateType {
        StateType::Zero
    }

    open spec fn spec_toggled_level(&self) -> StateType {
        StateType::Zero
    }

    open spec fn spec_reset_outputs(&self) -> Seq<StateType> {
        unknowns(1)
    }

    open spec fn spec_evaluated(&self) -> Seq<StateType> {
        seq![first_or_unknown(self.spec_inputs())]
    }

    closed spec fn wf(&self) -> bool {
        self.inputs@.len() == 1 && self.outputs@.len() == 1
    }

    fn id(&self) -> (r: &str) {
        self.id.as_str()
    }

    fn gate_type(&self) -> (r: &str) {
        "BUFFER"
    }

    fn input_count(&self) -> (r: usize) {
        1
    }

    fn output_count(&self) -> (r: usize) {
        1
    }

    fn get_inputs(&self) -> (r: &[StateType]) {
        self.inputs.as_slice()
    }

    fn get_outputs(&self) -> (r: &[StateType]) {
        self.outputs.as_slice()
    }

    fn delay(&self) -> (r: u64) {
        self.delay
    }

    fn set_input(&mut self, index: usize, state: StateType) {
        if index < self.inputs.len() {
            self.inputs[index] = state;
        }
    }

    fn evaluate(&mut self) -> (r: GateResult) {
        self.outputs[0] = self.inputs[0];
        GateResult { outputs: slice_to_vec(self.outputs.as_slice()), delay: self.delay }
    }

    fn reset(&mut self) {
        self.inputs = unknown_states(self.inputs.len());
        self.outputs = unknown_states(1);
    }

    fn toggle(&mut self) {
    }
}

/// Input 0 is data, input 1 enables: disabled, the output floats.
pub struct TriBufferGate {
    id: String,
    inputs: Vec<StateType>,
    outputs: Vec<StateType>,
    delay: u64,
}

impl TriBufferGate {
    pub fn new(id: String, delay: u64) -> (r: TriBufferGate)
        ensures
            r.wf(),
            r.spec_id() == id@,
            r.spec_inputs() == unknowns(2),
            r.spec_outputs() == unknowns(1),
            r.spec_delay() == delay,
    {
        TriBufferGate {
            id,
            inputs: unknown_states(2),
            outputs: unknown_states(1),
            delay,
        }
    }
}

impl Gate for TriBufferGate {
    closed spec fn spec_id(&self) -> Seq<char> {
        self.id@
    }

    open spec fn spec_kind(&self) -> Seq<char> {
        "TRI_BUFFER"@
    }

    closed spec fn spec_inputs(&self) -> Seq<StateType> {
        self.inputs@
    }

    closed spec fn spec_outputs(&self) -> Seq<StateType> {
        self.outputs@
    }

    closed spec fn spec_delay(&self) -> u64 {
        self.delay
    }

    open spec fn spec_level(&self) -> StateType {
        StateType::Zero
    }

    open spec fn spec_toggled_level(&self) -> StateType {
        StateType::Zero
    }

    open spec fn spec_reset_outputs(&self) -> Seq<StateType> {
        unknowns(1)
    }

    open spec fn spec_evaluated(&self) -> Seq<StateType> {
        seq![tri_state_spec(self.spec_inputs()[0], self.spec_inputs()[1])]
    }

    closed spec fn wf(&self) -> bool {
        self.inputs@.len() == 2 && self.outputs@.len() == 1
    }

    fn id(&self) -> (r: &str) {
        self.id.as_str()
    }

    fn gate_type(&self) -> (r: &str) {
        "TRI_BUFFER"
    }

    fn input_count(&self) -> (r: usize) {
        2
    }

    fn output_count(&self) -> (r: usize) {
        1
    }

    fn get_inputs(&self) -> (r: &[StateType]) {
        self.inputs.as_slice()
    }

    fn get_outputs(&self) -> (r: &[StateType]) {
        self.outputs.as_slice()
    }

    fn delay(&self) -> (r: u64) {
        self.delay
    }

    fn set_input(&mut self, index: usize, state: StateType) {
        if index < self.inputs.len() {
            self.inputs[index] = state;
        }
    }

    fn evaluate(&mut self) -> (r: GateResult) {
        let data = self.inputs[0];
        let enable = self.inputs[1];
        self.outputs[0] = match enable {
            StateType::One => data,
            StateType::Zero => StateType::HiZ,
            _ => StateType::Unknown,
        };
        GateResult { outputs: slice_to_vec(self.outputs.as_slice()), delay: self.delay }
    }

    fn reset(&mut self) {
        self.inputs = unknown_states(self.inputs.len());
        self.outputs = unknown_states(1);
    }

    fn toggle(&mut self) {
    }
}

/// What a tri-state buffer drives for the given data and enable levels.
pub open spec fn tri_state_spec(data: StateType, enable: StateType) -> StateType {
    match enable {
        StateType::One => data,
        StateType::Zero => StateType::HiZ,
        _ => StateType::Unknown,
    }
}
/// A switch that the user flips between `Zero` and `One`.
pub struct ToggleGate {
    id: String,
    inputs: Vec<StateType>,
    outputs: Vec<StateType>,
    state: StateType,
}

impl ToggleGate {
    pub fn new(id: String) -> (r: ToggleGate)
        ensures
            r.wf(),
            r.spec_id() == id@,
            r.spec_inputs() == Seq::<StateType>::empty(),
            r.spec_outputs() == seq![StateType::Zero],
            r.spec_level() == StateType::Zero,
    {
        let mut outputs: Vec<StateType> = Vec::new();
        outputs.push(StateType::Zero);
        ToggleGate { id, inputs: Vec::new(), outputs, state: StateType::Zero }
    }
}

impl Gate for ToggleGate {
    closed spec fn spec_id(&self) -> Seq<char> {
        self.id@
    }

    open spec fn spec_kind(&self) -> Seq<char> {
        "TOGGLE"@
    }

    closed spec fn spec_inputs(&self) -> Seq<StateType> {
        self.inputs@
    }

    closed spec fn spec_outputs(&self) -> Seq<StateType> {
        self.outputs@
    }

    open spec fn spec_delay(&self) -> u64 {
        0
    }

    closed spec fn spec_level(&self) -> StateType {
        self.state
    }

    open spec fn spec_toggled_level(&self) -> StateType {
        if self.spec_level() == StateType::Zero {
            StateType::One
        } else {
            StateType::Zero
        }
    }

    open spec fn spec_evaluated(&self) -> Seq<StateType> {
        seq![self.spec_level()]
    }

    open spec fn spec_reset_outputs(&self) -> Seq<StateType> {
        seq![StateType::Zero]
    }

    closed spec fn wf(&self) -> bool {
        self.inputs@.len() == 0 && self.outputs@.len() == 1
    }

    fn id(&self) -> (r: &str) {
        self.id.as_str()
    }

    fn gate_type(&self) -> (r: &str) {
        "TOGGLE"
    }

    fn input_count(&self) -> (r: usize) {
        0
    }

    fn output_count(&self) -> (r: usize) {
        1
    }

    fn get_inputs(&self) -> (r: &[StateType]) {
        self.inputs.as_slice()
    }

    fn get_outputs(&self) -> (r: &[StateType]) {
        self.outputs.as_slice()
    }

    fn delay(&self) -> (r: u64) {
        0
    }

    fn set_input(&mut self, index: usize, state: StateType) {
    }

    fn evaluate(&mut self) -> (r: GateResult) {
        self.outputs[0] = self.state;
        GateResult { outputs: slice_to_vec(self.outputs.as_slice()), delay: 0 }
    }

    fn reset(&mut self) {
        self.state = StateType::Zero;
        self.outputs[0] = StateType::Zero;
        assert(self.inputs@ =~= unknowns(0));
    }

    fn toggle(&mut self) {
        self.state = if self.state == StateType::Zero {
            StateType::One
        } else {
            StateType::Zero
        };
    }
}

/// The level a clock of the given period shows at `time`.
pub open spec fn clock_level(time: u64, period: u64) -> StateType {
    if (time / period) % 2 == 0 {
        StateType::Zero
    } else {
        StateType::One
    }
}

/// A square-wave source whose level is set by `tick`.
pub struct ClockGate {
    id: String,
    inputs: Vec<StateType>,
    outputs: Vec<StateType>,
    period: u64,
    state: StateType,
}

impl ClockGate {
    /// The half-period, in ticks.
    pub closed spec fn spec_period(&self) -> u64 {
        self.period
    }

    pub fn new(id: String) -> (r: ClockGate)
        ensures
            r.wf(),
            r.spec_id() == id@,
            r.spec_inputs() == Seq::<StateType>::empty(),
            r.spec_outputs() == seq![StateType::Zero],
            r.spec_level() == StateType::Zero,
            r.spec_period() == 10,
    {
        let mut outputs: Vec<StateType> = Vec::new();
        outputs.push(StateType::Zero);
        ClockGate { id, inputs: Vec::new(), outputs, period: 10, state: StateType::Zero }
    }

    /// Sets the level for `time`: `Zero` in even periods, `One` in odd ones.
    pub fn tick(&mut self, time: u64) -> (r: StateType)
        requires
            old(self).wf(),
        ensures
            final(self).wf(),
            r == clock_level(time, old(self).spec_period()),
            final(self).spec_level() == r,
            final(self).spec_outputs() == seq![r],
            final(self).spec_period() == old(self).spec_period(),
            final(self).spec_inputs() == old(self).spec_inputs(),
            final(self).spec_id() == old(self).spec_id(),
    {
        let new_state = if (time / self.period) % 2 == 0 {
            StateType::Zero
        } else {
            StateType::One
        };
        self.state = new_state;
        self.outputs[0] = new_state;
        proof {
            assert(self.outputs@ =~= seq![new_state]);
        }
        new_state
    }

    /// Moves the level to the one for `time` and leaves the outputs to the next
    /// evaluation; tells whether the level changed.
    pub fn advance(&mut self, time: u64) -> (changed: bool)
        requires
            old(self).wf(),
        ensures
            final(self).wf(),
            final(self).spec_level() == clock_level(time, old(self).spec_period()),
            changed == (final(self).spec_level() != old(self).spec_level()),
            final(self).spec_period() == old(self).spec_period(),
            final(self).spec_inputs() == old(self).spec_inputs(),
            final(self).spec_outputs() == old(self).spec_outputs(),
            final(self).spec_id() == old(self).spec_id(),
    {
        let level = if (time / self.period) % 2 == 0 {
            StateType::Zero
        } else {
            StateType::One
        };
        let changed = level != self.state;
        self.state = level;
        changed
    }
}

impl Gate for ClockGate {
    closed spec fn spec_id(&self) -> Seq<char> {
        self.id@
    }

    open spec fn spec_kind(&self) -> Seq<char> {
        "CLOCK"@
    }

    closed spec fn spec_inputs(&self) -> Seq<StateType> {
        self.inputs@
    }

    closed spec fn spec_outputs(&self) -> Seq<StateType> {
        self.outputs@
    }

    open spec fn spec_delay(&self) -> u64 {
        0
    }

    closed spec fn spec_level(&self) -> StateType {
        self.state
    }

    open spec fn spec_toggled_level(&self) -> StateType {
        self.spec_level()
    }

    open spec fn spec_evaluated(&self) -> Seq<StateType> {
        seq![self.spec_level()]
    }

    open spec fn spec_reset_outputs(&self) -> Seq<StateType> {
        seq![StateType::Zero]
    }

    closed spec fn wf(&self) -> bool {
        self.inputs@.len() == 0 && self.outputs@.len() == 1 && self.period > 0
    }

    fn id(&self) -> (r: &str) {
        self.id.as_str()
    }

    fn gate_type(&self) -> (r: &str) {
        "CLOCK"
    }

    fn input_count(&self) -> (r: usize) {
        0
    }

    fn output_count(&self) -> (r: usize) {
        1
    }

    fn get_inputs(&self) -> (r: &[StateType]) {
        self.inputs.as_slice()
    }

    fn get_outputs(&self) -> (r: &[StateType]) {
        self.outputs.as_slice()
    }

    fn delay(&self) -> (r: u64) {
        0
    }

    fn set_input(&mut self, index: usize, state: StateType) {
    }

    fn evaluate(&mut self) -> (r: GateResult) {
        self.outputs[0] = self.state;
        GateResult { outputs: slice_to_vec(self.outputs.as_slice()), delay: 0 }
    }

    fn reset(&mut self) {
        self.state = StateType::Zero;
        self.outputs[0] = StateType::Zero;
        assert(self.inputs@ =~= unknowns(0));
    }

    fn toggle(&mut self) {
    }
}

/// A momentary button: `One` while active.
pub struct PulseGate {
    id: String,
    inputs: Vec<StateType>,
    outputs: Vec<StateType>,
    active: bool,
    pulse_end_time: u64,
}

impl PulseGate {
    pub fn new(id: String) -> (r: PulseGate)
        ensures
            r.wf(),
            r.spec_id() == id@,
            r.spec_inputs() == Seq::<StateType>::empty(),
            r.spec_outputs() == seq![StateType::Zero],
            r.spec_level() == StateType::Zero,
    {
        let mut outputs: Vec<StateType> = Vec::new();
        outputs.push(StateType::Zero);
        PulseGate { id, inputs: Vec::new(), outputs, active: false, pulse_end_time: 0 }
    }
}

impl Gate for PulseGate {
    closed spec fn spec_id(&self) -> Seq<char> {
        self.id@
    }

    open spec fn spec_kind(&self) -> Seq<char> {
        "PULSE"@
    }

    closed spec fn spec_inputs(&self) -> Seq<StateType> {
        self.inputs@
    }

    closed spec fn spec_outputs(&self) -> Seq<StateType> {
        self.outputs@
    }

    open spec fn spec_delay(&self) -> u64 {
        0
    }

    closed spec fn spec_level(&self) -> StateType {
        if self.active {
            StateType::One
        } else {
            StateType::Zero
        }
    }

    open spec fn spec_toggled_level(&self) -> StateType {
        self.spec_level()
    }

    open spec fn spec_evaluated(&self) -> Seq<StateType> {
        seq![self.spec_level()]
    }

    open spec fn spec_reset_outputs(&self) -> Seq<StateType> {
        seq![StateType::Zero]
    }

    closed spec fn wf(&self) -> bool {
        self.inputs@.len() == 0 && self.outputs@.len() == 1
    }

    fn id(&self) -> (r: &str) {
        self.id.as_str()
    }

    fn gate_type(&self) -> (r: &str) {
        "PULSE"
    }

    fn input_count(&self) -> (r: usize) {
        0
    }

    fn output_count(&self) -> (r: usize) {
        1
    }

    fn get_inputs(&self) -> (r: &[StateType]) {
        self.inputs.as_slice()
    }

    fn get_outputs(&self) -> (r: &[StateType]) {
        self.outputs.as_slice()
    }

    fn delay(&self) -> (r: u64) {
        0
    }

    fn set_input(&mut self, index: usize, state: StateType) {
    }

    fn evaluate(&mut self) -> (r: GateResult) {
        self.outputs[0] = if self.active {
            StateType::One
        } else {
            StateType::Zero
        };
        GateResult { outputs: slice_to_vec(self.outputs.as_slice()), delay: 0 }
    }

    fn reset(&mut self) {
        self.active = false;
        self.outputs[0] = StateType::Zero;
        assert(self.inputs@ =~= unknowns(0));
    }

    fn toggle(&mut self) {
    }
}

/// A lamp: one input, kept for inspection, and no output.
pub struct LedGate {
    id: String,
    inputs: Vec<StateType>,
    outputs: Vec<StateType>,
}

impl LedGate {
    pub fn new(id: String) -> (r: LedGate)
        ensures
            r.wf(),
            r.spec_id() == id@,
            r.spec_inputs() == unknowns(1),
            r.spec_outputs() == Seq::<StateType>::empty(),
    {
        LedGate { id, inputs: unknown_states(1), outputs: Vec::new() }
    }
}

impl Gate for LedGate {
    closed spec fn spec_id(&self) -> Seq<char> {
        self.id@
    }

    open spec fn spec_kind(&self) -> Seq<char> {
        "LED"@
    }

    closed spec fn spec_inputs(&self) -> Seq<StateType> {
        self.inputs@
    }

    closed spec fn spec_outputs(&self) -> Seq<StateType> {
        self.outputs@
    }

    open spec fn spec_delay(&self) -> u64 {
        0
    }

    open spec fn spec_level(&self) -> StateType {
        StateType::Zero
    }

    open spec fn spec_toggled_level(&self) -> StateType {
        StateType::Zero
    }

    open spec fn spec_evaluated(&self) -> Seq<StateType> {
        Seq::empty()
    }

    open spec fn spec_reset_outputs(&self) -> Seq<StateType> {
        Seq::empty()
    }

    closed spec fn wf(&self) -> bool {
        self.inputs@.len() == 1 && self.outputs@.len() == 0
    }

    fn id(&self) -> (r: &str) {
        self.id.as_str()
    }

    fn gate_type(&self) -> (r: &str) {
        "LED"
    }

    fn input_count(&self) -> (r: usize) {
        1
    }

    fn output_count(&self) -> (r: usize) {
        0
    }

    fn get_inputs(&self) -> (r: &[StateType]) {
        self.inputs.as_slice()
    }

    fn get_outputs(&self) -> (r: &[StateType]) {
        self.outputs.as_slice()
    }

    fn delay(&self) -> (r: u64) {
        0
    }

    fn set_input(&mut self, index: usize, state: StateType) {
        if index < self.inputs.len() {
            self.inputs[index] = state;
        }
    }

    fn evaluate(&mut self) -> (r: GateResult) {
        GateResult { outputs: Vec::new(), delay: 0 }
    }

    fn reset(&mut self) {
        self.inputs = unknown_states(1);
    }

    fn toggle(&mut self) {
    }
}

/// Any gate of the library, tagged by its kind.
pub enum AnyGate {
    And(AndGate),
    Or(OrGate),
    Not(NotGate),
    Xor(XorGate),
    Nand(NandGate),
    Nor(NorGate),
    Xnor(XnorGate),
    Buffer(BufferGate),
    TriBuffer(TriBufferGate),
    Toggle(ToggleGate),
    Clock(ClockGate),
    Pulse(PulseGate),
    Led(LedGate),
}

impl Gate for AnyGate {
    open spec fn spec_id(&self) -> Seq<char> {
        match self {
            AnyGate::And(g) => g.spec_id(),
            AnyGate::Or(g) => g.spec_id(),
            AnyGate::Not(g) => g.spec_id(),
            AnyGate::Xor(g) => g.spec_id(),
            AnyGate::Nand(g) => g.spec_id(),
            AnyGate::Nor(g) => g.spec_id(),
            AnyGate::Xnor(g) => g.spec_id(),
            AnyGate::Buffer(g) => g.spec_id(),
            AnyGate::TriBuffer(g) => g.spec_id(),
            AnyGate::Toggle(g) => g.spec_id(),
            AnyGate::Clock(g) => g.spec_id(),
            AnyGate::Pulse(g) => g.spec_id(),
            AnyGate::Led(g) => g.spec_id(),
        }
    }

    open spec fn spec_kind(&self) -> Seq<char> {
        match self {
            AnyGate::And(g) => g.spec_kind(),
            AnyGate::Or(g) => g.spec_kind(),
            AnyGate::Not(g) => g.spec_kind(),
            AnyGate::Xor(g) => g.spec_kind(),
            AnyGate::Nand(g) => g.spec_kind(),
            AnyGate::Nor(g) => g.spec_kind(),
            AnyGate::Xnor(g) => g.spec_kind(),
            AnyGate::Buffer(g) => g.spec_kind(),
            AnyGate::TriBuffer(g) => g.spec_kind(),
            AnyGate::Toggle(g) => g.spec_kind(),
            AnyGate::Clock(g) => g.spec_kind(),
            AnyGate::Pulse(g) => g.spec_kind(),
            AnyGate::Led(g) => g.spec_kind(),
        }
    }

    open spec fn spec_inputs(&self) -> Seq<StateType> {
        match self {
            AnyGate::And(g) => g.spec_inputs(),
            AnyGate::Or(g) => g.spec_inputs(),
            AnyGate::Not(g) => g.spec_inputs(),
            AnyGate::Xor(g) => g.spec_inputs(),
            AnyGate::Nand(g) => g.spec_inputs(),
            AnyGate::Nor(g) => g.spec_inputs(),
            AnyGate::Xnor(g) => g.spec_inputs(),
            AnyGate::Buffer(g) => g.spec_inputs(),
            AnyGate::TriBuffer(g) => g.spec_inputs(),
            AnyGate::Toggle(g) => g.spec_inputs(),
            AnyGate::Clock(g) => g.spec_inputs(),
            AnyGate::Pulse(g) => g.spec_inputs(),
            AnyGate::Led(g) => g.spec_inputs(),
        }
    }

    open spec fn spec_outputs(&self) -> Seq<StateType> {
        match self {
            AnyGate::And(g) => g.spec_outputs(),
            AnyGate::Or(g) => g.spec_outputs(),
            AnyGate::Not(g) => g.spec_outputs(),
            AnyGate::Xor(g) => g.spec_outputs(),
            AnyGate::Nand(g) => g.spec_outputs(),
            AnyGate::Nor(g) => g.spec_outputs(),
            AnyGate::Xnor(g) => g.spec_outputs(),
            AnyGate::Buffer(g) => g.spec_outputs(),
            AnyGate::TriBuffer(g) => g.spec_outputs(),
            AnyGate::Toggle(g) => g.spec_outputs(),
            AnyGate::Clock(g) => g.spec_outputs(),
            AnyGate::Pulse(g) => g.spec_outputs(),
            AnyGate::Led(g) => g.spec_outputs(),
        }
    }

    open spec fn spec_delay(&self) -> u64 {
        match self {
            AnyGate::And(g) => g.spec_delay(),
            AnyGate::Or(g) => g.spec_delay(),
            AnyGate::Not(g) => g.spec_delay(),
            AnyGate::Xor(g) => g.spec_delay(),
            AnyGate::Nand(g) => g.spec_delay(),
            AnyGate::Nor(g) => g.spec_delay(),
            AnyGate::Xnor(g) => g.spec_delay(),
            AnyGate::Buffer(g) => g.spec_delay(),
            AnyGate::TriBuffer(g) => g.spec_delay(),
            AnyGate::Toggle(g) => g.spec_delay(),
            AnyGate::Clock(g) => g.spec_delay(),
            AnyGate::Pulse(g) => g.spec_delay(),
            AnyGate::Led(g) => g.spec_delay(),
        }
    }

    open spec fn spec_level(&self) -> StateType {
        match self {
            AnyGate::And(g) => g.spec_level(),
            AnyGate::Or(g) => g.spec_level(),
            AnyGate::Not(g) => g.spec_level(),
            AnyGate::Xor(g) => g.spec_level(),
            AnyGate::Nand(g) => g.spec_level(),
            AnyGate::Nor(g) => g.spec_level(),
            AnyGate::Xnor(g) => g.spec_level(),
            AnyGate::Buffer(g) => g.spec_level(),
            AnyGate::TriBuffer(g) => g.spec_level(),
            AnyGate::Toggle(g) => g.spec_level(),
            AnyGate::Clock(g) => g.spec_level(),
            AnyGate::Pulse(g) => g.spec_level(),
            AnyGate::Led(g) => g.spec_level(),
        }
    }

    open spec fn spec_evaluated(&self) -> Seq<StateType> {
        match self {
            AnyGate::And(g) => g.spec_evaluated(),
            AnyGate::Or(g) => g.spec_evaluated(),
            AnyGate::Not(g) => g.spec_evaluated(),
            AnyGate::Xor(g) => g.spec_evaluated(),
            AnyGate::Nand(g) => g.spec_evaluated(),
            AnyGate::Nor(g) => g.spec_evaluated(),
            AnyGate::Xnor(g) => g.spec_evaluated(),
            AnyGate::Buffer(g) => g.spec_evaluated(),
            AnyGate::TriBuffer(g) => g.spec_evaluated(),
            AnyGate::Toggle(g) => g.spec_evaluated(),
            AnyGate::Clock(g) => g.spec_evaluated(),
            AnyGate::Pulse(g) => g.spec_evaluated(),
            AnyGate::Led(g) => g.spec_evaluated(),
        }
    }

    open spec fn spec_toggled_level(&self) -> StateType {
        match self {
            AnyGate::And(g) => g.spec_toggled_level(),
            AnyGate::Or(g) => g.spec_toggled_level(),
            AnyGate::Not(g) => g.spec_toggled_level(),
            AnyGate::Xor(g) => g.spec_toggled_level(),
            AnyGate::Nand(g) => g.spec_toggled_level(),
            AnyGate::Nor(g) => g.spec_toggled_level(),
            AnyGate::Xnor(g) => g.spec_toggled_level(),
            AnyGate::Buffer(g) => g.spec_toggled_level(),
            AnyGate::TriBuffer(g) => g.spec_toggled_level(),
            AnyGate::Toggle(g) => g.spec_toggled_level(),
            AnyGate::Clock(g) => g.spec_toggled_level(),
            AnyGate::Pulse(g) => g.spec_toggled_level(),
            AnyGate::Led(g) => g.spec_toggled_level(),
        }
    }

    open spec fn spec_reset_outputs(&self) -> Seq<StateType> {
        match self {
            AnyGate::And(g) => g.spec_reset_outputs(),
            AnyGate::Or(g) => g.spec_reset_outputs(),
            AnyGate::Not(g) => g.spec_reset_outputs(),
            AnyGate::Xor(g) => g.spec_reset_outputs(),
            AnyGate::Nand(g) => g.spec_reset_outputs(),
            AnyGate::Nor(g) => g.spec_reset_outputs(),
            AnyGate::Xnor(g) => g.spec_reset_outputs(),
            AnyGate::Buffer(g) => g.spec_reset_outputs(),
            AnyGate::TriBuffer(g) => g.spec_reset_outputs(),
            AnyGate::Toggle(g) => g.spec_reset_outputs(),
            AnyGate::Clock(g) => g.spec_reset_outputs(),
            AnyGate::Pulse(g) => g.spec_reset_outputs(),
            AnyGate::Led(g) => g.spec_reset_outputs(),
        }
    }

    open spec fn wf(&self) -> bool {
        match self {
            AnyGate::And(g) => g.wf(),
            AnyGate::Or(g) => g.wf(),
            AnyGate::Not(g) => g.wf(),
            AnyGate::Xor(g) => g.wf(),
            AnyGate::Nand(g) => g.wf(),
            AnyGate::Nor(g) => g.wf(),
            AnyGate::Xnor(g) => g.wf(),
            AnyGate::Buffer(g) => g.wf(),
            AnyGate::TriBuffer(g) => g.wf(),
            AnyGate::Toggle(g) => g.wf(),
            AnyGate::Clock(g) => g.wf(),
            AnyGate::Pulse(g) => g.wf(),
            AnyGate::Led(g) => g.wf(),
        }
    }

    fn id(&self) -> (r: &str) {
        match self {
            AnyGate::And(g) => g.id(),
            AnyGate::Or(g) => g.id(),
            AnyGate::Not(g) => g.id(),
            AnyGate::Xor(g) => g.id(),
            AnyGate::Nand(g) => g.id(),
            AnyGate::Nor(g) => g.id(),
            AnyGate::Xnor(g) => g.id(),
            AnyGate::Buffer(g) => g.id(),
            AnyGate::TriBuffer(g) => g.id(),
            AnyGate::Toggle(g) => g.id(),
            AnyGate::Clock(g) => g.id(),
            AnyGate::Pulse(g) => g.id(),
            AnyGate::Led(g) => g.id(),
        }
    }

    fn gate_type(&self) -> (r: &str) {
        match self {
            AnyGate::And(g) => g.gate_type(),
            AnyGate::Or(g) => g.gate_type(),
            AnyGate::Not(g) => g.gate_type(),
            AnyGate::Xor(g) => g.gate_type(),
            AnyGate::Nand(g) => g.gate_type(),
            AnyGate::Nor(g) => g.gate_type(),
            AnyGate::Xnor(g) => g.gate_type(),
            AnyGate::Buffer(g) => g.gate_type(),
            AnyGate::TriBuffer(g) => g.gate_type(),
            AnyGate::Toggle(g) => g.gate_type(),
            AnyGate::Clock(g) => g.gate_type(),
            AnyGate::Pulse(g) => g.gate_type(),
            AnyGate::Led(g) => g.gate_type(),
        }
    }

    fn input_count(&self) -> (r: usize) {
        match self {
            AnyGate::And(g) => g.input_count(),
            AnyGate::Or(g) => g.input_count(),
            AnyGate::Not(g) => g.input_count(),
            AnyGate::Xor(g) => g.input_count(),
            AnyGate::Nand(g) => g.input_count(),
            AnyGate::Nor(g) => g.input_count(),
            AnyGate::Xnor(g) => g.input_count(),
            AnyGate::Buffer(g) => g.input_count(),
            AnyGate::TriBuffer(g) => g.input_count(),
            AnyGate::Toggle(g) => g.input_count(),
            AnyGate::Clock(g) => g.input_count(),
            AnyGate::Pulse(g) => g.input_count(),
            AnyGate::Led(g) => g.input_count(),
        }
    }

    fn output_count(&self) -> (r: usize) {
        match self {
            AnyGate::And(g) => g.output_count(),
            AnyGate::Or(g) => g.output_count(),
            AnyGate::Not(g) => g.output_count(),
            AnyGate::Xor(g) => g.output_count(),
            AnyGate::Nand(g) => g.output_count(),
            AnyGate::Nor(g) => g.output_count(),
            AnyGate::Xnor(g) => g.output_count(),
            AnyGate::Buffer(g) => g.output_count(),
            AnyGate::TriBuffer(g) => g.output_count(),
            AnyGate::Toggle(g) => g.output_count(),
            AnyGate::Clock(g) => g.output_count(),
            AnyGate::Pulse(g) => g.output_count(),
            AnyGate::Led(g) => g.output_count(),
        }
    }

    fn get_inputs(&self) -> (r: &[StateType]) {
        match self {
            AnyGate::And(g) => g.get_inputs(),
            AnyGate::Or(g) => g.get_inputs(),
            AnyGate::Not(g) => g.get_inputs(),
            AnyGate::Xor(g) => g.get_inputs(),
            AnyGate::Nand(g) => g.get_inputs(),
            AnyGate::Nor(g) => g.get_inputs(),
            AnyGate::Xnor(g) => g.get_inputs(),
            AnyGate::Buffer(g) => g.get_inputs(),
            AnyGate::TriBuffer(g) => g.get_inputs(),
            AnyGate::Toggle(g) => g.get_inputs(),
            AnyGate::Clock(g) => g.get_inputs(),
            AnyGate::Pulse(g) => g.get_inputs(),
            AnyGate::Led(g) => g.get_inputs(),
        }
    }

    fn get_outputs(&self) -> (r: &[StateType]) {
        match self {
            AnyGate::And(g) => g.get_outputs(),
            AnyGate::Or(g) => g.get_outputs(),
            AnyGate::Not(g) => g.get_outputs(),
            AnyGate::Xor(g) => g.get_outputs(),
            AnyGate::Nand(g) => g.get_outputs(),
            AnyGate::Nor(g) => g.get_outputs(),
            AnyGate::Xnor(g) => g.get_outputs(),
            AnyGate::Buffer(g) => g.get_outputs(),
            AnyGate::TriBuffer(g) => g.get_outputs(),
            AnyGate::Toggle(g) => g.get_outputs(),
            AnyGate::Clock(g) => g.get_outputs(),
            AnyGate::Pulse(g) => g.get_outputs(),
            AnyGate::Led(g) => g.get_outputs(),
        }
    }

    fn set_input(&mut self, index: usize, state: StateType) {
        match self {
            AnyGate::And(g) => g.set_input(index, state),
            AnyGate::Or(g) => g.set_input(index, state),
            AnyGate::Not(g) => g.set_input(index, state),
            AnyGate::Xor(g) => g.set_input(index, state),
            AnyGate::Nand(g) => g.set_input(index, state),
            AnyGate::Nor(g) => g.set_input(index, state),
            AnyGate::Xnor(g) => g.set_input(index, state),
            AnyGate::Buffer(g) => g.set_input(index, state),
            AnyGate::TriBuffer(g) => g.set_input(index, state),
            AnyGate::Toggle(g) => g.set_input(index, state),
            AnyGate::Clock(g) => g.set_input(index, state),
            AnyGate::Pulse(g) => g.set_input(index, state),
            AnyGate::Led(g) => g.set_input(index, state),
        }
    }

    fn evaluate(&mut self) -> (r: GateResult) {
        match self {
            AnyGate::And(g) => g.evaluate(),
            AnyGate::Or(g) => g.evaluate(),
            AnyGate::Not(g) => g.evaluate(),
            AnyGate::Xor(g) => g.evaluate(),
            AnyGate::Nand(g) => g.evaluate(),
            AnyGate::Nor(g) => g.evaluate(),
            AnyGate::Xnor(g) => g.evaluate(),
            AnyGate::Buffer(g) => g.evaluate(),
            AnyGate::TriBuffer(g) => g.evaluate(),
            AnyGate::Toggle(g) => g.evaluate(),
            AnyGate::Clock(g) => g.evaluate(),
            AnyGate::Pulse(g) => g.evaluate(),
            AnyGate::Led(g) => g.evaluate(),
        }
    }

    fn reset(&mut self) {
        match self {
            AnyGate::And(g) => g.reset(),
            AnyGate::Or(g) => g.reset(),
            AnyGate::Not(g) => g.reset(),
            AnyGate::Xor(g) => g.reset(),
            AnyGate::Nand(g) => g.reset(),
            AnyGate::Nor(g) => g.reset(),
            AnyGate::Xnor(g) => g.reset(),
            AnyGate::Buffer(g) => g.reset(),
            AnyGate::TriBuffer(g) => g.reset(),
            AnyGate::Toggle(g) => g.reset(),
            AnyGate::Clock(g) => g.reset(),
            AnyGate::Pulse(g) => g.reset(),
            AnyGate::Led(g) => g.reset(),
        }
    }

    fn delay(&self) -> (r: u64) {
        match self {
            AnyGate::And(g) => g.delay(),
            AnyGate::Or(g) => g.delay(),
            AnyGate::Not(g) => g.delay(),
            AnyGate::Xor(g) => g.delay(),
            AnyGate::Nand(g) => g.delay(),
            AnyGate::Nor(g) => g.delay(),
            AnyGate::Xnor(g) => g.delay(),
            AnyGate::Buffer(g) => g.delay(),
            AnyGate::TriBuffer(g) => g.delay(),
            AnyGate::Toggle(g) => g.delay(),
            AnyGate::Clock(g) => g.delay(),
            AnyGate::Pulse(g) => g.delay(),
            AnyGate::Led(g) => g.delay(),
        }
    }

    fn toggle(&mut self) {
        match self {
            AnyGate::And(g) => g.toggle(),
            AnyGate::Or(g) => g.toggle(),
            AnyGate::Not(g) => g.toggle(),
            AnyGate::Xor(g) => g.toggle(),
            AnyGate::Nand(g) => g.toggle(),
            AnyGate::Nor(g) => g.toggle(),
            AnyGate::Xnor(g) => g.toggle(),
            AnyGate::Buffer(g) => g.toggle(),
            AnyGate::TriBuffer(g) => g.toggle(),
            AnyGate::Toggle(g) => g.toggle(),
            AnyGate::Clock(g) => g.toggle(),
            AnyGate::Pulse(g) => g.toggle(),
            AnyGate::Led(g) => g.toggle(),
        }
    }
}

/// The kinds of gate.
#[derive(Debug, Clone, Copy, PartialEq, Eq, Structural)]
pub enum GateKind {
    And,
    Or,
    Not,
    Xor,
    Nand,
    Nor,
    Xnor,
    Buffer,
    TriBuffer,
    Toggle,
    Clock,
    Pulse,
    Led,
}

/// The kind that a tag names; an unrecognised tag gives a buffer.
pub open spec fn kind_of_tag(tag: Seq<char>) -> GateKind {
    if tag == "AND"@ {
        GateKind::And
    } else if tag == "OR"@ {
        GateKind::Or
    } else if tag == "NOT"@ {
        GateKind::Not
    } else if tag == "XOR"@ {
        GateKind::Xor
    } else if tag == "NAND"@ {
        GateKind::Nand
    } else if tag == "NOR"@ {
        GateKind::Nor
    } else if tag == "XNOR"@ {
        GateKind::Xnor
    } else if tag == "BUFFER"@ {
        GateKind::Buffer
    } else if tag == "TRI_BUFFER"@ {
        GateKind::TriBuffer
    } else if tag == "TOGGLE"@ {
        GateKind::Toggle
    } else if tag == "CLOCK"@ {
        GateKind::Clock
    } else if tag == "PULSE"@ {
        GateKind::Pulse
    } else if tag == "LED"@ {
        GateKind::Led
    } else {
        GateKind::Buffer
    }
}

/// The tag of a kind.
pub open spec fn kind_name(k: GateKind) -> Seq<char> {
    match k {
        GateKind::And => "AND"@,
        GateKind::Or => "OR"@,
        GateKind::Not => "NOT"@,
        GateKind::Xor => "XOR"@,
        GateKind::Nand => "NAND"@,
        GateKind::Nor => "NOR"@,
        GateKind::Xnor => "XNOR"@,
        GateKind::Buffer => "BUFFER"@,
        GateKind::TriBuffer => "TRI_BUFFER"@,
        GateKind::Toggle => "TOGGLE"@,
        GateKind::Clock => "CLOCK"@,
        GateKind::Pulse => "PULSE"@,
        GateKind::Led => "LED"@,
    }
}

/// Kinds whose number of inputs is chosen at construction.
pub open spec fn is_variadic(k: GateKind) -> bool {
    match k {
        GateKind::And | GateKind::Or | GateKind::Xor | GateKind::Nand | GateKind::Nor
        | GateKind::Xnor => true,
        _ => false,
    }
}

/// Kinds that drive a level of their own and have no inputs.
pub open spec fn is_source(k: GateKind) -> bool {
    match k {
        GateKind::Toggle | GateKind::Clock | GateKind::Pulse => true,
        _ => false,
    }
}

/// The number of inputs of a gate of kind `k` built with `input_count`.
pub open spec fn created_arity(k: GateKind, input_count: Option<usize>) -> nat {
    if is_variadic(k) {
        match input_count {
            Some(n) => n as nat,
            None => 2,
        }
    } else if is_source(k) {
        0
    } else if k == GateKind::TriBuffer {
        2
    } else {
        1
    }
}

/// The outputs of a freshly built gate of kind `k`.
pub open spec fn initial_outputs(k: GateKind) -> Seq<StateType> {
    if k == GateKind::Led {
        Seq::empty()
    } else if is_source(k) {
        seq![StateType::Zero]
    } else {
        unknowns(1)
    }
}

/// Sources and sinks report no delay; every other kind one tick.
pub open spec fn kind_delay(k: GateKind) -> u64 {
    if k == GateKind::Led || is_source(k) {
        0
    } else {
        1
    }
}

impl AnyGate {
    /// The half-period of a clock; zero for every other kind.
    pub open spec fn spec_clock_period(&self) -> u64 {
        match self {
            AnyGate::Clock(c) => c.spec_period(),
            _ => 0,
        }
    }

    /// Brings a clock to its level for `time`; every other kind stays as it is.
    /// Tells whether the level changed.
    pub fn advance_clock(&mut self, time: u64) -> (changed: bool)
        requires
            old(self).wf(),
        ensures
            final(self).wf(),
            final(self).spec_gate_kind() == old(self).spec_gate_kind(),
            final(self).spec_id() == old(self).spec_id(),
            final(self).spec_inputs() == old(self).spec_inputs(),
            final(self).spec_outputs() == old(self).spec_outputs(),
            final(self).spec_delay() == old(self).spec_delay(),
            old(self).spec_gate_kind() == GateKind::Clock ==> final(self).spec_level()
                == clock_level(time, old(self).spec_clock_period()),
            old(self).spec_gate_kind() != GateKind::Clock ==> final(self).spec_level() == old(
                self,
            ).spec_level(),
            changed == (final(self).spec_level() != old(self).spec_level()),
    {
        match self {
            AnyGate::Clock(c) => c.advance(time),
            _ => false,
        }
    }

    pub open spec fn spec_gate_kind(&self) -> GateKind {
        match self {
            AnyGate::And(_) => GateKind::And,
            AnyGate::Or(_) => GateKind::Or,
            AnyGate::Not(_) => GateKind::Not,
            AnyGate::Xor(_) => GateKind::Xor,
            AnyGate::Nand(_) => GateKind::Nand,
            AnyGate::Nor(_) => GateKind::Nor,
            AnyGate::Xnor(_) => GateKind::Xnor,
            AnyGate::Buffer(_) => GateKind::Buffer,
            AnyGate::TriBuffer(_) => GateKind::TriBuffer,
            AnyGate::Toggle(_) => GateKind::Toggle,
            AnyGate::Clock(_) => GateKind::Clock,
            AnyGate::Pulse(_) => GateKind::Pulse,
            AnyGate::Led(_) => GateKind::Led,
        }
    }
}

/// The tag of each kind names that kind.
pub proof fn lemma_kind_of_name(k: GateKind)
    ensures
        kind_of_tag(kind_name(k)) == k,
{
    reveal_strlit("AND");
    reveal_strlit("OR");
    reveal_strlit("NOT");
    reveal_strlit("XOR");
    reveal_strlit("NAND");
    reveal_strlit("NOR");
    reveal_strlit("XNOR");
    reveal_strlit("BUFFER");
    reveal_strlit("TRI_BUFFER");
    reveal_strlit("TOGGLE");
    reveal_strlit("CLOCK");
    reveal_strlit("PULSE");
    reveal_strlit("LED");
    assert("AND"@[0] == 'A' && "AND"@[1] == 'N' && "AND"@.len() == 3);
    assert("OR"@[0] == 'O' && "OR"@[1] == 'R' && "OR"@.len() == 2);
    assert("NOT"@[0] == 'N' && "NOT"@[1] == 'O' && "NOT"@.len() == 3);
    assert("XOR"@[0] == 'X' && "XOR"@[1] == 'O' && "XOR"@.len() == 3);
    assert("NAND"@[0] == 'N' && "NAND"@[1] == 'A' && "NAND"@.len() == 4);
    assert("NOR"@[2] == 'R' && "NOT"@[2] == 'T');
    assert("NOR"@[0] == 'N' && "NOR"@[1] == 'O' && "NOR"@.len() == 3);
    assert("XNOR"@[0] == 'X' && "XNOR"@[1] == 'N' && "XNOR"@.len() == 4);
    assert("BUFFER"@[0] == 'B' && "BUFFER"@[1] == 'U' && "BUFFER"@.len() == 6);
    assert("TRI_BUFFER"@[0] == 'T' && "TRI_BUFFER"@[1] == 'R' && "TRI_BUFFER"@.len() == 10);
    assert("TOGGLE"@[0] == 'T' && "TOGGLE"@[1] == 'O' && "TOGGLE"@.len() == 6);
    assert("CLOCK"@[0] == 'C' && "CLOCK"@[1] == 'L' && "CLOCK"@.len() == 5);
    assert("PULSE"@[0] == 'P' && "PULSE"@[1] == 'U' && "PULSE"@.len() == 5);
    assert("LED"@[0] == 'L' && "LED"@[1] == 'E' && "LED"@.len() == 3);
    match k {
        GateKind::And => {
            assert(kind_name(k) == "AND"@);
            assert(kind_of_tag("AND"@) == GateKind::And);
        },
        GateKind::Or => {
            assert(kind_name(k) == "OR"@);
            assert(kind_of_tag("OR"@) == GateKind::Or);
        },
        GateKind::Not => {
            assert(kind_name(k) == "NOT"@);
            assert(kind_of_tag("NOT"@) == GateKind::Not);
        },
        GateKind::Xor => {
            assert(kind_name(k) == "XOR"@);
            assert(kind_of_tag("XOR"@) == GateKind::Xor);
        },
        GateKind::Nand => {
            assert(kind_name(k) == "NAND"@);
            assert(kind_of_tag("NAND"@) == GateKind::Nand);
        },
        GateKind::Nor => {
            assert(kind_name(k) == "NOR"@);
            assert(kind_of_tag("NOR"@) == GateKind::Nor);
        },
        GateKind::Xnor => {
            assert(kind_name(k) == "XNOR"@);
            assert(kind_of_tag("XNOR"@) == GateKind::Xnor);
        },
        GateKind::Buffer => {
            assert(kind_name(k) == "BUFFER"@);
            assert(kind_of_tag("BUFFER"@) == GateKind::Buffer);
        },
        GateKind::TriBuffer => {
            assert(kind_name(k) == "TRI_BUFFER"@);
            assert(kind_of_tag("TRI_BUFFER"@) == GateKind::TriBuffer);
        },
        GateKind::Toggle => {
            assert(kind_name(k) == "TOGGLE"@);
            assert(kind_of_tag("TOGGLE"@) == GateKind::Toggle);
        },
        GateKind::Clock => {
            assert(kind_name(k) == "CLOCK"@);
            assert(kind_of_tag("CLOCK"@) == GateKind::Clock);
        },
        GateKind::Pulse => {
            assert(kind_name(k) == "PULSE"@);
            assert(kind_of_tag("PULSE"@) == GateKind::Pulse);
        },
        GateKind::Led => {
            assert(kind_name(k) == "LED"@);
            assert(kind_of_tag("LED"@) == GateKind::Led);
        },
    }
}

/// Evaluating or resetting a well-formed gate keeps its number of outputs, which its
/// kind fixes.
pub proof fn lemma_output_lengths(g: AnyGate)
    requires
        g.wf(),
    ensures
        g.spec_outputs().len() == initial_outputs(g.spec_gate_kind()).len(),
        g.spec_evaluated().len() == g.spec_outputs().len(),
        g.spec_reset_outputs().len() == g.spec_outputs().len(),
{
    assert(unknowns(1).len() == 1);
}

/// The kind tag of a gate always names the kind of its variant.
pub proof fn lemma_kind_tag_of_gate(g: AnyGate)
    ensures
        g.spec_kind() == kind_name(g.spec_gate_kind()),
{
}

fn tag_is(tag: &str, name: &str) -> (r: bool)
    ensures
        r == (tag@ == name@),
{
    tag.to_owned() == name.to_owned()
}

/// Builds a gate from its kind tag; a variadic kind takes `input_count` inputs, or two.
pub fn create_gate(gate_type: &str, id: String, input_count: Option<usize>) -> (r: AnyGate)
    ensures
        r.wf(),
        r.spec_id() == id@,
        r.spec_gate_kind() == kind_of_tag(gate_type@),
        r.spec_inputs() == unknowns(created_arity(kind_of_tag(gate_type@), input_count)),
        r.spec_outputs() == initial_outputs(kind_of_tag(gate_type@)),
        r.spec_delay() == kind_delay(kind_of_tag(gate_type@)),
        r.spec_level() == StateType::Zero,
{
    proof {
        assert(unknowns(0) =~= Seq::<StateType>::empty());
    }
    let n = match input_count {
        Some(n) => n,
        None => 2,
    };
    if tag_is(gate_type, "AND") {
        AnyGate::And(AndGate::new(id, n, 1))
    } else if tag_is(gate_type, "OR") {
        AnyGate::Or(OrGate::new(id, n, 1))
    } else if tag_is(gate_type, "NOT") {
        AnyGate::Not(NotGate::new(id, 1))
    } else if tag_is(gate_type, "XOR") {
        AnyGate::Xor(XorGate::new(id, n, 1))
    } else if tag_is(gate_type, "NAND") {
        AnyGate::Nand(NandGate::new(id, n, 1))
    } else if tag_is(gate_type, "NOR") {
        AnyGate::Nor(NorGate::new(id, n, 1))
    } else if tag_is(gate_type, "XNOR") {
        AnyGate::Xnor(XnorGate::new(id, n, 1))
    } else if tag_is(gate_type, "BUFFER") {
        AnyGate::Buffer(BufferGate::new(id, 1))
    } else if tag_is(gate_type, "TRI_BUFFER") {
        AnyGate::TriBuffer(TriBufferGate::new(id, 1))
    } else if tag_is(gate_type, "TOGGLE") {
        AnyGate::Toggle(ToggleGate::new(id))
    } else if tag_is(gate_type, "CLOCK") {
        AnyGate::Clock(ClockGate::new(id))
    } else if tag_is(gate_type, "PULSE") {
        AnyGate::Pulse(PulseGate::new(id))
    } else if tag_is(gate_type, "LED") {
        AnyGate::Led(LedGate::new(id))
    } else {
        AnyGate::Buffer(BufferGate::new(id, 1))
    }
}

} // verus!
