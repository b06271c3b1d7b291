//! The interface shared by every kind of gate.
use crate::state::{unknowns, StateType};
use vstd::prelude::*;

verus! {

/// What one evaluation of a gate produced.
pub struct GateResult {
    pub outputs: Vec<StateType>,
    pub delay: u64,
}

/// A logic primitive with fixed input and output buffers.
pub trait Gate: Sized {
    spec fn spec_id(&self) -> Seq<char>;

    /// The kind tag, such as `AND` or `TOGGLE`.
    spec fn spec_kind(&self) -> Seq<char>;

    spec fn spec_inputs(&self) -> Seq<StateType>;

    spec fn spec_outputs(&self) -> Seq<StateType>;

    spec fn spec_delay(&self) -> u64;

    /// The level that a source gate emits; `Zero` for every other kind.
    spec fn spec_level(&self) -> StateType;

    /// The outputs that `evaluate` computes from the present inputs and level.
    spec fn spec_evaluated(&self) -> Seq<StateType>;

    /// The level after `toggle`.
    spec fn spec_toggled_level(&self) -> StateType;

    /// The quiescent outputs that `reset` restores.
    spec fn spec_reset_outputs(&self) -> Seq<StateType>;

    /// The buffers have the lengths that the kind fixes.
    spec fn wf(&self) -> bool;

    fn id(&self) -> (r: &str)
        ensures
            r@ == self.spec_id(),
    ;

    fn gate_type(&self) -> (r: &str)
        ensures
            r@ == self.spec_kind(),
    ;

    fn input_count(&self) -> (r: usize)
        requires
            self.wf(),
        ensures
            r == self.spec_inputs().len(),
    ;

    fn output_count(&self) -> (r: usize)
        requires
            self.wf(),
        ensures
            r == self.spec_outputs().len(),
    ;

    fn get_inputs(&self) -> (r: &[StateType])
        ensures
            r@ == self.spec_inputs(),
    ;

    fn get_outputs(&self) -> (r: &[StateType])
        ensures
            r@ == self.spec_outputs(),
    ;

    /// Writes input `index`; an index out of range changes nothing.
    fn set_input(&mut self, index: usize, state: StateType)
        requires
            old(self).wf(),
        ensures
            final(self).wf(),
            final(self).spec_inputs() == (if index < old(self).spec_inputs().len() {
                old(self).spec_inputs().update(index as int, state)
            } else {
                old(self).spec_inputs()
            }),
            final(self).spec_outputs() == old(self).spec_outputs(),
            final(self).spec_level() == old(self).spec_level(),
            final(self).spec_id() == old(self).spec_id(),
            final(self).spec_kind() == old(self).spec_kind(),
            final(self).spec_delay() == old(self).spec_delay(),
    ;

    /// Computes the outputs, stores them and reports them with the delay.
    fn evaluate(&mut self) -> (r: GateResult)
        requires
            old(self).wf(),
        ensures
            final(self).wf(),
            final(self).spec_outputs() == old(self).spec_evaluated(),
            r.outputs@ == final(self).spec_outputs(),
            r.delay == old(self).spec_delay(),
            final(self).spec_inputs() == old(self).spec_inputs(),
            final(self).spec_level() == old(self).spec_level(),
            final(self).spec_id() == old(self).spec_id(),
            final(self).spec_kind() == old(self).spec_kind(),
            final(self).spec_delay() == old(self).spec_delay(),
    ;

    /// Every input back to `Unknown`, the outputs and the level to their quiescent values.
    fn reset(&mut self)
        requires
            old(self).wf(),
        ensures
            final(self).wf(),
            final(self).spec_inputs() == unknowns(old(self).spec_inputs().len()),
            final(self).spec_outputs() == old(self).spec_reset_outputs(),
            final(self).spec_level() == StateType::Zero,
            final(self).spec_id() == old(self).spec_id(),
            final(self).spec_kind() == old(self).spec_kind(),
            final(self).spec_delay() == old(self).spec_delay(),
    ;

    fn delay(&self) -> (r: u64)
        ensures
            r == self.spec_delay(),
    ;

    /// Flips an interactive gate; other kinds stay as they are.
    fn toggle(&mut self)
        requires
            old(self).wf(),
        ensures
            final(self).wf(),
            final(self).spec_level() == old(self).spec_toggled_level(),
            final(self).spec_inputs() == old(self).spec_inputs(),
            final(self).spec_outputs() == old(self).spec_outputs(),
            final(self).spec_id() == old(self).spec_id(),
            final(self).spec_kind() == old(self).spec_kind(),
            final(self).spec_delay() == old(self).spec_delay(),
    ;

    /// No kind here detects edges.
    fn is_rising_edge(&self, index: usize) -> (r: bool)
        ensures
            !r,
    {
        false
    }

    /// No kind here keeps earlier inputs.
    fn update_previous_inputs(&mut self)
        ensures
            *final(self) == *old(self),
    {
    }
}

} // verus!
