//! The simulation engine: owns the gates and wires and runs the event loop.
use crate::basic::{
    create_gate, created_arity, initial_outputs, kind_delay, kind_of_tag,
    kind_name, lemma_kind_of_name, lemma_kind_tag_of_gate, lemma_output_lengths, clock_level, AnyGate,
    GateKind,
};
use crate::event_queue::{
    lemma_latest_push_goes_last, lemma_wf_contents, pushed, EventQueue, SimulationEvent,
};
use crate::gate::Gate;
use crate::records::{GateState, SimulationSnapshot, WireState};
use crate::state::{decode, encode, resolve_spec, resolve_wire_state, unknowns, StateType};
use vstd::prelude::*;
use vstd::slice::slice_to_vec;

verus! {

/// Events handled by one `step` at most, so that an oscillating loop cannot stall it.
pub const MAX_EVENTS_PER_STEP: u32 = 10000;

/// How far after its driver changes a gate is evaluated again.
pub const PROPAGATION_DELAY: u64 = 1;

/// A directed connection from an output port to an input port.
pub struct Wire {
    pub id: String,
    pub state: StateType,
    pub source_gate_id: String,
    pub source_port_index: u32,
    pub target_gate_id: String,
    pub target_port_index: u32,
}

/// `w` carrying `s` instead of its state.
pub open spec fn with_state(w: Wire, s: StateType) -> Wire {
    Wire {
        id: w.id,
        state: s,
        source_gate_id: w.source_gate_id,
        source_port_index: w.source_port_index,
        target_gate_id: w.target_gate_id,
        target_port_index: w.target_port_index,
    }
}

/// The states of the wires that drive input `port` of gate `gate_id`, in wire order.
pub open spec fn drivers(wires: Seq<Wire>, gate_id: Seq<char>, port: u32) -> Seq<StateType>
    decreases wires.len(),
{
    if wires.len() == 0 {
        Seq::empty()
    } else {
        let rest = drivers(wires.drop_last(), gate_id, port);
        let w = wires.last();
        if w.target_gate_id@ == gate_id && w.target_port_index == port {
            rest.push(w.state)
        } else {
            rest
        }
    }
}

/// The kind and arity of `g` are those that `create_gate` gives.
pub open spec fn gate_shape_ok(g: AnyGate) -> bool {
    &&& g.wf()
    &&& g.spec_kind() == kind_name(g.spec_gate_kind())
    &&& g.spec_outputs().len() == initial_outputs(g.spec_gate_kind()).len()
    &&& g.spec_inputs().len() == created_arity(
        g.spec_gate_kind(),
        if g.spec_inputs().len() == 0 {
            None
        } else {
            Some(g.spec_inputs().len() as usize)
        },
    )
}

/// `after` is `before` with input `port` set to `value`, if it has such an input.
pub open spec fn input_written(before: AnyGate, after: AnyGate, port: u32, value: StateType) -> bool {
    &&& gate_shape_ok(after)
    &&& after.spec_gate_kind() == before.spec_gate_kind()
    &&& after.spec_id() == before.spec_id()
    &&& after.spec_outputs() == before.spec_outputs()
    &&& after.spec_level() == before.spec_level()
    &&& after.spec_delay() == before.spec_delay()
    &&& after.spec_inputs() == if (port as int) < before.spec_inputs().len() {
        before.spec_inputs().update(port as int, value)
    } else {
        before.spec_inputs()
    }
}

/// A full evaluation of `gate_id` requested for `time`, with sequence number `seq`.
pub open spec fn evaluation_request(time: u64, gate_id: String, seq: u64) -> SimulationEvent {
    SimulationEvent {
        time,
        creation_time: seq,
        gate_id,
        port_index: -1i32,
        new_state: StateType::Unknown,
    }
}

proof fn lemma_same_kind(a: AnyGate, b: AnyGate)
    requires
        a.spec_kind() == b.spec_kind(),
    ensures
        a.spec_gate_kind() == b.spec_gate_kind(),
{
    lemma_kind_tag_of_gate(a);
    lemma_kind_tag_of_gate(b);
    lemma_kind_of_name(a.spec_gate_kind());
    lemma_kind_of_name(b.spec_gate_kind());
}

/// `a` and `b` hold the same gates (by id, kind and arity) and the same wiring.
pub open spec fn same_netlist(a: SimulationEngine, b: SimulationEngine) -> bool {
    &&& a.gates_view().len() == b.gates_view().len()
    &&& forall|i: int|
        0 <= i < a.gates_view().len() ==> {
            let x = #[trigger] a.gates_view()[i];
            let y = b.gates_view()[i];
            x.spec_id() == y.spec_id() && x.spec_gate_kind() == y.spec_gate_kind()
                && x.spec_inputs().len() == y.spec_inputs().len() && x.spec_outputs().len()
                == y.spec_outputs().len()
        }
    &&& a.wires_view().len() == b.wires_view().len()
    &&& forall|i: int|
        0 <= i < a.wires_view().len() ==> {
            let x = #[trigger] a.wires_view()[i];
            let y = b.wires_view()[i];
            x.id == y.id && x.source_gate_id == y.source_gate_id && x.source_port_index
                == y.source_port_index && x.target_gate_id == y.target_gate_id
                && x.target_port_index == y.target_port_index
        }
}

/// One full evaluation per gate at time zero, in the order of the gates.
pub open spec fn seeded(q: Seq<SimulationEvent>, gates: Seq<AnyGate>) -> bool {
    &&& q.len() == gates.len()
    &&& forall|i: int|
        0 <= i < q.len() ==> #[trigger] q[i] == evaluation_request(0, q[i].gate_id, i as u64)
            && q[i].gate_id@ == gates[i].spec_id()
}

/// The arity hint that a gate record carries: none when it lists no inputs.
pub open spec fn arity_hint(r: GateState) -> Option<usize> {
    if r.input_states@.len() == 0 {
        None
    } else {
        Some(r.input_states@.len() as usize)
    }
}

/// `arity` inputs, the first of them set from `codes[..upto]`, the rest `Unknown`.
pub open spec fn preset_inputs(arity: nat, codes: Seq<u8>, upto: int) -> Seq<StateType> {
    Seq::new(
        arity,
        |i: int|
            if i < upto && i < codes.len() {
                decode(codes[i])
            } else {
                StateType::Unknown
            },
    )
}

/// `g` is what record `r` describes, freshly constructed.
#[verifier::opaque]
pub open spec fn built_from(g: AnyGate, r: GateState) -> bool {
    let k = kind_of_tag(r.gate_type@);
    &&& g.spec_id() == r.id@
    &&& g.spec_gate_kind() == k
    &&& g.spec_inputs() == preset_inputs(
        created_arity(k, arity_hint(r)),
        r.input_states@,
        r.input_states@.len() as int,
    )
    &&& g.spec_outputs() == initial_outputs(k)
    &&& g.spec_delay() == kind_delay(k)
    &&& g.spec_level() == StateType::Zero
}

/// `w` is the wire that record `r` describes.
#[verifier::opaque]
pub open spec fn wire_from(w: Wire, r: WireState) -> bool {
    &&& w.id == r.id
    &&& w.state == decode(r.state)
    &&& w.source_gate_id == r.source_gate_id
    &&& w.source_port_index == r.source_port_index
    &&& w.target_gate_id == r.target_gate_id
    &&& w.target_port_index == r.target_port_index
}

/// No record after `recs[j]` bears its id.
#[verifier::opaque]
pub open spec fn last_gate_record(recs: Seq<GateState>, j: int) -> bool {
    forall|k: int| j < k < recs.len() ==> (#[trigger] recs[k]).id@ != recs[j].id@
}

/// No record after `recs[j]` bears its id.
#[verifier::opaque]
pub open spec fn last_wire_record(recs: Seq<WireState>, j: int) -> bool {
    forall|k: int| j < k < recs.len() ==> (#[trigger] recs[k]).id@ != recs[j].id@
}

/// Some entry of `gates` bears `id`.
pub open spec fn gate_id_present(gates: Seq<AnyGate>, id: Seq<char>) -> bool {
    exists|i: int| 0 <= i < gates.len() && (#[trigger] gates[i]).spec_id() == id
}

/// `x` comes from a record of `recs[m..]` that no later record shares an id with.
pub open spec fn gate_has_record(x: AnyGate, recs: Seq<GateState>, m: int) -> bool {
    exists|j: int| m <= j < recs.len() && #[trigger] built_from(x, recs[j]) && last_gate_record(recs, j)
}

/// Each of `gates` comes from the last record of `recs[m..]` that bears its id, and
/// every id in `recs[m..]` has one.
pub open spec fn gates_from_suffix(gates: Seq<AnyGate>, recs: Seq<GateState>, m: int) -> bool {
    &&& (forall|i: int| 0 <= i < gates.len() ==> #[trigger] gate_has_record(gates[i], recs, m))
    &&& (forall|j: int| m <= j < recs.len() ==> #[trigger] gate_id_present(gates, recs[j].id@))
}

/// Each of `gates` comes from the last record that bears its id, and every record's id has one.
pub open spec fn gates_from_records(gates: Seq<AnyGate>, recs: Seq<GateState>) -> bool {
    gates_from_suffix(gates, recs, 0)
}

/// A record whose id already has an entry adds nothing.
proof fn lemma_gates_present(before: Seq<AnyGate>, recs: Seq<GateState>, m: int, idx: int)
    requires
        0 <= m < recs.len(),
        0 <= idx < before.len(),
        before[idx].spec_id() == recs[m].id@,
        gates_from_suffix(before, recs, m + 1),
    ensures
        gates_from_suffix(before, recs, m),
{
    assert forall|i: int| 0 <= i < before.len() implies #[trigger] gate_has_record(before[i], recs, m) by {
        assert(gate_has_record(before[i], recs, m + 1));
        let j = choose|j: int|
            m + 1 <= j < recs.len() && #[trigger] built_from(before[i], recs[j]) && last_gate_record(recs, j);
    }
    assert forall|j: int| m <= j < recs.len() implies #[trigger] gate_id_present(before, recs[j].id@) by {
        if j == m {
            assert(before[idx].spec_id() == recs[m].id@);
        }
    }
}

/// A record with a new id adds its entry at the end.
proof fn lemma_gates_absent(before: Seq<AnyGate>, x: AnyGate, recs: Seq<GateState>, m: int)
    requires
        0 <= m < recs.len(),
        !gate_id_present(before, recs[m].id@),
        built_from(x, recs[m]),
        x.spec_id() == recs[m].id@,
        gates_from_suffix(before, recs, m + 1),
    ensures
        gates_from_suffix(before.push(x), recs, m),
{
    let after = before.push(x);
    assert(last_gate_record(recs, m)) by {
        reveal(last_gate_record);
        assert forall|k: int| m < k < recs.len() implies (#[trigger] recs[k]).id@ != recs[m].id@ by {
            assert(gate_id_present(before, recs[k].id@));
        }
    }
    assert forall|i: int| 0 <= i < after.len() implies #[trigger] gate_has_record(after[i], recs, m) by {
        if i < before.len() {
            assert(gate_has_record(before[i], recs, m + 1));
            let j = choose|j: int|
                m + 1 <= j < recs.len() && #[trigger] built_from(before[i], recs[j]) && last_gate_record(recs, j);
            assert(after[i] == before[i]);
            assert(built_from(after[i], recs[j]) && last_gate_record(recs, j));
        } else {
            assert(after[i] == x);
            assert(built_from(after[i], recs[m]) && last_gate_record(recs, m));
        }
    }
    assert forall|j: int| m <= j < recs.len() implies #[trigger] gate_id_present(after, recs[j].id@) by {
        if j == m {
            assert(after[before.len() as int] == x);
        } else {
            assert(gate_id_present(before, recs[j].id@));
            let i = choose|i: int| 0 <= i < before.len() && (#[trigger] before[i]).spec_id() == recs[j].id@;
            assert(after[i] == before[i]);
        }
    }
}

/// Some entry of `wires` bears `id`.
pub open spec fn wire_id_present(wires: Seq<Wire>, id: Seq<char>) -> bool {
    exists|i: int| 0 <= i < wires.len() && (#[trigger] wires[i]).id@ == id
}

/// `x` comes from a record of `recs[m..]` that no later record shares an id with.
pub open spec fn wire_has_record(x: Wire, recs: Seq<WireState>, m: int) -> bool {
    exists|j: int| m <= j < recs.len() && #[trigger] wire_from(x, recs[j]) && last_wire_record(recs, j)
}

/// Each of `wires` comes from the last record of `recs[m..]` that bears its id, and
/// every id in `recs[m..]` has one.
pub open spec fn wires_from_suffix(wires: Seq<Wire>, recs: Seq<WireState>, m: int) -> bool {
    &&& (forall|i: int| 0 <= i < wires.len() ==> #[trigger] wire_has_record(wires[i], recs, m))
    &&& (forall|j: int| m <= j < recs.len() ==> #[trigger] wire_id_present(wires, recs[j].id@))
}

/// Each of `wires` comes from the last record that bears its id, and every record's id has one.
pub open spec fn wires_from_records(wires: Seq<Wire>, recs: Seq<WireState>) -> bool {
    wires_from_suffix(wires, recs, 0)
}

/// A record whose id already has an entry adds nothing.
proof fn lemma_wires_present(before: Seq<Wire>, recs: Seq<WireState>, m: int, idx: int)
    requires
        0 <= m < recs.len(),
        0 <= idx < before.len(),
        before[idx].id@ == recs[m].id@,
        wires_from_suffix(before, recs, m + 1),
    ensures
        wires_from_suffix(before, recs, m),
{
    assert forall|i: int| 0 <= i < before.len() implies #[trigger] wire_has_record(before[i], recs, m) by {
        assert(wire_has_record(before[i], recs, m + 1));
        let j = choose|j: int|
            m + 1 <= j < recs.len() && #[trigger] wire_from(before[i], recs[j]) && last_wire_record(recs, j);
    }
    assert forall|j: int| m <= j < recs.len() implies #[trigger] wire_id_present(before, recs[j].id@) by {
        if j == m {
            assert(before[idx].id@ == recs[m].id@);
        }
    }
}

/// A record with a new id adds its entry at the end.
proof fn lemma_wires_absent(before: Seq<Wire>, x: Wire, recs: Seq<WireState>, m: int)
    requires
        0 <= m < recs.len(),
        !wire_id_present(before, recs[m].id@),
        wire_from(x, recs[m]),
        x.id@ == recs[m].id@,
        wires_from_suffix(before, recs, m + 1),
    ensures
        wires_from_suffix(before.push(x), recs, m),
{
    let after = before.push(x);
    assert(last_wire_record(recs, m)) by {
        reveal(last_wire_record);
        assert forall|k: int| m < k < recs.len() implies (#[trigger] recs[k]).id@ != recs[m].id@ by {
            assert(wire_id_present(before, recs[k].id@));
        }
    }
    assert forall|i: int| 0 <= i < after.len() implies #[trigger] wire_has_record(after[i], recs, m) by {
        if i < before.len() {
            assert(wire_has_record(before[i], recs, m + 1));
            let j = choose|j: int|
                m + 1 <= j < recs.len() && #[trigger] wire_from(before[i], recs[j]) && last_wire_record(recs, j);
            assert(after[i] == before[i]);
            assert(wire_from(after[i], recs[j]) && last_wire_record(recs, j));
        } else {
            assert(after[i] == x);
            assert(wire_from(after[i], recs[m]) && last_wire_record(recs, m));
        }
    }
    assert forall|j: int| m <= j < recs.len() implies #[trigger] wire_id_present(after, recs[j].id@) by {
        if j == m {
            assert(after[before.len() as int] == x);
        } else {
            assert(wire_id_present(before, recs[j].id@));
            let i = choose|i: int| 0 <= i < before.len() && (#[trigger] before[i]).id@ == recs[j].id@;
            assert(after[i] == before[i]);
        }
    }
}

/// States in the boundary encoding.
pub open spec fn encoded(s: Seq<StateType>) -> Seq<u8> {
    s.map_values(|x: StateType| encode(x))
}

/// `r` records gate `g` as it stands.
pub open spec fn gate_record_of(r: GateState, g: AnyGate) -> bool {
    &&& r.id@ == g.spec_id()
    &&& r.gate_type@ == g.spec_kind()
    &&& r.input_states@ == encoded(g.spec_inputs())
    &&& r.output_states@ == encoded(g.spec_outputs())
}

/// `r` records wire `w` as it stands.
pub open spec fn wire_record_of(r: WireState, w: Wire) -> bool {
    &&& r.id == w.id
    &&& r.state == encode(w.state)
    &&& r.source_gate_id == w.source_gate_id
    &&& r.source_port_index == w.source_port_index
    &&& r.target_gate_id == w.target_gate_id
    &&& r.target_port_index == w.target_port_index
}

/// `snap` is a faithful copy of `e`, gate for gate and wire for wire.
pub open spec fn snapshot_of(e: SimulationEngine, snap: SimulationSnapshot) -> bool {
    &&& snap.time == e.time()
    &&& snap.gates@.len() == e.gates_view().len()
    &&& (forall|i: int|
        0 <= i < snap.gates@.len() ==> gate_record_of(#[trigger] snap.gates@[i], e.gates_view()[i]))
    &&& snap.wires@.len() == e.wires_view().len()
    &&& (forall|i: int|
        0 <= i < snap.wires@.len() ==> wire_record_of(#[trigger] snap.wires@[i], e.wires_view()[i]))
}

fn encode_states(s: &[StateType]) -> (r: Vec<u8>)
    ensures
        r@ == encoded(s@),
{
    let mut r: Vec<u8> = Vec::new();
    let mut i: usize = 0;
    while i < s.len()
        invariant
            0 <= i <= s@.len(),
            r@.len() == i,
            forall|j: int| 0 <= j < i ==> r@[j] == encode(#[trigger] s@[j]),
        decreases s@.len() - i,
    {
        r.push(s[i].to_u8());
        i = i + 1;
    }
    assert(r@ =~= encoded(s@));
    r
}

/// Some gate of `gates` has the id, kind and numbers of inputs and outputs of `g`.
pub open spec fn has_matching_gate(gates: Seq<AnyGate>, g: AnyGate) -> bool {
    exists|k: int|
        0 <= k < gates.len() && (#[trigger] gates[k]).spec_id() == g.spec_id()
            && gates[k].spec_gate_kind() == g.spec_gate_kind() && gates[k].spec_inputs().len()
            == g.spec_inputs().len() && gates[k].spec_outputs().len() == g.spec_outputs().len()
}

/// Some wire of `wires` has the id and both endpoints of `w`.
pub open spec fn has_matching_wire(wires: Seq<Wire>, w: Wire) -> bool {
    exists|k: int|
        0 <= k < wires.len() && (#[trigger] wires[k]).id == w.id && wires[k].source_gate_id
            == w.source_gate_id && wires[k].source_port_index == w.source_port_index
            && wires[k].target_gate_id == w.target_gate_id && wires[k].target_port_index
            == w.target_port_index
}

/// Re-initializing from a snapshot rebuilds the same netlist: the same gate ids, each
/// with its kind and numbers of inputs and outputs, and the same wire ids, each with its endpoints.
pub proof fn lemma_snapshot_round_trip(
    first: SimulationEngine,
    snap: SimulationSnapshot,
    second: SimulationEngine,
)
    requires
        first.wf(),
        snapshot_of(first, snap),
        gates_from_records(second.gates_view(), snap.gates@),
        wires_from_records(second.wires_view(), snap.wires@),
    ensures
        forall|i: int|
            0 <= i < second.gates_view().len() ==> #[trigger] has_matching_gate(
                first.gates_view(),
                second.gates_view()[i],
            ),
        forall|k: int|
            0 <= k < first.gates_view().len() ==> #[trigger] gate_id_present(
                second.gates_view(),
                first.gates_view()[k].spec_id(),
            ),
        forall|i: int|
            0 <= i < second.wires_view().len() ==> #[trigger] has_matching_wire(
                first.wires_view(),
                second.wires_view()[i],
            ),
        forall|k: int|
            0 <= k < first.wires_view().len() ==> #[trigger] wire_id_present(
                second.wires_view(),
                first.wires_view()[k].id@,
            ),
{
    let g1 = first.gates_view();
    let g2 = second.gates_view();
    let recs = snap.gates@;
    assert forall|i: int| 0 <= i < g2.len() implies #[trigger] has_matching_gate(g1, g2[i]) by {
        assert(gate_has_record(g2[i], recs, 0));
        let j = choose|j: int|
            0 <= j < recs.len() && #[trigger] built_from(g2[i], recs[j]) && last_gate_record(recs, j);
        reveal(built_from);
        assert(gate_record_of(recs[j], g1[j]));
        assert(gate_shape_ok(g1[j]));
        lemma_kind_tag_of_gate(g1[j]);
        lemma_kind_of_name(g1[j].spec_gate_kind());
        assert(recs[j].input_states@.len() == g1[j].spec_inputs().len());
        assert(g1[j].spec_id() == g2[i].spec_id());
    }
    assert forall|k: int| 0 <= k < g1.len() implies #[trigger] gate_id_present(g2, g1[k].spec_id()) by {
        assert(gate_id_present(g2, recs[k].id@));
        assert(gate_record_of(recs[k], g1[k]));
    }
    let w1 = first.wires_view();
    let w2 = second.wires_view();
    let wrecs = snap.wires@;
    assert forall|i: int| 0 <= i < w2.len() implies #[trigger] has_matching_wire(w1, w2[i]) by {
        assert(wire_has_record(w2[i], wrecs, 0));
        let j = choose|j: int|
            0 <= j < wrecs.len() && #[trigger] wire_from(w2[i], wrecs[j]) && last_wire_record(wrecs, j);
        reveal(wire_from);
        assert(wire_record_of(wrecs[j], w1[j]));
        assert(w1[j].id == w2[i].id);
    }
    assert forall|k: int| 0 <= k < w1.len() implies #[trigger] wire_id_present(w2, w1[k].id@) by {
        assert(wire_id_present(w2, wrecs[k].id@));
        assert(wire_record_of(wrecs[k], w1[k]));
    }
}

impl Default for SimulationEngine {
    fn default() -> (r: SimulationEngine)
        ensures
            r.wf(),
            r.gates_view().len() == 0,
            r.wires_view().len() == 0,
            r.queue().view().len() == 0,
            r.time() == 0,
            !r.running_flag(),
    {
        SimulationEngine::new()
    }
}

/// `b` is `a` after `propagate_wire_state(wire_id, s)`.
pub open spec fn propagated(a: SimulationEngine, wire_id: Seq<char>, s: StateType, b: SimulationEngine) -> bool {
    &&& b.time() == a.time()
    &&& b.running_flag() == a.running_flag()
    &&& ((forall|k: int|
        0 <= k < a.wires_view().len() ==> (#[trigger] a.wires_view()[k]).id@ != wire_id) ==> b == a)
    &&& (forall|k: int|
        0 <= k < a.wires_view().len() && (#[trigger] a.wires_view()[k]).id@ == wire_id ==> {
            let w = a.wires_view()[k];
            let wires = a.wires_view().update(k, with_state(w, s));
            let resolved = resolve_spec(drivers(wires, w.target_gate_id@, w.target_port_index));
            if w.state == s {
                b == a
            } else {
                &&& b.wires_view() == wires
                &&& forall|g: int|
                    0 <= g < a.gates_view().len() ==> if (#[trigger] a.gates_view()[g]).spec_id() == w.target_gate_id@ {
                        input_written(
                            a.gates_view()[g],
                            b.gates_view()[g],
                            w.target_port_index,
                            resolved,
                        )
                    } else {
                        b.gates_view()[g] == a.gates_view()[g]
                    }
                &&& a.queue().counter() == u64::MAX ==> b.queue() == a.queue()
                &&& a.queue().counter() < u64::MAX ==> b.queue().counter() == a.queue().counter() + 1 && pushed(
                    a.queue().view(),
                    b.queue().view(),
                    evaluation_request(
                        (a.time() + PROPAGATION_DELAY) as u64,
                        w.target_gate_id,
                        a.queue().counter(),
                    ),
                )
            }
        })
}

/// The position of the entry named `id` (ids are unique in a well-formed engine).
pub open spec fn gate_index(gates: Seq<AnyGate>, id: Seq<char>) -> int {
    choose|i: int| 0 <= i < gates.len() && (#[trigger] gates[i]).spec_id() == id
}

/// `b` is `a` with `gid` evaluated: its outputs become what it computes.
pub open spec fn gate_evaluated(a: SimulationEngine, gid: Seq<char>, b: SimulationEngine) -> bool {
    &&& b.wires_view() == a.wires_view()
    &&& b.queue() == a.queue()
    &&& b.time() == a.time()
    &&& b.running_flag() == a.running_flag()
    &&& b.gates_view().len() == a.gates_view().len()
    &&& forall|g: int|
        0 <= g < a.gates_view().len() ==> if (#[trigger] a.gates_view()[g]).spec_id() == gid {
            let x = a.gates_view()[g];
            let y = b.gates_view()[g];
            &&& gate_shape_ok(y)
            &&& y.spec_outputs() == x.spec_evaluated()
            &&& y.spec_inputs() == x.spec_inputs()
            &&& y.spec_level() == x.spec_level()
            &&& y.spec_id() == x.spec_id()
            &&& y.spec_gate_kind() == x.spec_gate_kind()
            &&& y.spec_delay() == x.spec_delay()
        } else {
            b.gates_view()[g] == a.gates_view()[g]
        }
}

/// Wire `w` of `wires` takes `s` when it leaves output `port` of `gid`; others are passed by.
pub open spec fn wire_fan_step(
    wires: Seq<Wire>,
    gid: Seq<char>,
    port: u32,
    s: StateType,
    w: int,
    x: SimulationEngine,
    y: SimulationEngine,
) -> bool {
    if wires[w].source_gate_id@ == gid && wires[w].source_port_index == port {
        propagated(x, wires[w].id@, s, y)
    } else {
        y == x
    }
}

/// `b` is `a` after `s` is carried, in wire order, onto every wire from output `port` of `gid`.
pub open spec fn fanned_out_port(
    a: SimulationEngine,
    wires: Seq<Wire>,
    gid: Seq<char>,
    port: u32,
    s: StateType,
    b: SimulationEngine,
) -> bool {
    exists|t: Seq<SimulationEngine>|
        #![trigger t[0]]
        t.len() == wires.len() + 1 && t[0] == a && t[wires.len() as int] == b && forall|w: int|
            0 <= w < wires.len() ==> #[trigger] wire_fan_step(wires, gid, port, s, w, t[w], t[w + 1])
}

/// Output `i` is carried onto its wires when it differs from what it was before.
pub open spec fn output_step(
    prev: Seq<StateType>,
    new: Seq<StateType>,
    wires: Seq<Wire>,
    gid: Seq<char>,
    i: int,
    x: SimulationEngine,
    y: SimulationEngine,
) -> bool {
    let before = if i < prev.len() {
        prev[i]
    } else {
        StateType::Unknown
    };
    if before != new[i] {
        fanned_out_port(x, wires, gid, i as u32, new[i], y)
    } else {
        y == x
    }
}

/// `b` is `a` after every changed output of `gid`, in port order, is carried onto its wires.
pub open spec fn fanned_out(
    a: SimulationEngine,
    prev: Seq<StateType>,
    new: Seq<StateType>,
    wires: Seq<Wire>,
    gid: Seq<char>,
    b: SimulationEngine,
) -> bool {
    exists|t: Seq<SimulationEngine>|
        #![trigger t[0]]
        t.len() == new.len() + 1 && t[0] == a && t[new.len() as int] == b && forall|i: int|
            0 <= i < new.len() ==> #[trigger] output_step(prev, new, wires, gid, i, t[i], t[i + 1])
}

/// `b` is `a` after handling `ev`: what it names is evaluated and its changed outputs
/// carried onto their wires; an event for no gate changes nothing.
pub open spec fn event_effect(a: SimulationEngine, ev: SimulationEvent, b: SimulationEngine) -> bool {
    if exists|i: int| 0 <= i < a.gates_view().len() && (#[trigger] a.gates_view()[i]).spec_id() == ev.gate_id@ {
        let x = a.gates_view()[gate_index(a.gates_view(), ev.gate_id@)];
        exists|m: SimulationEngine|
            #[trigger] gate_evaluated(a, ev.gate_id@, m) && fanned_out(
                m,
                x.spec_outputs(),
                x.spec_evaluated(),
                m.wires_view(),
                ev.gate_id@,
                b,
            )
    } else {
        b == a
    }
}

/// `p` is `x` with the head of its queue removed.
pub open spec fn popped(x: SimulationEngine, p: SimulationEngine) -> bool {
    &&& p.gates_view() == x.gates_view()
    &&& p.wires_view() == x.wires_view()
    &&& p.time() == x.time()
    &&& p.running_flag() == x.running_flag()
    &&& p.queue().view() == x.queue().view().drop_first()
    &&& p.queue().counter() == x.queue().counter()
}

/// `y` is `x` after its earliest event, which is due, is taken off and handled.
pub open spec fn drain_step(x: SimulationEngine, y: SimulationEngine) -> bool {
    &&& x.queue().view().len() > 0
    &&& x.queue().view()[0].time <= x.time()
    &&& exists|p: SimulationEngine| #[trigger] popped(x, p) && event_effect(p, x.queue().view()[0], y)
}

/// `b` is `a` after `n` due events are handled one by one, earliest first.
pub open spec fn drained(a: SimulationEngine, n: nat, b: SimulationEngine) -> bool {
    exists|t: Seq<SimulationEngine>|
        #![trigger t[0]]
        t.len() == n + 1 && t[0] == a && t[n as int] == b && forall|k: int|
            0 <= k < n ==> #[trigger] drain_step(t[k], t[k + 1])
}

/// `y` is `x` with gate `i` brought to its clock level for the present time, and scheduled
/// for evaluation now when that level changed.
pub open spec fn clock_advanced(x: SimulationEngine, i: int, y: SimulationEngine) -> bool {
    let a = x.gates_view()[i];
    let b = y.gates_view()[i];
    &&& y.gates_view().len() == x.gates_view().len()
    &&& forall|j: int|
        0 <= j < x.gates_view().len() && j != i ==> (#[trigger] y.gates_view()[j])
            == x.gates_view()[j]
    &&& b.spec_outputs() == a.spec_outputs()
    &&& b.spec_inputs() == a.spec_inputs()
    &&& b.spec_id() == a.spec_id()
    &&& b.spec_gate_kind() == a.spec_gate_kind()
    &&& b.spec_delay() == a.spec_delay()
    &&& b.spec_level() == if a.spec_gate_kind() == GateKind::Clock {
        clock_level(x.time(), a.spec_clock_period())
    } else {
        a.spec_level()
    }
    &&& y.wires_view() == x.wires_view()
    &&& y.time() == x.time()
    &&& y.running_flag() == x.running_flag()
    &&& if b.spec_level() != a.spec_level() && x.queue().counter() < u64::MAX {
        &&& y.queue().counter() == x.queue().counter() + 1
        &&& exists|e: SimulationEvent|
            #[trigger] pushed(x.queue().view(), y.queue().view(), e) && e.gate_id@ == a.spec_id()
                && e == evaluation_request(x.time(), e.gate_id, x.queue().counter())
    } else {
        y.queue() == x.queue()
    }
}

/// `b` is `a` after every gate, in order, is brought to its clock level.
pub open spec fn clocks_advanced(a: SimulationEngine, b: SimulationEngine) -> bool {
    exists|t: Seq<SimulationEngine>|
        #![trigger t[0]]
        t.len() == a.gates_view().len() + 1 && t[0] == a && t[a.gates_view().len() as int] == b
            && forall|i: int|
            0 <= i < a.gates_view().len() ==> #[trigger] clock_advanced(t[i], i, t[i + 1])
}

/// What the invariant of an engine says: its queue is well ordered, gate and wire ids are
/// unique, every gate has its kind's shape, and nothing is due after the next tick.
pub proof fn lemma_engine_wf(e: SimulationEngine)
    requires
        e.wf(),
    ensures
        e.queue().wf(),
        forall|i: int| 0 <= i < e.gates_view().len() ==> gate_shape_ok(#[trigger] e.gates_view()[i]),
        forall|i: int, j: int|
            0 <= i < j < e.gates_view().len() ==> #[trigger] e.gates_view()[i].spec_id()
                != #[trigger] e.gates_view()[j].spec_id(),
        forall|i: int, j: int|
            0 <= i < j < e.wires_view().len() ==> #[trigger] e.wires_view()[i].id@
                != #[trigger] e.wires_view()[j].id@,
        forall|i: int|
            0 <= i < e.queue().view().len() ==> #[trigger] e.queue().view()[i].time <= e.time() + 1,
{
}

/// The core simulator: gates and wires keyed by unique ids, a queue, and the time.
pub struct SimulationEngine {
    gates: Vec<AnyGate>,
    wires: Vec<Wire>,
    event_queue: EventQueue,
    current_time: u64,
    running: bool,
}

impl SimulationEngine {
    pub closed spec fn gates_view(&self) -> Seq<AnyGate> {
        self.gates@
    }

    pub closed spec fn wires_view(&self) -> Seq<Wire> {
        self.wires@
    }

    pub closed spec fn queue(&self) -> EventQueue {
        self.event_queue
    }

    pub closed spec fn time(&self) -> u64 {
        self.current_time
    }

    pub closed spec fn running_flag(&self) -> bool {
        self.running
    }

    /// Ids are unique, every gate has its kind's shape, and nothing is due after the next tick.
    pub closed spec fn wf(&self) -> bool {
        &&& self.event_queue.wf()
        &&& forall|i: int| 0 <= i < self.gates@.len() ==> gate_shape_ok(#[trigger] self.gates@[i])
        &&& forall|i: int, j: int|
            0 <= i < j < self.gates@.len() ==> #[trigger] self.gates@[i].spec_id()
                != #[trigger] self.gates@[j].spec_id()
        &&& forall|i: int, j: int|
            0 <= i < j < self.wires@.len() ==> #[trigger] self.wires@[i].id@
                != #[trigger] self.wires@[j].id@
        &&& forall|i: int|
            0 <= i < self.event_queue.view().len() ==> #[trigger] self.event_queue.view()[i].time
                <= self.current_time + 1
    }

    pub fn new() -> (r: SimulationEngine)
        ensures
            r.wf(),
            r.gates_view().len() == 0,
            r.wires_view().len() == 0,
            r.queue().view().len() == 0,
            r.time() == 0,
            !r.running_flag(),
    {
        SimulationEngine {
            gates: Vec::new(),
            wires: Vec::new(),
            event_queue: EventQueue::new(),
            current_time: 0,
            running: false,
        }
    }

    pub fn set_running(&mut self, running: bool)
        ensures
            final(self).running_flag() == running,
            final(self).gates_view() == old(self).gates_view(),
            final(self).wires_view() == old(self).wires_view(),
            final(self).queue() == old(self).queue(),
            final(self).time() == old(self).time(),
    {
        self.running = running;
    }

    pub fn is_running(&self) -> (r: bool)
        ensures
            r == self.running_flag(),
    {
        self.running
    }

    pub fn get_current_time(&self) -> (r: u64)
        ensures
            r == self.time(),
    {
        self.current_time
    }

    /// How many evaluations are waiting.
    pub fn pending_events(&self) -> (r: usize)
        ensures
            r == self.queue().view().len(),
    {
        self.event_queue.len()
    }

    fn find_gate(&self, id: &String) -> (r: Option<usize>)
        ensures
            match r {
                Some(i) => i < self.gates@.len() && self.gates@[i as int].spec_id() == id@,
                None => forall|i: int|
                    0 <= i < self.gates@.len() ==> #[trigger] self.gates@[i].spec_id() != id@,
            },
    {
        let mut i: usize = 0;
        while i < self.gates.len()
            invariant
                0 <= i <= self.gates@.len(),
                forall|j: int| 0 <= j < i ==> #[trigger] self.gates@[j].spec_id() != id@,
            decreases self.gates@.len() - i,
        {
            let found = self.gates[i].id().to_owned();
            if found == *id {
                return Some(i);
            }
            i = i + 1;
        }
        None
    }

    fn find_wire(&self, id: &String) -> (r: Option<usize>)
        ensures
            match r {
                Some(i) => i < self.wires@.len() && self.wires@[i as int].id@ == id@,
                None => forall|i: int|
                    0 <= i < self.wires@.len() ==> #[trigger] self.wires@[i].id@ != id@,
            },
    {
        let mut i: usize = 0;
        while i < self.wires.len()
            invariant
                0 <= i <= self.wires@.len(),
                forall|j: int| 0 <= j < i ==> #[trigger] self.wires@[j].id@ != id@,
            decreases self.wires@.len() - i,
        {
            if self.wires[i].id == *id {
                return Some(i);
            }
            i = i + 1;
        }
        None
    }

    spec fn queue_times_bounded(&self) -> bool {
        forall|i: int|
            0 <= i < self.event_queue.view().len() ==> #[trigger] self.event_queue.view()[i].time
                <= self.current_time + 1
    }

    /// Whether the earliest pending event is due now.
    fn next_is_due(&self) -> (r: bool)
        ensures
            r == (self.event_queue.view().len() > 0 && self.event_queue.view()[0].time
                <= self.current_time),
    {
        match self.event_queue.peek() {
            Some(e) => e.time <= self.current_time,
            None => false,
        }
    }

    /// Evaluates what `event` names and carries every changed output onto
    /// the wires it drives.
    fn process_event(&mut self, event: SimulationEvent)
        requires
            old(self).wf(),
            old(self).current_time < u64::MAX,
        ensures
            final(self).wf(),
            final(self).current_time == old(self).current_time,
            final(self).running == old(self).running,
            same_netlist(*old(self), *final(self)),
            forall|g: int|
                0 <= g < old(self).gates@.len() ==> {
                    let x = old(self).gates@[g];
                    let y = #[trigger] final(self).gates@[g];
                    &&& y.spec_outputs() == if x.spec_id() == event.gate_id@ {
                        x.spec_evaluated()
                    } else {
                        x.spec_outputs()
                    }
                    &&& y.spec_level() == x.spec_level()
                },
            event_effect(*old(self), event, *final(self)),
    {
        let g = match self.find_gate(&event.gate_id) {
            Some(g) => g,
            None => return ,
        };
        let previous_outputs = slice_to_vec(self.gates[g].get_outputs());
        let ghost before = self.gates@;
        let result = self.gates[g].evaluate();
        proof {
            lemma_same_kind(before[g as int], self.gates@[g as int]);
            assert forall|i: int| 0 <= i < self.gates@.len() implies #[trigger] self.gates@[i].spec_id()
                == before[i].spec_id() && gate_shape_ok(self.gates@[i]) by {
                if i == g {
                    assert(gate_shape_ok(before[i]));
                    lemma_output_lengths(before[i]);
                } else {
                    assert(self.gates@[i] == before[i]);
                }
            }
            assert forall|i: int, j: int| 0 <= i < j < self.gates@.len() implies #[trigger] self.gates@[i].spec_id()
                != #[trigger] self.gates@[j].spec_id() by {
                assert(before[i].spec_id() != before[j].spec_id());
            }
            assert(same_netlist(*old(self), *self));
            assert forall|j: int| 0 <= j < old(self).gates@.len() && j != g implies old(
                self,
            ).gates@[j].spec_id() != event.gate_id@ by {
                assert(old(self).gates@[j].spec_id() != old(self).gates@[g as int].spec_id());
            }
            assert(gate_evaluated(*old(self), event.gate_id@, *self));
        }
        let ghost mid = *self;
        let ghost wires0 = self.wires@;
        let ghost gid = event.gate_id@;
        let ghost evaluated = self.gates@;
        let ghost mut t_out: Seq<SimulationEngine> = seq![*self];
        let mut i: usize = 0;
        while i < result.outputs.len()
            invariant
                self.wf(),
                self.current_time == old(self).current_time,
                self.current_time < u64::MAX,
                self.running == old(self).running,
                same_netlist(*old(self), *self),
                wires0 == old(self).wires@,
                gid == event.gate_id@,
                self.gates@.len() == evaluated.len(),
                forall|j: int|
                    0 <= j < evaluated.len() ==> (#[trigger] self.gates@[j]).spec_outputs()
                        == evaluated[j].spec_outputs() && self.gates@[j].spec_level()
                        == evaluated[j].spec_level(),
                0 <= i <= result.outputs@.len(),
                t_out.len() == i + 1,
                t_out[0] == mid,
                t_out[i as int] == *self,
                forall|k: int|
                    0 <= k < i ==> #[trigger] output_step(
                        previous_outputs@,
                        result.outputs@,
                        wires0,
                        gid,
                        k,
                        t_out[k],
                        t_out[k + 1],
                    ),
            decreases result.outputs@.len() - i,
        {
            let ghost start_i = *self;
            let new_state = result.outputs[i];
            let old_state = if i < previous_outputs.len() {
                previous_outputs[i]
            } else {
                StateType::Unknown
            };
            if old_state != new_state {
                let ghost mut t_w: Seq<SimulationEngine> = seq![*self];
                let mut w: usize = 0;
                while w < self.wires.len()
                    invariant
                        self.wf(),
                        self.current_time == old(self).current_time,
                        self.current_time < u64::MAX,
                        self.running == old(self).running,
                        same_netlist(*old(self), *self),
                        wires0 == old(self).wires@,
                        gid == event.gate_id@,
                        self.gates@.len() == evaluated.len(),
                        forall|j: int|
                            0 <= j < evaluated.len() ==> (#[trigger] self.gates@[j]).spec_outputs()
                                == evaluated[j].spec_outputs() && self.gates@[j].spec_level()
                                == evaluated[j].spec_level(),
                        0 <= w <= self.wires@.len(),
                        t_w.len() == w + 1,
                        t_w[0] == start_i,
                        t_w[w as int] == *self,
                        forall|k: int|
                            0 <= k < w ==> #[trigger] wire_fan_step(
                                wires0,
                                gid,
                                i as u32,
                                new_state,
                                k,
                                t_w[k],
                                t_w[k + 1],
                            ),
                    decreases self.wires@.len() - w,
                {
                    let ghost x = *self;
                    proof {
                        assert(self.wires@[w as int].id == wires0[w as int].id);
                    }
                    if self.wires[w].source_gate_id == event.gate_id
                        && self.wires[w].source_port_index == i as u32 {
                        let wire_id = self.wires[w].id.clone();
                        self.propagate_wire_state(wire_id.as_str(), new_state);
                    }
                    proof {
                        assert(wire_fan_step(wires0, gid, i as u32, new_state, w as int, x, *self));
                        let t2 = t_w.push(*self);
                        assert forall|k: int| 0 <= k < w + 1 implies #[trigger] wire_fan_step(
                            wires0,
                            gid,
                            i as u32,
                            new_state,
                            k,
                            t2[k],
                            t2[k + 1],
                        ) by {
                            if k < w {
                                assert(t2[k] == t_w[k] && t2[k + 1] == t_w[k + 1]);
                            }
                        }
                        t_w = t2;
                    }
                    w = w + 1;
                }
                proof {
                    assert(fanned_out_port(start_i, wires0, gid, i as u32, new_state, *self));
                }
            }
            proof {
                assert(output_step(
                    previous_outputs@,
                    result.outputs@,
                    wires0,
                    gid,
                    i as int,
                    start_i,
                    *self,
                ));
                let t2 = t_out.push(*self);
                assert forall|k: int| 0 <= k < i + 1 implies #[trigger] output_step(
                    previous_outputs@,
                    result.outputs@,
                    wires0,
                    gid,
                    k,
                    t2[k],
                    t2[k + 1],
                ) by {
                    if k < i {
                        assert(t2[k] == t_out[k] && t2[k + 1] == t_out[k + 1]);
                    }
                }
                t_out = t2;
            }
            i = i + 1;
        }
        proof {
            let j = gate_index(old(self).gates@, event.gate_id@);
            assert(old(self).gates@[g as int].spec_id() == event.gate_id@);
            if j != g {
                if j < g {
                    assert(old(self).gates@[j].spec_id() != old(self).gates@[g as int].spec_id());
                } else {
                    assert(old(self).gates@[g as int].spec_id() != old(self).gates@[j].spec_id());
                }
            }
            assert(fanned_out(mid, previous_outputs@, result.outputs@, wires0, gid, *self));
            assert(gate_evaluated(*old(self), event.gate_id@, mid));
        }
    }

    /// Brings every clock to its level for the present time, and schedules each one
    /// whose level changed for evaluation now.
    fn advance_clocks(&mut self)
        requires
            old(self).wf(),
        ensures
            final(self).wf(),
            final(self).current_time == old(self).current_time,
            final(self).running == old(self).running,
            same_netlist(*old(self), *final(self)),
            forall|g: int|
                0 <= g < old(self).gates@.len() ==> {
                    let x = old(self).gates@[g];
                    let y = #[trigger] final(self).gates@[g];
                    &&& y.spec_outputs() == x.spec_outputs()
                    &&& y.spec_level() == if x.spec_gate_kind() == GateKind::Clock {
                        clock_level(old(self).current_time, x.spec_clock_period())
                    } else {
                        x.spec_level()
                    }
                },
            clocks_advanced(*old(self), *final(self)),
    {
        let ghost mut t: Seq<SimulationEngine> = seq![*self];
        let mut i: usize = 0;
        while i < self.gates.len()
            invariant
                self.wf(),
                self.current_time == old(self).current_time,
                self.running == old(self).running,
                same_netlist(*old(self), *self),
                0 <= i <= self.gates@.len(),
                t.len() == i + 1,
                t[0] == *old(self),
                t[i as int] == *self,
                forall|k: int| 0 <= k < i ==> #[trigger] clock_advanced(t[k], k, t[k + 1]),
                forall|g: int|
                    0 <= g < i ==> {
                        let x = old(self).gates@[g];
                        let y = #[trigger] self.gates@[g];
                        &&& y.spec_outputs() == x.spec_outputs()
                        &&& y.spec_level() == if x.spec_gate_kind() == GateKind::Clock {
                            clock_level(old(self).current_time, x.spec_clock_period())
                        } else {
                            x.spec_level()
                        }
                    },
                forall|g: int| i <= g < self.gates@.len() ==> self.gates@[g] == old(self).gates@[g],
            decreases self.gates@.len() - i,
        {
            let ghost before = self.gates@;
            let ghost x = *self;
            let changed = self.gates[i].advance_clock(self.current_time);
            proof {
                assert(gate_shape_ok(before[i as int]));
                lemma_kind_tag_of_gate(self.gates@[i as int]);
                lemma_kind_tag_of_gate(before[i as int]);
                assert forall|j: int| 0 <= j < self.gates@.len() implies #[trigger] self.gates@[j].spec_id()
                    == before[j].spec_id() && gate_shape_ok(self.gates@[j]) by {
                    if j != i {
                        assert(self.gates@[j] == before[j]);
                    }
                }
                assert forall|a: int, b: int| 0 <= a < b < self.gates@.len() implies #[trigger] self.gates@[a].spec_id()
                    != #[trigger] self.gates@[b].spec_id() by {
                    assert(before[a].spec_id() != before[b].spec_id());
                }
            }
            if changed {
                let id = self.gates[i].id().to_owned();
                let ghost idg = id;
                self.schedule_gate_evaluation(id, self.current_time);
                proof {
                    if x.event_queue.counter() < u64::MAX {
                        let e = evaluation_request(x.current_time, idg, x.event_queue.counter());
                        assert(pushed(x.queue().view(), self.queue().view(), e));
                    }
                }
            }
            proof {
                assert(clock_advanced(x, i as int, *self));
                let t2 = t.push(*self);
                assert forall|k: int| 0 <= k < i + 1 implies #[trigger] clock_advanced(
                    t2[k],
                    k,
                    t2[k + 1],
                ) by {
                    if k < i {
                        assert(t2[k] == t[k] && t2[k + 1] == t[k + 1]);
                    }
                }
                t = t2;
            }
            i = i + 1;
        }
    }

    /// Handles due events, earliest first, until none is due or the bound is reached;
    /// returns how many it handled.
    pub fn process_due_events(&mut self) -> (processed: u32)
        requires
            old(self).wf(),
            old(self).time() < u64::MAX,
        ensures
            final(self).wf(),
            final(self).time() == old(self).time(),
            final(self).running_flag() == old(self).running_flag(),
            same_netlist(*old(self), *final(self)),
            forall|g: int|
                0 <= g < old(self).gates_view().len() ==> (#[trigger] final(self).gates_view()[g]).spec_level()
                    == old(self).gates_view()[g].spec_level(),
            processed <= MAX_EVENTS_PER_STEP,
            processed < MAX_EVENTS_PER_STEP ==> (final(self).queue().view().len() == 0
                || final(self).queue().view()[0].time > final(self).time()),
            drained(*old(self), processed as nat, *final(self)),
            final(self).queue().wf(),
    {
        let ghost mut t: Seq<SimulationEngine> = seq![*self];
        let mut processed: u32 = 0;
        while processed < MAX_EVENTS_PER_STEP && self.next_is_due()
            invariant
                self.wf(),
                self.current_time == old(self).current_time,
                self.current_time < u64::MAX,
                self.running == old(self).running,
                same_netlist(*old(self), *self),
                processed <= MAX_EVENTS_PER_STEP,
                forall|g: int|
                    0 <= g < old(self).gates@.len() ==> (#[trigger] self.gates@[g]).spec_level()
                        == old(self).gates@[g].spec_level(),
                t.len() == processed + 1,
                t[0] == *old(self),
                t[processed as int] == *self,
                forall|k: int| 0 <= k < processed ==> #[trigger] drain_step(t[k], t[k + 1]),
            decreases MAX_EVENTS_PER_STEP - processed,
        {
            let ghost before = self.event_queue.view();
            let ghost x = *self;
            let event = self.event_queue.pop().unwrap();
            let ghost p = *self;
            proof {
                let q = self.event_queue.view();
                assert forall|i: int| 0 <= i < q.len() implies #[trigger] q[i].time
                    <= self.current_time + 1 by {
                    assert(q[i] == before[i + 1]);
                }
                assert(popped(x, p));
            }
            self.process_event(event);
            proof {
                assert(drain_step(x, *self));
                let t2 = t.push(*self);
                assert forall|k: int| 0 <= k < processed + 1 implies #[trigger] drain_step(
                    t2[k],
                    t2[k + 1],
                ) by {
                    if k < processed {
                        assert(t2[k] == t[k] && t2[k + 1] == t[k + 1]);
                    }
                }
                t = t2;
            }
            processed = processed + 1;
        }
        processed
    }

    /// Advances the simulation by one tick: brings the clocks up to date, handles what
    /// is due, then moves time to the next pending event, if it is later, and one past it.
    pub fn step(&mut self)
        requires
            old(self).wf(),
            old(self).time() < u64::MAX - 1,
        ensures
            final(self).wf(),
            final(self).running_flag() == old(self).running_flag(),
            same_netlist(*old(self), *final(self)),
            forall|g: int|
                0 <= g < old(self).gates_view().len() ==> {
                    let x = old(self).gates_view()[g];
                    (#[trigger] final(self).gates_view()[g]).spec_level() == if x.spec_gate_kind()
                        == GateKind::Clock {
                        clock_level(old(self).time(), x.spec_clock_period())
                    } else {
                        x.spec_level()
                    }
                },
            final(self).queue().wf(),
            final(self).time() >= old(self).time() + 1,
            final(self).queue().view().len() == 0 ==> final(self).time() == old(self).time() + 1,
            final(self).queue().view().len() > 0 && final(self).queue().view()[0].time > old(
                self,
            ).time() ==> final(self).time() == final(self).queue().view()[0].time + 1,
            final(self).queue().view().len() > 0 && final(self).queue().view()[0].time <= old(
                self,
            ).time() ==> final(self).time() == old(self).time() + 1,
            exists|a: SimulationEngine, n: nat, b: SimulationEngine|
                #[trigger] clocks_advanced(*old(self), a) && #[trigger] drained(a, n, b) && n
                    <= MAX_EVENTS_PER_STEP && (n < MAX_EVENTS_PER_STEP ==> (b.queue().view().len()
                    == 0 || b.queue().view()[0].time > b.time())) && b.time() == old(self).time()
                    && final(self).gates_view() == b.gates_view() && final(self).wires_view()
                    == b.wires_view() && final(self).queue() == b.queue(),
    {
        self.advance_clocks();
        let ghost a = *self;
        let n = self.process_due_events();
        let ghost b = *self;
        match self.event_queue.peek() {
            Some(next_event) => {
                if next_event.time > self.current_time {
                    self.current_time = next_event.time;
                }
            },
            None => {},
        }
        self.current_time = self.current_time + 1;
    }

    /// Flips `gate_id` if it is interactive and schedules its evaluation now.
    pub fn toggle_input(&mut self, gate_id: &str)
        requires
            old(self).wf(),
        ensures
            final(self).wf(),
            final(self).time() == old(self).time(),
            final(self).running_flag() == old(self).running_flag(),
            same_netlist(*old(self), *final(self)),
            final(self).wires_view() == old(self).wires_view(),
            forall|g: int|
                0 <= g < old(self).gates_view().len() ==> if (#[trigger] old(
                    self,
                ).gates_view()[g]).spec_id() == gate_id@ {
                    let x = old(self).gates_view()[g];
                    let y = final(self).gates_view()[g];
                    &&& y.spec_level() == x.spec_toggled_level()
                    &&& y.spec_inputs() == x.spec_inputs()
                    &&& y.spec_outputs() == x.spec_outputs()
                } else {
                    final(self).gates_view()[g] == old(self).gates_view()[g]
                },
            old(self).queue().counter() < u64::MAX ==> exists|e: SimulationEvent|
                #[trigger] pushed(old(self).queue().view(), final(self).queue().view(), e)
                    && e.gate_id@ == gate_id@ && e == evaluation_request(
                    old(self).time(),
                    e.gate_id,
                    old(self).queue().counter(),
                ),
    {
        let key = gate_id.to_owned();
        match self.find_gate(&key) {
            Some(g) => {
                let ghost before = self.gates@;
                self.gates[g].toggle();
                proof {
                    lemma_same_kind(before[g as int], self.gates@[g as int]);
                    assert forall|i: int| 0 <= i < self.gates@.len() implies #[trigger] self.gates@[i].spec_id()
                        == before[i].spec_id() && gate_shape_ok(self.gates@[i]) by {
                        if i == g {
                            assert(gate_shape_ok(before[i]));
                        } else {
                            assert(self.gates@[i] == before[i]);
                        }
                    }
                    assert forall|i: int, j: int| 0 <= i < j < self.gates@.len() implies #[trigger] self.gates@[i].spec_id()
                        != #[trigger] self.gates@[j].spec_id() by {
                        assert(before[i].spec_id() != before[j].spec_id());
                    }
                }
            },
            None => {},
        }
        let ghost k2 = key;
        self.schedule_gate_evaluation(key, self.current_time);
        proof {
            if old(self).event_queue.counter() < u64::MAX {
                let e = evaluation_request(old(self).current_time, k2, old(self).event_queue.counter());
                assert(pushed(old(self).queue().view(), self.queue().view(), e));
            }
        }
    }

    /// Replaces the whole netlist: a gate or wire is made from each record, a gate's
    /// inputs starting at the states its record lists (a later record replaces an
    /// earlier one of the same id); time returns to zero, and every gate is scheduled
    /// for evaluation at time zero.
    pub fn initialize(&mut self, gates: Vec<GateState>, wires: Vec<WireState>)
        ensures
            final(self).wf(),
            final(self).time() == 0,
            final(self).running_flag() == old(self).running_flag(),
            gates_from_records(final(self).gates_view(), gates@),
            wires_from_records(final(self).wires_view(), wires@),
            seeded(final(self).queue().view(), final(self).gates_view()),
    {
        let mut gates = gates;
        let mut wires = wires;
        let ghost grecs = gates@;
        let ghost wrecs = wires@;
        self.gates = Vec::new();
        self.wires = Vec::new();
        self.event_queue.clear();
        self.current_time = 0;
        while gates.len() > 0
            invariant
                self.wf(),
                self.current_time == 0,
                self.running == old(self).running,
                self.wires@.len() == 0,
                self.event_queue.view().len() == 0,
                self.event_queue.counter() == 0,
                gates@ == grecs.take(gates@.len() as int),
                gates@.len() <= grecs.len(),
                gates_from_suffix(self.gates@, grecs, gates@.len() as int),
            decreases gates@.len(),
        {
            let ghost m = gates@.len() - 1;
            let ghost before = self.gates@;
            let r = gates.pop().unwrap();
            assert(r == grecs[m]);
            assert(gates@ == grecs.take(m));
            match self.install_gate(r) {
                Some(idx) => {
                    proof {
                        lemma_gates_present(before, grecs, m, idx as int);
                    }
                },
                None => {
                    proof {
                        lemma_gates_absent(before, self.gates@.last(), grecs, m);
                    }
                },
            }
        }
        proof {
            assert(grecs.take(0) =~= Seq::<GateState>::empty());
        }
        while wires.len() > 0
            invariant
                self.wf(),
                self.current_time == 0,
                self.running == old(self).running,
                self.event_queue.view().len() == 0,
                self.event_queue.counter() == 0,
                gates_from_records(self.gates@, grecs),
                wires@ == wrecs.take(wires@.len() as int),
                wires@.len() <= wrecs.len(),
                wires_from_suffix(self.wires@, wrecs, wires@.len() as int),
            decreases wires@.len(),
        {
            let ghost m = wires@.len() - 1;
            let ghost before = self.wires@;
            let r = wires.pop().unwrap();
            assert(r == wrecs[m]);
            assert(wires@ == wrecs.take(m));
            match self.install_wire(r) {
                Some(idx) => {
                    proof {
                        lemma_wires_present(before, wrecs, m, idx as int);
                    }
                },
                None => {
                    proof {
                        lemma_wires_absent(before, self.wires@.last(), wrecs, m);
                    }
                },
            }
        }
        proof {
            assert(wrecs.take(0) =~= Seq::<WireState>::empty());
        }
        self.seed_initial_evaluations();
    }

    /// A copy of the time, of every gate's ports and of every wire.
    pub fn get_snapshot(&self) -> (r: SimulationSnapshot)
        ensures
            snapshot_of(*self, r),
            self.wf() ==> forall|i: int, j: int|
                0 <= i < j < r.gates@.len() ==> #[trigger] r.gates@[i].id@ != #[trigger] r.gates@[j].id@,
            self.wf() ==> forall|i: int, j: int|
                0 <= i < j < r.wires@.len() ==> #[trigger] r.wires@[i].id@ != #[trigger] r.wires@[j].id@,
    {
        let mut gates: Vec<GateState> = Vec::new();
        let mut i: usize = 0;
        while i < self.gates.len()
            invariant
                0 <= i <= self.gates@.len(),
                gates@.len() == i,
                forall|j: int| 0 <= j < i ==> gate_record_of(#[trigger] gates@[j], self.gates@[j]),
            decreases self.gates@.len() - i,
        {
            let g = &self.gates[i];
            gates.push(
                GateState {
                    id: g.id().to_owned(),
                    gate_type: g.gate_type().to_owned(),
                    input_states: encode_states(g.get_inputs()),
                    output_states: encode_states(g.get_outputs()),
                },
            );
            i = i + 1;
        }
        let mut wires: Vec<WireState> = Vec::new();
        let mut k: usize = 0;
        while k < self.wires.len()
            invariant
                0 <= k <= self.wires@.len(),
                wires@.len() == k,
                forall|j: int| 0 <= j < k ==> wire_record_of(#[trigger] wires@[j], self.wires@[j]),
            decreases self.wires@.len() - k,
        {
            let w = &self.wires[k];
            wires.push(
                WireState {
                    id: w.id.clone(),
                    state: w.state.to_u8(),
                    source_gate_id: w.source_gate_id.clone(),
                    source_port_index: w.source_port_index,
                    target_gate_id: w.target_gate_id.clone(),
                    target_port_index: w.target_port_index,
                },
            );
            k = k + 1;
        }
        proof {
            if self.wf() {
                assert forall|i: int, j: int| 0 <= i < j < gates@.len() implies #[trigger] gates@[i].id@
                    != #[trigger] gates@[j].id@ by {
                    assert(gate_record_of(gates@[i], self.gates@[i]));
                    assert(gate_record_of(gates@[j], self.gates@[j]));
                    assert(self.gates@[i].spec_id() != self.gates@[j].spec_id());
                }
                assert forall|i: int, j: int| 0 <= i < j < wires@.len() implies #[trigger] wires@[i].id@
                    != #[trigger] wires@[j].id@ by {
                    assert(wire_record_of(wires@[i], self.wires@[i]));
                    assert(wire_record_of(wires@[j], self.wires@[j]));
                    assert(self.wires@[i].id@ != self.wires@[j].id@);
                }
            }
        }
        SimulationSnapshot { time: self.current_time, gates, wires }
    }

    /// Constructs and appends what `r` describes, unless its id is present.
    fn install_gate(&mut self, r: GateState) -> (present: Option<usize>)
        requires
            old(self).wf(),
        ensures
            final(self).wf(),
            final(self).current_time == old(self).current_time,
            final(self).running == old(self).running,
            final(self).wires@ == old(self).wires@,
            final(self).event_queue == old(self).event_queue,
            match present {
                Some(idx) => idx < old(self).gates@.len() && old(self).gates@[idx as int].spec_id()
                    == r.id@ && final(self).gates@ == old(self).gates@,
                None => {
                    &&& !gate_id_present(old(self).gates@, r.id@)
                    &&& final(self).gates@.len() == old(self).gates@.len() + 1
                    &&& final(self).gates@ == old(self).gates@.push(final(self).gates@.last())
                    &&& built_from(final(self).gates@.last(), r)
                    &&& final(self).gates@.last().spec_id() == r.id@
                },
            },
    {
        match self.find_gate(&r.id) {
            Some(idx) => Some(idx),
            None => {
                let input_count = if r.input_states.len() == 0 {
                    None
                } else {
                    Some(r.input_states.len())
                };
                let ghost rr = r;
                let mut g = create_gate(r.gate_type.as_str(), r.id, input_count);
                let ghost fresh = g;
                let ghost arity = fresh.spec_inputs().len();
                proof {
                    assert(g.spec_inputs() =~= preset_inputs(arity, rr.input_states@, 0));
                }
                let mut j: usize = 0;
                while j < r.input_states.len()
                    invariant
                        0 <= j <= r.input_states@.len(),
                        r.input_states@ == rr.input_states@,
                        gate_shape_ok(g),
                        g.spec_gate_kind() == fresh.spec_gate_kind(),
                        g.spec_id() == fresh.spec_id(),
                        g.spec_outputs() == fresh.spec_outputs(),
                        g.spec_delay() == fresh.spec_delay(),
                        g.spec_level() == fresh.spec_level(),
                        g.spec_inputs() == preset_inputs(arity, rr.input_states@, j as int),
                    decreases r.input_states@.len() - j,
                {
                    let ghost prev = g;
                    g.set_input(j, StateType::from_u8(r.input_states[j]));
                    proof {
                        lemma_same_kind(prev, g);
                        assert(g.spec_inputs() =~= preset_inputs(
                            arity,
                            rr.input_states@,
                            j + 1,
                        ));
                    }
                    j = j + 1;
                }
                let ghost before = self.gates@;
                self.gates.push(g);
                proof {
                    lemma_kind_tag_of_gate(g);
                    reveal(built_from);
                    assert(built_from(g, rr));
                    assert(gate_shape_ok(g));
                    assert forall|a: int, b: int| 0 <= a < b < self.gates@.len() implies #[trigger] self.gates@[a].spec_id()
                        != #[trigger] self.gates@[b].spec_id() by {
                        if b == before.len() {
                            assert(self.gates@[a] == before[a]);
                        }
                    }
                    assert(self.gates@ == before.push(g));
                }
                None
            },
        }
    }

    /// Appends the wire that `r` describes, unless its id is present.
    fn install_wire(&mut self, r: WireState) -> (present: Option<usize>)
        requires
            old(self).wf(),
        ensures
            final(self).wf(),
            final(self).current_time == old(self).current_time,
            final(self).running == old(self).running,
            final(self).gates@ == old(self).gates@,
            final(self).event_queue == old(self).event_queue,
            match present {
                Some(idx) => idx < old(self).wires@.len() && old(self).wires@[idx as int].id@
                    == r.id@ && final(self).wires@ == old(self).wires@,
                None => {
                    &&& !wire_id_present(old(self).wires@, r.id@)
                    &&& final(self).wires@.len() == old(self).wires@.len() + 1
                    &&& final(self).wires@ == old(self).wires@.push(final(self).wires@.last())
                    &&& wire_from(final(self).wires@.last(), r)
                    &&& final(self).wires@.last().id@ == r.id@
                },
            },
    {
        match self.find_wire(&r.id) {
            Some(idx) => Some(idx),
            None => {
                let ghost rr = r;
                let w = Wire {
                    id: r.id,
                    state: StateType::from_u8(r.state),
                    source_gate_id: r.source_gate_id,
                    source_port_index: r.source_port_index,
                    target_gate_id: r.target_gate_id,
                    target_port_index: r.target_port_index,
                };
                let ghost before = self.wires@;
                self.wires.push(w);
                proof {
                    reveal(wire_from);
                    assert(wire_from(w, rr));
                    assert forall|a: int, b: int| 0 <= a < b < self.wires@.len() implies #[trigger] self.wires@[a].id@
                        != #[trigger] self.wires@[b].id@ by {
                        if b == before.len() {
                            assert(self.wires@[a] == before[a]);
                        }
                    }
                    assert(self.wires@ == before.push(w));
                }
                None
            },
        }
    }

    /// Schedules every gate for evaluation at time zero, on an empty queue.
    fn seed_initial_evaluations(&mut self)
        requires
            old(self).wf(),
            old(self).current_time == 0,
            old(self).event_queue.view().len() == 0,
            old(self).event_queue.counter() == 0,
        ensures
            final(self).wf(),
            final(self).current_time == 0,
            final(self).running == old(self).running,
            final(self).gates@ == old(self).gates@,
            final(self).wires@ == old(self).wires@,
            seeded(final(self).event_queue.view(), final(self).gates@),
    {
        let mut i: usize = 0;
        while i < self.gates.len()
            invariant
                self.wf(),
                self.current_time == 0,
                self.running == old(self).running,
                self.gates@ == old(self).gates@,
                self.wires@ == old(self).wires@,
                0 <= i <= self.gates@.len(),
                self.event_queue.counter() == i,
                self.event_queue.view().len() == i,
                forall|j: int|
                    0 <= j < i ==> #[trigger] self.event_queue.view()[j] == evaluation_request(
                        0,
                        self.event_queue.view()[j].gate_id,
                        j as u64,
                    ) && self.event_queue.view()[j].gate_id@ == self.gates@[j].spec_id(),
            decreases self.gates@.len() - i,
        {
            let id = self.gates[i].id().to_owned();
            let ghost before = self.event_queue.view();
            let ghost e = evaluation_request(0, id, i as u64);
            self.schedule_gate_evaluation(id, 0);
            proof {
                lemma_wf_contents(self.event_queue);
                lemma_latest_push_goes_last(before, self.event_queue.view(), e);
                assert(self.event_queue.view() == before.push(e));
            }
            i = i + 1;
        }
    }

    /// Back to time zero: the queue emptied, every gate reset, every wire `Unknown`,
    /// and every gate scheduled for evaluation at time zero.
    pub fn reset(&mut self)
        requires
            old(self).wf(),
        ensures
            final(self).wf(),
            final(self).time() == 0,
            final(self).running_flag() == old(self).running_flag(),
            same_netlist(*old(self), *final(self)),
            forall|g: int|
                0 <= g < old(self).gates_view().len() ==> {
                    let x = #[trigger] old(self).gates_view()[g];
                    let y = final(self).gates_view()[g];
                    &&& y.spec_inputs() == unknowns(x.spec_inputs().len())
                    &&& y.spec_outputs() == x.spec_reset_outputs()
                    &&& y.spec_level() == StateType::Zero
                },
            forall|w: int|
                0 <= w < old(self).wires_view().len() ==> final(self).wires_view()[w] == with_state(
                    #[trigger] old(self).wires_view()[w],
                    StateType::Unknown,
                ),
            seeded(final(self).queue().view(), final(self).gates_view()),
    {
        self.current_time = 0;
        self.event_queue.clear();
        let mut i: usize = 0;
        while i < self.gates.len()
            invariant
                self.wf(),
                self.current_time == 0,
                self.running == old(self).running,
                self.wires@ == old(self).wires@,
                self.event_queue.view().len() == 0,
                self.event_queue.counter() == 0,
                0 <= i <= self.gates@.len(),
                same_netlist(*old(self), *self),
                forall|g: int|
                    0 <= g < i ==> {
                        let x = #[trigger] old(self).gates@[g];
                        let y = self.gates@[g];
                        &&& y.spec_inputs() == unknowns(x.spec_inputs().len())
                        &&& y.spec_outputs() == x.spec_reset_outputs()
                        &&& y.spec_level() == StateType::Zero
                    },
                forall|g: int| i <= g < self.gates@.len() ==> self.gates@[g] == old(self).gates@[g],
            decreases self.gates@.len() - i,
        {
            let ghost before = self.gates@;
            self.gates[i].reset();
            proof {
                lemma_same_kind(before[i as int], self.gates@[i as int]);
                assert(gate_shape_ok(before[i as int]));
                assert forall|j: int| 0 <= j < self.gates@.len() implies #[trigger] self.gates@[j].spec_id()
                    == before[j].spec_id() && gate_shape_ok(self.gates@[j]) by {
                    if j != i {
                        assert(self.gates@[j] == before[j]);
                    }
                }
                assert forall|a: int, b: int| 0 <= a < b < self.gates@.len() implies #[trigger] self.gates@[a].spec_id()
                    != #[trigger] self.gates@[b].spec_id() by {
                    assert(before[a].spec_id() != before[b].spec_id());
                }
            }
            i = i + 1;
        }
        let mut w: usize = 0;
        while w < self.wires.len()
            invariant
                self.wf(),
                self.current_time == 0,
                self.running == old(self).running,
                self.event_queue.view().len() == 0,
                self.event_queue.counter() == 0,
                0 <= w <= self.wires@.len(),
                same_netlist(*old(self), *self),
                forall|g: int|
                    0 <= g < self.gates@.len() ==> {
                        let x = #[trigger] old(self).gates@[g];
                        let y = self.gates@[g];
                        &&& y.spec_inputs() == unknowns(x.spec_inputs().len())
                        &&& y.spec_outputs() == x.spec_reset_outputs()
                        &&& y.spec_level() == StateType::Zero
                    },
                forall|j: int|
                    0 <= j < w ==> self.wires@[j] == with_state(
                        #[trigger] old(self).wires@[j],
                        StateType::Unknown,
                    ),
                forall|j: int| w <= j < self.wires@.len() ==> self.wires@[j] == old(self).wires@[j],
            decreases self.wires@.len() - w,
        {
            let ghost before = self.wires@;
            self.wires[w].state = StateType::Unknown;
            proof {
                assert forall|a: int, b: int| 0 <= a < b < self.wires@.len() implies #[trigger] self.wires@[a].id@
                    != #[trigger] self.wires@[b].id@ by {
                    assert(before[a].id@ != before[b].id@);
                }
            }
            w = w + 1;
        }
        self.seed_initial_evaluations();
    }

    /// Requests a full evaluation of `gate_id` at `time`.  Once every sequence
    /// number is spent no further request can be ordered, and none is added.
    fn schedule_gate_evaluation(&mut self, gate_id: String, time: u64)
        requires
            old(self).wf(),
            time <= old(self).current_time + 1,
        ensures
            final(self).wf(),
            final(self).gates@ == old(self).gates@,
            final(self).wires@ == old(self).wires@,
            final(self).current_time == old(self).current_time,
            final(self).running == old(self).running,
            old(self).event_queue.counter() < u64::MAX ==> final(self).event_queue.counter()
                == old(self).event_queue.counter() + 1 && pushed(
                old(self).event_queue.view(),
                final(self).event_queue.view(),
                evaluation_request(time, gate_id, old(self).event_queue.counter()),
            ),
            old(self).event_queue.counter() == u64::MAX ==> final(self).event_queue
                == old(self).event_queue,
    {
        if self.event_queue.next_sequence() < u64::MAX {
            self.event_queue.push(time, gate_id, -1, StateType::Unknown);
            proof {
                let q = self.event_queue.view();
                assert forall|i: int| 0 <= i < q.len() implies #[trigger] q[i].time
                    <= self.current_time + 1 by {
                    let k = choose|k: int|
                        0 <= k <= old(self).event_queue.view().len() && q
                            == old(self).event_queue.view().insert(
                            k,
                            evaluation_request(time, gate_id, old(self).event_queue.counter()),
                        );
                    if i < k {
                        assert(q[i] == old(self).event_queue.view()[i]);
                    } else if i > k {
                        assert(q[i] == old(self).event_queue.view()[i - 1]);
                    }
                }
            }
        }
    }

    fn collect_drivers(&self, gate_id: &String, port: u32) -> (r: Vec<StateType>)
        ensures
            r@ == drivers(self.wires@, gate_id@, port),
    {
        let mut r: Vec<StateType> = Vec::new();
        let mut i: usize = 0;
        while i < self.wires.len()
            invariant
                0 <= i <= self.wires@.len(),
                r@ == drivers(self.wires@.take(i as int), gate_id@, port),
            decreases self.wires@.len() - i,
        {
            assert(self.wires@.take(i + 1).drop_last() == self.wires@.take(i as int));
            if self.wires[i].target_gate_id == *gate_id && self.wires[i].target_port_index == port {
                r.push(self.wires[i].state);
            }
            i = i + 1;
        }
        assert(self.wires@.take(self.wires@.len() as int) == self.wires@);
        r
    }

    /// Carries `new_state` onto wire `wire_id`. When that changes the wire, the
    /// target port is resolved from all its drivers and the target gate is scheduled
    /// for the next tick; when it does not, nothing changes at all.
    pub fn propagate_wire_state(&mut self, wire_id: &str, new_state: StateType)
        requires
            old(self).wf(),
            old(self).time() < u64::MAX,
        ensures
            final(self).wf(),
            final(self).time() == old(self).time(),
            final(self).running_flag() == old(self).running_flag(),
            same_netlist(*old(self), *final(self)),
            forall|g: int|
                0 <= g < old(self).gates_view().len() ==> (#[trigger] final(self).gates_view()[g]).spec_outputs()
                    == old(self).gates_view()[g].spec_outputs() && final(self).gates_view()[g].spec_level()
                    == old(self).gates_view()[g].spec_level(),
            propagated(*old(self), wire_id@, new_state, *final(self)),
    {
        let key = wire_id.to_owned();
        let k = match self.find_wire(&key) {
            Some(k) => k,
            None => return ,
        };
        if self.wires[k].state == new_state {
            return ;
        }
        self.wires[k].state = new_state;
        proof {
            let w = old(self).wires@[k as int];
            assert(self.wires@ == old(self).wires@.update(k as int, with_state(w, new_state)));
            assert forall|i: int, j: int| 0 <= i < j < self.wires@.len() implies #[trigger] self.wires@[i].id@
                != #[trigger] self.wires@[j].id@ by {
                assert(old(self).wires@[i].id@ != old(self).wires@[j].id@);
            }
        }
        let target_gate_id = self.wires[k].target_gate_id.clone();
        let target_port_index = self.wires[k].target_port_index;
        let input_states = self.collect_drivers(&target_gate_id, target_port_index);
        let resolved_state = resolve_wire_state(input_states.as_slice());
        match self.find_gate(&target_gate_id) {
            Some(g) => {
                let ghost before = self.gates@;
                self.gates[g].set_input(target_port_index as usize, resolved_state);
                proof {
                    lemma_same_kind(before[g as int], self.gates@[g as int]);
                    assert(self.gates@[g as int].spec_inputs().len() == before[g as int].spec_inputs().len());
                    assert forall|i: int| 0 <= i < self.gates@.len() implies #[trigger] self.gates@[i].spec_id()
                        == before[i].spec_id() && gate_shape_ok(self.gates@[i]) by {
                        if i == g {
                            assert(gate_shape_ok(before[i]));
                        } else {
                            assert(self.gates@[i] == before[i]);
                        }
                    }
                    assert forall|i: int, j: int| 0 <= i < j < self.gates@.len() implies #[trigger] self.gates@[i].spec_id()
                        != #[trigger] self.gates@[j].spec_id() by {
                        assert(before[i].spec_id() != before[j].spec_id());
                    }
                }
            },
            None => {},
        }
        self.schedule_gate_evaluation(target_gate_id, self.current_time + PROPAGATION_DELAY);
    }
}

} // verus!
