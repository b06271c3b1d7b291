//! The five-valued logic algebra and the resolution of wires with several drivers.
use vstd::prelude::*;

verus! {

/// A logic level carried by a wire or held at a gate port.
#[derive(Debug, Clone, Copy, PartialEq, Eq, Hash, Structural)]
pub enum StateType {
    Zero,
    One,
    HiZ,
    Conflict,
    Unknown,
}

/// The encoding used at the system boundary; out-of-range codes are `Unknown`.
pub open spec fn decode(value: u8) -> StateType {
    if value == 0 {
        StateType::Zero
    } else if value == 1 {
        StateType::One
    } else if value == 2 {
        StateType::HiZ
    } else if value == 3 {
        StateType::Conflict
    } else {
        StateType::Unknown
    }
}

pub open spec fn encode(s: StateType) -> u8 {
    match s {
        StateType::Zero => 0,
        StateType::One => 1,
        StateType::HiZ => 2,
        StateType::Conflict => 3,
        StateType::Unknown => 4,
    }
}

pub open spec fn not_spec(s: StateType) -> StateType {
    match s {
        StateType::Zero => StateType::One,
        StateType::One => StateType::Zero,
        StateType::HiZ => StateType::Unknown,
        StateType::Conflict => StateType::Conflict,
        StateType::Unknown => StateType::Unknown,
    }
}

/// `Zero` dominates, then `Conflict`, then `Unknown`; an undriven operand poisons to `Unknown`.
pub open spec fn and_spec(a: StateType, b: StateType) -> StateType {
    if a == StateType::Zero || b == StateType::Zero {
        StateType::Zero
    } else if a == StateType::Conflict || b == StateType::Conflict {
        StateType::Conflict
    } else if a == StateType::Unknown || b == StateType::Unknown || a == StateType::HiZ || b
        == StateType::HiZ {
        StateType::Unknown
    } else {
        StateType::One
    }
}

/// The mirror image of `and_spec`, with `One` dominant.
pub open spec fn or_spec(a: StateType, b: StateType) -> StateType {
    if a == StateType::One || b == StateType::One {
        StateType::One
    } else if a == StateType::Conflict || b == StateType::Conflict {
        StateType::Conflict
    } else if a == StateType::Unknown || b == StateType::Unknown || a == StateType::HiZ || b
        == StateType::HiZ {
        StateType::Unknown
    } else {
        StateType::Zero
    }
}

pub open spec fn xor_spec(a: StateType, b: StateType) -> StateType {
    if a == StateType::Conflict || b == StateType::Conflict {
        StateType::Conflict
    } else if a == StateType::Unknown || b == StateType::Unknown || a == StateType::HiZ || b
        == StateType::HiZ {
        StateType::Unknown
    } else if a == b {
        StateType::Zero
    } else {
        StateType::One
    }
}

/// The value at a port driven by all of `drivers` at once.
pub open spec fn resolve_spec(drivers: Seq<StateType>) -> StateType {
    if drivers.len() == 0 {
        StateType::HiZ
    } else if drivers.contains(StateType::Conflict) {
        StateType::Conflict
    } else if drivers.contains(StateType::Zero) && drivers.contains(StateType::One) {
        StateType::Conflict
    } else if drivers.contains(StateType::One) {
        StateType::One
    } else if drivers.contains(StateType::Zero) {
        StateType::Zero
    } else if drivers.contains(StateType::Unknown) {
        StateType::Unknown
    } else {
        StateType::HiZ
    }
}

/// Left fold of `and_spec` over the inputs of a gate; no inputs give `Unknown`.
pub open spec fn and_fold(s: Seq<StateType>) -> StateType
    decreases s.len(),
{
    if s.len() == 0 {
        StateType::Unknown
    } else if s.len() == 1 {
        s[0]
    } else {
        and_spec(and_fold(s.drop_last()), s.last())
    }
}

/// Combines all inputs with `and`, from the left.
pub fn reduce_and(inputs: &[StateType]) -> (r: StateType)
    ensures
        r == and_fold(inputs@),
{
    if inputs.len() == 0 {
        return StateType::Unknown;
    }
    let mut result = inputs[0];
    let mut i: usize = 1;
    while i < inputs.len()
        invariant
            1 <= i <= inputs.len(),
            result == and_fold(inputs@.take(i as int)),
        decreases inputs.len() - i,
    {
        assert(inputs@.take(i + 1).drop_last() == inputs@.take(i as int));
        result = result.and(inputs[i]);
        i = i + 1;
    }
    assert(inputs@.take(inputs.len() as int) == inputs@);
    result
}

/// Left fold of `or_spec` over the inputs of a gate; no inputs give `Unknown`.
pub open spec fn or_fold(s: Seq<StateType>) -> StateType
    decreases s.len(),
{
    if s.len() == 0 {
        StateType::Unknown
    } else if s.len() == 1 {
        s[0]
    } else {
        or_spec(or_fold(s.drop_last()), s.last())
    }
}

/// Combines all inputs with `or`, from the left.
pub fn reduce_or(inputs: &[StateType]) -> (r: StateType)
    ensures
        r == or_fold(inputs@),
{
    if inputs.len() == 0 {
        return StateType::Unknown;
    }
    let mut result = inputs[0];
    let mut i: usize = 1;
    while i < inputs.len()
        invariant
            1 <= i <= inputs.len(),
            result == or_fold(inputs@.take(i as int)),
        decreases inputs.len() - i,
    {
        assert(inputs@.take(i + 1).drop_last() == inputs@.take(i as int));
        result = result.or(inputs[i]);
        i = i + 1;
    }
    assert(inputs@.take(inputs.len() as int) == inputs@);
    result
}

/// Left fold of `xor_spec` over the inputs of a gate; no inputs give `Unknown`.
pub open spec fn xor_fold(s: Seq<StateType>) -> StateType
    decreases s.len(),
{
    if s.len() == 0 {
        StateType::Unknown
    } else if s.len() == 1 {
        s[0]
    } else {
        xor_spec(xor_fold(s.drop_last()), s.last())
    }
}

/// Combines all inputs with `xor`, from the left.
pub fn reduce_xor(inputs: &[StateType]) -> (r: StateType)
    ensures
        r == xor_fold(inputs@),
{
    if inputs.len() == 0 {
        return StateType::Unknown;
    }
    let mut result = inputs[0];
    let mut i: usize = 1;
    while i < inputs.len()
        invariant
            1 <= i <= inputs.len(),
            result == xor_fold(inputs@.take(i as int)),
        decreases inputs.len() - i,
    {
        assert(inputs@.take(i + 1).drop_last() == inputs@.take(i as int));
        result = result.xor(inputs[i]);
        i = i + 1;
    }
    assert(inputs@.take(inputs.len() as int) == inputs@);
    result
}

/// A driver in high impedance never changes what a port resolves to.
pub proof fn lemma_hiz_driver_is_neutral(drivers: Seq<StateType>, i: int)
    requires
        0 <= i <= drivers.len(),
    ensures
        resolve_spec(drivers.insert(i, StateType::HiZ)) == resolve_spec(drivers),
{
    lemma_insert_contains(drivers, i, StateType::HiZ);
}

/// A conflicting driver makes the whole port resolve to `Conflict`.
pub proof fn lemma_conflict_driver_absorbs(drivers: Seq<StateType>, i: int)
    requires
        0 <= i <= drivers.len(),
        drivers.len() > 0,
    ensures
        resolve_spec(drivers.insert(i, StateType::Conflict)) == StateType::Conflict,
{
    lemma_insert_contains(drivers, i, StateType::Conflict);
    assert(drivers.insert(i, StateType::Conflict)[i] == StateType::Conflict);
}

proof fn lemma_insert_contains(s: Seq<StateType>, i: int, v: StateType)
    requires
        0 <= i <= s.len(),
    ensures
        forall|x: StateType| s.insert(i, v).contains(x) <==> (s.contains(x) || v == x),
{
    let t = s.insert(i, v);
    assert forall|x: StateType| t.contains(x) <==> (s.contains(x) || v == x) by {
        if t.contains(x) {
            let k = choose|k: int| 0 <= k < t.len() && #[trigger] t[k] == x;
            if k < i {
                assert(s[k] == x);
            } else if k > i {
                assert(s[k - 1] == x);
            }
        }
        if s.contains(x) {
            let k = choose|k: int| 0 <= k < s.len() && #[trigger] s[k] == x;
            if k < i {
                assert(t[k] == x);
            } else {
                assert(t[k + 1] == x);
            }
        }
        if v == x {
            assert(t[i] == x);
        }
    }
}

/// `n` ports that have not been established yet.
pub open spec fn unknowns(n: nat) -> Seq<StateType> {
    Seq::new(n, |i: int| StateType::Unknown)
}

/// The first state of `s`, or `Unknown` when there is none.
pub open spec fn first_or_unknown(s: Seq<StateType>) -> StateType {
    if s.len() > 0 {
        s[0]
    } else {
        StateType::Unknown
    }
}

/// A fresh buffer of `n` unknown states.
pub fn unknown_states(n: usize) -> (r: Vec<StateType>)
    ensures
        r@ == unknowns(n as nat),
{
    let mut r: Vec<StateType> = Vec::new();
    let mut i: usize = 0;
    while i < n
        invariant
            0 <= i <= n,
            r@ == unknowns(i as nat),
        decreases n - i,
    {
        r.push(StateType::Unknown);
        i = i + 1;
    }
    r
}

impl StateType {
    pub fn from_u8(value: u8) -> (r: StateType)
        ensures
            r == decode(value),
    {
        match value {
            0 => StateType::Zero,
            1 => StateType::One,
            2 => StateType::HiZ,
            3 => StateType::Conflict,
            _ => StateType::Unknown,
        }
    }

    pub fn to_u8(self) -> (r: u8)
        ensures
            r == encode(self),
            decode(r) == self,
    {
        match self {
            StateType::Zero => 0,
            StateType::One => 1,
            StateType::HiZ => 2,
            StateType::Conflict => 3,
            StateType::Unknown => 4,
        }
    }

    pub fn not(self) -> (r: StateType)
        ensures
            r == not_spec(self),
    {
        match self {
            StateType::Zero => StateType::One,
            StateType::One => StateType::Zero,
            StateType::HiZ => StateType::Unknown,
            StateType::Conflict => StateType::Conflict,
            StateType::Unknown => StateType::Unknown,
        }
    }

    pub fn and(self, other: StateType) -> (r: StateType)
        ensures
            r == and_spec(self, other),
    {
        if self == StateType::Zero || other == StateType::Zero {
            return StateType::Zero;
        }
        if self == StateType::Conflict || other == StateType::Conflict {
            return StateType::Conflict;
        }
        if self == StateType::Unknown || other == StateType::Unknown {
            return StateType::Unknown;
        }
        if self == StateType::HiZ || other == StateType::HiZ {
            return StateType::Unknown;
        }
        StateType::One
    }

    pub fn or(self, other: StateType) -> (r: StateType)
        ensures
            r == or_spec(self, other),
    {
        if self == StateType::One || other == StateType::One {
            return StateType::One;
        }
        if self == StateType::Conflict || other == StateType::Conflict {
            return StateType::Conflict;
        }
        if self == StateType::Unknown || other == StateType::Unknown {
            return StateType::Unknown;
        }
        if self == StateType::HiZ || other == StateType::HiZ {
            return StateType::Unknown;
        }
        StateType::Zero
    }

    pub fn xor(self, other: StateType) -> (r: StateType)
        ensures
            r == xor_spec(self, other),
    {
        if self == StateType::Conflict || other == StateType::Conflict {
            return StateType::Conflict;
        }
        if self == StateType::Unknown || other == StateType::Unknown {
            return StateType::Unknown;
        }
        if self == StateType::HiZ || other == StateType::HiZ {
            return StateType::Unknown;
        }
        if self == other {
            StateType::Zero
        } else {
            StateType::One
        }
    }
}

impl Default for StateType {
    fn default() -> (r: StateType)
        ensures
            r == StateType::Unknown,
    {
        StateType::Unknown
    }
}

/// Resolves the value at a port from the states of every wire that drives it.
pub fn resolve_wire_state(sources: &[StateType]) -> (r: StateType)
    ensures
        r == resolve_spec(sources@),
{
    if sources.len() == 0 {
        return StateType::HiZ;
    }
    let mut has_zero = false;
    let mut has_one = false;
    let mut has_unknown = false;
    let mut i: usize = 0;
    while i < sources.len()
        invariant
            0 <= i <= sources.len(),
            !sources@.take(i as int).contains(StateType::Conflict),
            has_zero == sources@.take(i as int).contains(StateType::Zero),
            has_one == sources@.take(i as int).contains(StateType::One),
            has_unknown == sources@.take(i as int).contains(StateType::Unknown),
        decreases sources.len() - i,
    {
        let s = sources[i];
        proof {
            lemma_take_step_contains(sources@, i as int);
        }
        match s {
            StateType::Conflict => {
                assert(sources@.contains(StateType::Conflict)) by {
                    assert(sources@[i as int] == StateType::Conflict);
                }
                return StateType::Conflict;
            },
            StateType::Zero => has_zero = true,
            StateType::One => has_one = true,
            StateType::Unknown => has_unknown = true,
            StateType::HiZ => {},
        }
        i = i + 1;
    }
    assert(sources@.take(sources@.len() as int) == sources@);
    if has_zero && has_one {
        StateType::Conflict
    } else if has_one {
        StateType::One
    } else if has_zero {
        StateType::Zero
    } else if has_unknown {
        StateType::Unknown
    } else {
        StateType::HiZ
    }
}

proof fn lemma_take_step_contains(s: Seq<StateType>, i: int)
    requires
        0 <= i < s.len(),
    ensures
        forall|x: StateType|
            s.take(i + 1).contains(x) <==> (s.take(i).contains(x) || s[i] == x),
{
    assert forall|x: StateType| s.take(i + 1).contains(x) <==> (s.take(i).contains(x) || s[i] == x) by {
        if s.take(i + 1).contains(x) {
            let k = choose|k: int| 0 <= k < i + 1 && #[trigger] s.take(i + 1)[k] == x;
            if k < i {
                assert(s.take(i)[k] == x);
            }
        }
        if s.take(i).contains(x) {
            let k = choose|k: int| 0 <= k < i && #[trigger] s.take(i)[k] == x;
            assert(s.take(i + 1)[k] == x);
        }
        if s[i] == x {
            assert(s.take(i + 1)[i] == x);
        }
    }
}

} // verus!
