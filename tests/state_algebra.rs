use metalogic_core::state::StateType::{Conflict, HiZ, One, Unknown, Zero};
use metalogic_core::state::{resolve_wire_state, StateType};

const ALL: [StateType; 5] = [
    StateType::Zero,
    StateType::One,
    StateType::HiZ,
    StateType::Conflict,
    StateType::Unknown,
];

#[test]
fn test_not() {
    assert_eq!(StateType::Zero.not(), StateType::One);
    assert_eq!(StateType::One.not(), StateType::Zero);
    assert_eq!(StateType::HiZ.not(), StateType::Unknown);
}

#[test]
fn test_and() {
    assert_eq!(StateType::Zero.and(StateType::Zero), StateType::Zero);
    assert_eq!(StateType::Zero.and(StateType::One), StateType::Zero);
    assert_eq!(StateType::One.and(StateType::One), StateType::One);
}

#[test]
fn test_wire_resolution() {
    assert_eq!(resolve_wire_state(&[]), StateType::HiZ);
    assert_eq!(resolve_wire_state(&[StateType::HiZ]), StateType::HiZ);
    assert_eq!(resolve_wire_state(&[StateType::One]), StateType::One);
    assert_eq!(resolve_wire_state(&[StateType::Zero, StateType::One]), StateType::Conflict);
}

#[test]
fn not_table_is_complete() {
    let expected = [One, Zero, Unknown, Conflict, Unknown];
    for (s, e) in ALL.iter().zip(expected.iter()) {
        assert_eq!(s.not(), *e);
    }
}

fn reference_and(a: StateType, b: StateType) -> StateType {
    if a == Zero || b == Zero {
        Zero
    } else if a == Conflict || b == Conflict {
        Conflict
    } else if a == Unknown || b == Unknown || a == HiZ || b == HiZ {
        Unknown
    } else {
        One
    }
}

#[test]
fn and_table_is_complete() {
    // rows: Zero, One, HiZ, Conflict, Unknown
    let table = [
        [Zero, Zero, Zero, Zero, Zero],
        [Zero, One, Unknown, Conflict, Unknown],
        [Zero, Unknown, Unknown, Conflict, Unknown],
        [Zero, Conflict, Conflict, Conflict, Conflict],
        [Zero, Unknown, Unknown, Conflict, Unknown],
    ];
    for (i, a) in ALL.iter().enumerate() {
        for (j, b) in ALL.iter().enumerate() {
            assert_eq!(a.and(*b), table[i][j]);
            assert_eq!(reference_and(*a, *b), table[i][j]);
        }
    }
}

#[test]
fn or_table_is_complete() {
    let table = [
        [Zero, One, Unknown, Conflict, Unknown],
        [One, One, One, One, One],
        [Unknown, One, Unknown, Conflict, Unknown],
        [Conflict, One, Conflict, Conflict, Conflict],
        [Unknown, One, Unknown, Conflict, Unknown],
    ];
    for (i, a) in ALL.iter().enumerate() {
        for (j, b) in ALL.iter().enumerate() {
            assert_eq!(a.or(*b), table[i][j]);
        }
    }
}

#[test]
fn xor_table_is_complete() {
    let table = [
        [Zero, One, Unknown, Conflict, Unknown],
        [One, Zero, Unknown, Conflict, Unknown],
        [Unknown, Unknown, Unknown, Conflict, Unknown],
        [Conflict, Conflict, Conflict, Conflict, Conflict],
        [Unknown, Unknown, Unknown, Conflict, Unknown],
    ];
    for (i, a) in ALL.iter().enumerate() {
        for (j, b) in ALL.iter().enumerate() {
            assert_eq!(a.xor(*b), table[i][j]);
        }
    }
}

fn reference_resolve(drivers: &[StateType]) -> StateType {
    if drivers.is_empty() {
        return HiZ;
    }
    if drivers.contains(&Conflict) {
        return Conflict;
    }
    let zero = drivers.contains(&Zero);
    let one = drivers.contains(&One);
    if zero && one {
        Conflict
    } else if one {
        One
    } else if zero {
        Zero
    } else if drivers.contains(&Unknown) {
        Unknown
    } else {
        HiZ
    }
}

#[test]
fn resolution_of_every_small_driver_set() {
    let mut sets: Vec<Vec<StateType>> = vec![vec![]];
    for a in ALL.iter() {
        sets.push(vec![*a]);
        for b in ALL.iter() {
            sets.push(vec![*a, *b]);
            for c in ALL.iter() {
                sets.push(vec![*a, *b, *c]);
            }
        }
    }
    for s in sets.iter() {
        assert_eq!(resolve_wire_state(s), reference_resolve(s));
    }
    assert_eq!(resolve_wire_state(&[Unknown, HiZ]), Unknown);
    assert_eq!(resolve_wire_state(&[Zero, HiZ, HiZ]), Zero);
    assert_eq!(resolve_wire_state(&[One, Unknown]), One);
    assert_eq!(resolve_wire_state(&[HiZ, Conflict]), Conflict);
}

#[test]
fn hiz_driver_never_changes_resolution() {
    let mut sets: Vec<Vec<StateType>> = vec![vec![]];
    for a in ALL.iter() {
        sets.push(vec![*a]);
        for b in ALL.iter() {
            sets.push(vec![*a, *b]);
        }
    }
    for s in sets.iter() {
        for pos in 0..=s.len() {
            let mut t = s.clone();
            t.insert(pos, StateType::HiZ);
            assert_eq!(resolve_wire_state(&t), resolve_wire_state(s));
        }
    }
}

#[test]
fn conflict_driver_absorbs() {
    for a in ALL.iter() {
        for b in ALL.iter() {
            let s = vec![*a, *b, StateType::Conflict];
            assert_eq!(resolve_wire_state(&s), StateType::Conflict);
            let t = vec![StateType::Conflict, *a];
            assert_eq!(resolve_wire_state(&t), StateType::Conflict);
        }
    }
}

#[test]
fn boundary_encoding_round_trips() {
    for (i, s) in ALL.iter().enumerate() {
        assert_eq!(s.to_u8(), i as u8);
        assert_eq!(StateType::from_u8(i as u8), *s);
    }
    assert_eq!(StateType::from_u8(5), StateType::Unknown);
    assert_eq!(StateType::from_u8(255), StateType::Unknown);
    assert_eq!(StateType::default(), StateType::Unknown);
}
