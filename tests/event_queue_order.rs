use metalogic_core::event_queue::EventQueue;
use metalogic_core::state::StateType;

#[test]
fn test_event_ordering() {
    let mut queue = EventQueue::new();

    queue.push(10, "gate1".to_string(), 0, StateType::One);
    queue.push(5, "gate2".to_string(), 0, StateType::Zero);
    queue.push(15, "gate3".to_string(), 0, StateType::One);

    assert_eq!(queue.pop().unwrap().time, 5);
    assert_eq!(queue.pop().unwrap().time, 10);
    assert_eq!(queue.pop().unwrap().time, 15);
}

#[test]
fn test_same_time_ordering() {
    let mut queue = EventQueue::new();

    queue.push(10, "gate1".to_string(), 0, StateType::One);
    queue.push(10, "gate2".to_string(), 0, StateType::Zero);
    queue.push(10, "gate3".to_string(), 0, StateType::One);

    assert_eq!(queue.pop().unwrap().gate_id, "gate1");
    assert_eq!(queue.pop().unwrap().gate_id, "gate2");
    assert_eq!(queue.pop().unwrap().gate_id, "gate3");
}

#[test]
fn equal_times_keep_push_order_among_others() {
    let mut queue = EventQueue::new();
    queue.push(7, "a".to_string(), -1, StateType::Unknown);
    queue.push(3, "x".to_string(), -1, StateType::Unknown);
    queue.push(7, "b".to_string(), -1, StateType::Unknown);
    queue.push(9, "y".to_string(), -1, StateType::Unknown);
    queue.push(7, "c".to_string(), -1, StateType::Unknown);
    let order: Vec<String> = (0..5).map(|_| queue.pop().unwrap().gate_id).collect();
    assert_eq!(order, vec!["x", "a", "b", "c", "y"]);
    assert!(queue.pop().is_none());
}

#[test]
fn peek_len_clear_and_sequence_numbers() {
    let mut queue = EventQueue::new();
    assert!(queue.is_empty());
    assert!(queue.peek().is_none());
    queue.push(4, "g".to_string(), 2, StateType::One);
    queue.push(1, "h".to_string(), -1, StateType::Zero);
    assert_eq!(queue.len(), 2);
    let head = queue.peek().unwrap();
    assert_eq!(head.gate_id, "h");
    assert_eq!(head.creation_time, 1);
    assert_eq!(head.port_index, -1);
    assert_eq!(queue.len(), 2);
    queue.clear();
    assert!(queue.is_empty());
    assert_eq!(queue.next_sequence(), 0);
    queue.push(2, "k".to_string(), 0, StateType::HiZ);
    let e = queue.pop().unwrap();
    assert_eq!(e.creation_time, 0);
    assert_eq!(e.new_state, StateType::HiZ);
}

#[test]
fn remove_events_for_gate_keeps_others_in_order() {
    let mut queue = EventQueue::new();
    queue.push(5, "a".to_string(), -1, StateType::Unknown);
    queue.push(5, "b".to_string(), -1, StateType::Unknown);
    queue.push(2, "a".to_string(), -1, StateType::Unknown);
    queue.push(5, "c".to_string(), -1, StateType::Unknown);
    queue.push(1, "b".to_string(), -1, StateType::Unknown);
    queue.remove_events_for_gate("a");
    assert_eq!(queue.len(), 3);
    let order: Vec<(u64, String)> = (0..3)
        .map(|_| {
            let e = queue.pop().unwrap();
            (e.time, e.gate_id)
        })
        .collect();
    assert_eq!(
        order,
        vec![(1, "b".to_string()), (5, "b".to_string()), (5, "c".to_string())]
    );
    queue.remove_events_for_gate("nothing");
    assert!(queue.is_empty());
}
