use zenrc::bt::{
    BaseNode, BlackboardPtr, BlackboardValue, BtNode, Composite, Node, Selector, Sequence, Status,
    StatefulSelector, StatefulSequence,
};

#[test]
fn blackboard_get_and_insert() {
    let mut bb = BlackboardPtr::new();
    assert!(bb.get("speed").is_none());
    bb.insert("speed".to_string(), BlackboardValue::Int(7));
    bb.insert("name".to_string(), BlackboardValue::Text("rover".to_string()));
    match bb.get("speed") {
        Some(BlackboardValue::Int(v)) => assert_eq!(*v, 7),
        _ => panic!("speed should be bound to an integer"),
    }
    match bb.get("name") {
        Some(BlackboardValue::Text(s)) => assert_eq!(s, "rover"),
        _ => panic!("name should be bound to a text"),
    }
    // Inserting an existing key replaces its value.
    bb.insert("speed".to_string(), BlackboardValue::Int(9));
    match bb.get("speed") {
        Some(BlackboardValue::Int(v)) => assert_eq!(*v, 9),
        _ => panic!("speed should still be bound"),
    }
    assert!(bb.get("missing").is_none());
}

#[test]
fn blackboard_clone_shares_content() {
    let mut bb = BlackboardPtr::new();
    bb.insert("flag".to_string(), BlackboardValue::Flag(true));
    let copy = bb.clone();
    match copy.get("flag") {
        Some(BlackboardValue::Flag(b)) => assert!(*b),
        _ => panic!("flag should be bound"),
    }
}

#[test]
fn base_node_ticks_to_success() {
    let mut n = BaseNode::new();
    assert_eq!(n.get_status(), Status::Invalid);
    assert!(!n.is_terminated());
    let s = n.tick();
    assert_eq!(s, Status::Success);
    assert!(n.is_success());
    assert!(n.is_terminated());
    assert!(!n.is_failure());
    assert!(!n.is_running());
    n.reset();
    assert_eq!(n.get_status(), Status::Invalid);
}

#[test]
fn sequence_succeeds_when_all_children_succeed() {
    let mut seq = Sequence::new(vec![
        BtNode::Base(BaseNode::new()),
        BtNode::Base(BaseNode::new()),
    ]);
    assert_eq!(seq.tick(), Status::Success);
    assert!(seq.is_success());
}

#[test]
fn sequence_fails_when_a_child_fails() {
    // An empty selector fails, failing the whole sequence.
    let failing = BtNode::Selector(Selector::new(vec![]));
    let mut seq = Sequence::new(vec![BtNode::Base(BaseNode::new()), failing]);
    assert_eq!(seq.tick(), Status::Failure);
    assert!(seq.is_failure());
}

#[test]
fn selector_takes_the_first_success() {
    let failing = BtNode::Selector(Selector::new(vec![]));
    let mut sel = Selector::new(vec![failing, BtNode::Base(BaseNode::new())]);
    assert_eq!(sel.tick(), Status::Success);
}

#[test]
fn empty_selector_fails_and_empty_sequence_succeeds() {
    let mut sel = Selector::new(vec![]);
    assert_eq!(sel.tick(), Status::Failure);
    let mut seq = Sequence::new(vec![]);
    assert_eq!(seq.tick(), Status::Success);
}

#[test]
fn stateful_variants_run_their_children() {
    let mut seq = StatefulSequence::new(vec![
        BtNode::Base(BaseNode::new()),
        BtNode::Base(BaseNode::new()),
    ]);
    assert_eq!(seq.tick(), Status::Success);
    // A second tick re-runs the children from the rewound position.
    assert_eq!(seq.tick(), Status::Success);

    let failing = BtNode::Selector(Selector::new(vec![]));
    let mut sel = StatefulSelector::new(vec![failing, BtNode::Base(BaseNode::new())]);
    assert_eq!(sel.tick(), Status::Success);
}

#[test]
fn nested_trees_tick_recursively() {
    let inner = Sequence::new(vec![
        BtNode::Base(BaseNode::new()),
        BtNode::Base(BaseNode::new()),
    ]);
    let mut outer = Selector::new(vec![
        BtNode::Selector(Selector::new(vec![])),
        BtNode::Sequence(inner),
    ]);
    assert_eq!(outer.tick(), Status::Success);
}

#[test]
fn composite_child_editing() {
    let mut seq = Sequence::new(vec![]);
    assert_eq!(seq.get_children().len(), 0);
    seq.add_child(BtNode::Base(BaseNode::new()));
    seq.add_child(BtNode::Selector(Selector::new(vec![])));
    assert_eq!(seq.get_children().len(), 2);
    let removed = seq.remove_child(1);
    assert!(removed.is_some());
    assert!(seq.remove_child(5).is_none());
    assert_eq!(seq.get_children().len(), 1);
    seq.clear_children();
    assert_eq!(seq.get_children().len(), 0);
}

#[test]
fn set_blackboard_reaches_every_child() {
    let mut bb = BlackboardPtr::new();
    bb.insert("speed".to_string(), BlackboardValue::Int(3));
    let mut seq = Sequence::new(vec![
        BtNode::Base(BaseNode::new()),
        BtNode::Sequence(Sequence::new(vec![BtNode::Base(BaseNode::new())])),
    ]);
    assert!(seq.get_blackboard().is_none());
    seq.set_blackboard(bb);
    let own = seq.get_blackboard().expect("the composite holds the blackboard");
    match own.get("speed") {
        Some(BlackboardValue::Int(v)) => assert_eq!(*v, 3),
        _ => panic!("speed should be bound"),
    }
    // The children received it too, down to the grandchild.
    let child = &seq.get_children()[1];
    let child_bb = child.get_blackboard().expect("the child holds the blackboard");
    assert!(child_bb.get("speed").is_some());
}
