use adaptive_engine::sequence::SequenceNumber;

#[test]
fn test_new_sequence_number() {
    let seq = SequenceNumber::new(42);
    assert_eq!(seq.components(), &[42]);
    assert_eq!(seq.to_string(), "42");
}

#[test]
fn test_child_sequence_number() {
    let root = SequenceNumber::new(1);
    let child1 = root.child(1);
    let child2 = root.child(2);
    let grandchild = child1.child(3);

    assert_eq!(child1.to_string(), "1.1");
    assert_eq!(child2.to_string(), "1.2");
    assert_eq!(grandchild.to_string(), "1.1.3");
}

#[test]
fn test_sequence_number_comparison() {
    let seq1_1 = SequenceNumber::new(1).child(1);
    let seq1_2 = SequenceNumber::new(1).child(2);
    let seq1_1_1 = seq1_1.child(1);

    assert!(seq1_1 < seq1_2);
    assert!(seq1_1 < seq1_1_1);
    assert!(seq1_2 > seq1_1);
}

#[test]
fn test_sequence_number_depth() {
    let root = SequenceNumber::new(1);
    assert_eq!(root.depth(), 1);

    let child = root.child(1);
    assert_eq!(child.depth(), 2);

    let grandchild = child.child(2);
    assert_eq!(grandchild.depth(), 3);
}

#[test]
fn test_from_conversions() {
    let seq1: SequenceNumber = 42.into();
    assert_eq!(seq1.to_string(), "42");

    let seq2: SequenceNumber = vec![1, 2, 3].into();
    assert_eq!(seq2.to_string(), "1.2.3");
}

#[test]
fn sequence_precedes_matches_order() {
    let a = SequenceNumber::new(1).child(1);
    let b = SequenceNumber::new(1).child(2);
    let c = a.child(7);
    assert!(a.precedes(&b));
    assert!(a.precedes(&c));
    assert!(c.precedes(&b));
    assert!(!b.precedes(&a));
    assert!(!a.precedes(&a));
}

#[test]
fn sequence_as_u64_is_first_component() {
    assert_eq!(SequenceNumber::new(5).child(9).as_u64(), 5);
    assert_eq!(SequenceNumber::from_components(vec![0, 18446744073709551615]).to_string(), "0.18446744073709551615");
    assert_eq!(SequenceNumber::new(3).duplicate(), SequenceNumber::new(3));
}
