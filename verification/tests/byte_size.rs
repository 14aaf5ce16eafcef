use eas::byte_size::ByteSize;

#[test]
fn overlap_of_the_named_pairs() {
    assert_eq!(ByteSize::Exact(4).overlap(&ByteSize::Exact(4)), Some(ByteSize::Exact(4)));
    assert_eq!(ByteSize::Exact(4).overlap(&ByteSize::Exact(5)), None);
    assert_eq!(ByteSize::Exact(4).overlap(&ByteSize::Range(1..8)), Some(ByteSize::Exact(4)));
    assert_eq!(
        ByteSize::Range(1..4).overlap(&ByteSize::Range(2..8)),
        Some(ByteSize::Range(2..4))
    );
    assert_eq!(ByteSize::Range(1..2).overlap(&ByteSize::Exact(4)), None);
}

#[test]
fn overlap_is_commutative_on_samples() {
    let samples = vec![
        ByteSize::Exact(0),
        ByteSize::Exact(1),
        ByteSize::Exact(4),
        ByteSize::Exact(8),
        ByteSize::Range(0..1),
        ByteSize::Range(1..2),
        ByteSize::Range(1..4),
        ByteSize::Range(2..8),
        ByteSize::Range(4..8),
        ByteSize::Range(5..5),
        ByteSize::Range(7..3),
        ByteSize::AnySize,
    ];
    for a in &samples {
        for b in &samples {
            assert_eq!(a.overlap(b), b.overlap(a));
        }
    }
}

#[test]
fn overlap_with_any_size_keeps_the_other() {
    assert_eq!(ByteSize::AnySize.overlap(&ByteSize::Exact(3)), Some(ByteSize::Exact(3)));
    assert_eq!(ByteSize::Exact(3).overlap(&ByteSize::AnySize), Some(ByteSize::Exact(3)));
    assert_eq!(ByteSize::AnySize.overlap(&ByteSize::Range(2..5)), Some(ByteSize::Range(2..5)));
    assert_eq!(ByteSize::Range(2..5).overlap(&ByteSize::AnySize), Some(ByteSize::Range(2..5)));
    assert_eq!(ByteSize::AnySize.overlap(&ByteSize::AnySize), Some(ByteSize::AnySize));
}

#[test]
fn overlap_of_disjoint_and_empty_ranges_is_none() {
    assert_eq!(ByteSize::Range(1..2).overlap(&ByteSize::Range(2..8)), None);
    assert_eq!(ByteSize::Range(1..2).overlap(&ByteSize::Range(4..8)), None);
    assert_eq!(ByteSize::Range(3..3).overlap(&ByteSize::AnySize), None);
    assert_eq!(ByteSize::AnySize.overlap(&ByteSize::Range(5..2)), None);
    assert_eq!(ByteSize::Exact(8).overlap(&ByteSize::Range(1..8)), None);
}

#[test]
fn contains_and_smallest() {
    assert!(ByteSize::Range(1..8).contains(1));
    assert!(ByteSize::Range(1..8).contains(7));
    assert!(!ByteSize::Range(1..8).contains(8));
    assert!(!ByteSize::Range(1..8).contains(0));
    assert!(ByteSize::Exact(2).contains(2));
    assert!(!ByteSize::Exact(2).contains(3));
    assert!(ByteSize::AnySize.contains(1000));
    assert_eq!(ByteSize::Range(3..8).smallest(), 3);
    assert_eq!(ByteSize::Exact(5).smallest(), 5);
    assert_eq!(ByteSize::AnySize.smallest(), 0);
    assert!(ByteSize::Range(4..4).admits_nothing());
    assert!(!ByteSize::Range(4..5).admits_nothing());
    assert!(!ByteSize::AnySize.admits_nothing());
}

#[test]
fn text_of_sizes() {
    assert_eq!(ByteSize::Exact(4).to_text(), "4b");
    assert_eq!(ByteSize::Exact(0).to_text(), "0b");
    assert_eq!(ByteSize::Exact(1234567890).to_text(), "1234567890b");
    assert_eq!(ByteSize::Range(1..8).to_text(), "(1..8)b");
    assert_eq!(ByteSize::AnySize.to_text(), "AnySize");
    assert!(ByteSize::Range(1..8).same(&ByteSize::Range(1..8)));
    assert!(!ByteSize::Range(1..8).same(&ByteSize::Range(1..7)));
    assert_eq!(ByteSize::Range(2..3).clone(), ByteSize::Range(2..3));
}
