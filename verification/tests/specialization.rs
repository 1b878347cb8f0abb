use cutile::specialization::{DivHint, SpecializationBits, TileFunctionKey};

/// A hint with the default largest divisor.
fn dh(divisor: i32) -> DivHint {
    DivHint { divisor, max: 16 }
}

#[test]
fn different_spec_bits_different_cache_keys() {
    let spec_a = SpecializationBits {
        shape_div: vec![dh(16)],
        stride_div: vec![dh(16)],
        stride_one: vec![true],
        base_ptr_div: dh(16),
        elements_disjoint: true,
    };
    let spec_b = SpecializationBits {
        shape_div: vec![dh(8)],
        stride_div: vec![dh(8)],
        stride_one: vec![true],
        base_ptr_div: dh(8),
        elements_disjoint: true,
    };

    let key_a = TileFunctionKey::builder("m", "f")
        .spec_args(vec![("output".into(), spec_a.clone())])
        .build();
    let key_b = TileFunctionKey::builder("m", "f")
        .spec_args(vec![("output".into(), spec_b.clone())])
        .build();
    let key_a2 = TileFunctionKey::builder("m", "f")
        .spec_args(vec![("output".into(), spec_a)])
        .build();

    assert_ne!(
        key_a, key_b,
        "Different spec bits should produce different cache keys"
    );
    assert_eq!(
        key_a, key_a2,
        "Same spec bits should produce equal cache keys"
    );
}

#[test]
fn keys_tell_kernels_and_scalar_hints_apart() {
    let plain = TileFunctionKey::builder("m", "f").build();
    assert_ne!(plain, TileFunctionKey::builder("m", "g").build());
    assert_ne!(plain, TileFunctionKey::builder("n", "f").build());
    let hinted = TileFunctionKey::builder("m", "f")
        .scalar_hints(vec![("n".into(), dh(4))])
        .build();
    let other = TileFunctionKey::builder("m", "f")
        .scalar_hints(vec![("n".into(), dh(8))])
        .build();
    assert_ne!(plain, hinted);
    assert_ne!(hinted, other);
}

#[test]
fn scalar_hints_cover_powers_of_two_through_16() {
    let cases = [
        (1, None),
        (2, Some(2)),
        (4, Some(4)),
        (8, Some(8)),
        (16, Some(16)),
        (32, Some(16)),
        (12, Some(4)),
        (1024, Some(16)),
        (-12, Some(4)),
        (0, Some(16)),
        (i32::MIN, Some(16)),
    ];
    for (value, expected) in cases {
        assert_eq!(DivHint::from_value(value).assumed(), expected, "value {value}");
    }
    assert_eq!(DivHint::from_ptr(0x1000).assumed(), Some(16));
    assert_eq!(DivHint::from_ptr(0x1004).assumed(), Some(4));
}

#[test]
fn caps_lower_and_never_raise() {
    assert_eq!(DivHint::from_value(1024).with_max(4).assumed(), Some(4));
    assert_eq!(dh(4).with_max(8).divisor, 4);
    assert_eq!(dh(16).with_max(8).divisor, 8);
    assert_eq!(DivHint::default_hint().assumed(), None);
}
