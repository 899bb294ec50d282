use multisig_wallet::{Address, U256};

#[test]
fn from_usize_fills_the_lowest_limb() {
    assert_eq!(U256::from_usize(0).into_limbs(), [0, 0, 0, 0]);
    assert_eq!(U256::from_usize(1).into_limbs(), [1, 0, 0, 0]);
    assert_eq!(U256::from_usize(usize::MAX).into_limbs(), [usize::MAX as u64, 0, 0, 0]);
}

#[test]
fn limbs_go_in_and_come_out() {
    let limbs = [1, 2, 3, u64::MAX];
    assert_eq!(U256::from_limbs(limbs).into_limbs(), limbs);
    assert_eq!(U256::from_limbs(limbs), U256::from_limbs(limbs));
    assert_ne!(U256::from_limbs([1, 0, 0, 0]), U256::from_limbs([0, 1, 0, 0]));
}

#[test]
fn to_usize_where_the_value_fits() {
    assert_eq!(U256::from_usize(0).to_usize(), Some(0));
    assert_eq!(U256::from_usize(12345).to_usize(), Some(12345));
    assert_eq!(U256::from_usize(usize::MAX).to_usize(), Some(usize::MAX));
}

#[test]
fn to_usize_where_the_value_does_not_fit() {
    assert_eq!(U256::from_limbs([0, 1, 0, 0]).to_usize(), None);
    assert_eq!(U256::from_limbs([5, 0, 1, 0]).to_usize(), None);
    assert_eq!(U256::from_limbs([5, 0, 0, 1]).to_usize(), None);
    assert_eq!(U256::from_limbs([u64::MAX; 4]).to_usize(), None);
}

#[test]
fn limbs_agree_with_ruint() {
    for value in [0usize, 1, 255, 65536, usize::MAX] {
        let theirs = ruint::Uint::<256, 4>::from(value);
        assert_eq!(U256::from_usize(value).into_limbs(), *theirs.as_limbs());
        let back = U256::from_limbs(*theirs.as_limbs()).to_usize();
        assert_eq!(back, Some(theirs.to::<usize>()));
    }
    let large = ruint::Uint::<256, 4>::from_limbs([7, 8, 9, 10]);
    assert_eq!(U256::from_limbs(*large.as_limbs()).to_usize(), usize::try_from(large).ok());
}

#[test]
fn the_zero_address() {
    assert!(Address::zero().is_zero());
    assert!(Address::default().is_zero());
    assert!(Address([0; 20]).is_zero());
    assert_eq!(Address::zero(), Address([0; 20]));
    for i in 0..20 {
        let mut bytes = [0u8; 20];
        bytes[i] = 1;
        assert!(!Address(bytes).is_zero());
        assert_ne!(Address(bytes), Address::zero());
    }
}

#[test]
fn addresses_are_equal_byte_by_byte() {
    let a = Address([7; 20]);
    let mut bytes = [7u8; 20];
    assert_eq!(a, Address(bytes));
    bytes[19] = 8;
    assert_ne!(a, Address(bytes));
    bytes[19] = 7;
    bytes[0] = 6;
    assert_ne!(a, Address(bytes));
}
