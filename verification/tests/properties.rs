use ripple_carry::{add_assign_big, add_assign_with_carry, mul_add_assign_with_carry};

#[test]
fn digit_add_exact_equation() {
    let cases = [
        (0u32, 0u32, 0u32),
        (1, 2, 1),
        (u32::MAX, u32::MAX, 1),
        (u32::MAX, 0, 1),
        (123_456_789, 987_654_321, 0),
        (u32::MAX, u32::MAX, u32::MAX),
    ];
    for &(a0, b, c0) in &cases {
        let mut a = a0;
        let mut carry = c0;
        add_assign_with_carry(&mut a, b, &mut carry);
        assert!(a as u64 + ((carry as u64) << 32) == a0 as u64 + b as u64 + c0 as u64);
    }
}

#[test]
fn digit_add_full_width_carry_in() {
    let mut a: u32 = 0;
    let mut carry: u32 = u32::MAX;
    add_assign_with_carry(&mut a, 0, &mut carry);
    assert!(a == u32::MAX);
    assert!(carry == 0);

    let mut a: u32 = u32::MAX;
    let mut carry: u32 = u32::MAX;
    add_assign_with_carry(&mut a, u32::MAX, &mut carry);
    assert!(a == u32::MAX - 2);
    assert!(carry == 2);
}

#[test]
fn mul_add_exact_equation() {
    let cases = [
        (0u32, u32::MAX, u32::MAX, 0u32),
        (5, 2, 3, 7),
        (u32::MAX, u32::MAX, u32::MAX, u32::MAX),
        (1, 0, 0, u32::MAX),
        (0, 0x1000_0000, 16, 0),
    ];
    for &(a0, b, c, k0) in &cases {
        let mut a = a0;
        let mut carry = k0;
        mul_add_assign_with_carry(&mut a, b, c, &mut carry);
        assert!(
            a as u128 + ((carry as u128) << 32)
                == a0 as u128 + (b as u128) * (c as u128) + k0 as u128
        );
    }
}

#[test]
fn mul_add_boundary() {
    let mut a: u32 = 0;
    let mut carry: u32 = 0;
    mul_add_assign_with_carry(&mut a, u32::MAX, u32::MAX, &mut carry);
    assert!(a == 1);
    assert!(carry == u32::MAX - 1);
}

#[test]
fn sequence_matches_digit_threading() {
    let a0: Vec<u32> = vec![0xdead_beef, u32::MAX, 7, 0];
    let b: [u32; 2] = [0x2152_4110, 1];
    let mut a = a0.clone();
    let overflow = add_assign_big(&mut a, &b);

    let mut expect = a0.clone();
    let mut carry: u32 = 0;
    for i in 0..expect.len() {
        let bi = if i < b.len() { b[i] } else { 0 };
        add_assign_with_carry(&mut expect[i], bi, &mut carry);
    }
    assert!(a == expect);
    assert!(overflow == carry);
}

#[test]
fn short_circuit_leaves_high_digits_unchanged() {
    let mut a: Vec<u32> = vec![1, 2, 7, 0xcafe_f00d];
    assert!(add_assign_big(&mut a, &[u32::MAX]) == 0);
    assert!(a == [0, 3, 7, 0xcafe_f00d]);
}

#[test]
fn carry_rides_through_all_high_digits() {
    let mut a: Vec<u32> = vec![u32::MAX, u32::MAX, u32::MAX];
    assert!(add_assign_big(&mut a, &[1]) == 1);
    assert!(a == [0, 0, 0]);

    let mut a: Vec<u32> = vec![1, u32::MAX, 7];
    assert!(add_assign_big(&mut a, &[u32::MAX]) == 0);
    assert!(a == [0, 0, 8]);
}

#[test]
fn empty_addend_is_a_no_op() {
    let mut a: Vec<u32> = vec![17, 4];
    assert!(add_assign_big(&mut a, &[]) == 0);
    assert!(a == [17, 4]);

    let mut a: Vec<u32> = vec![];
    assert!(add_assign_big(&mut a, &[]) == 0);
    assert!(a == []);
}

#[test]
fn single_digit_sequences() {
    let mut a: Vec<u32> = vec![u32::MAX];
    assert!(add_assign_big(&mut a, &[1]) == 1);
    assert!(a == [0]);

    let mut a: Vec<u32> = vec![2];
    assert!(add_assign_big(&mut a, &[3]) == 0);
    assert!(a == [5]);
}
