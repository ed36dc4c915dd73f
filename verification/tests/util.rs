use chip8::util::get_digits;

#[test]
fn digits_of_255() {
    let mut digits = Vec::new();
    get_digits(255, &mut digits);
    assert_eq!(digits, vec![2, 5, 5]);
}

#[test]
fn digits_of_7_have_leading_zeros() {
    let mut digits = Vec::new();
    get_digits(7, &mut digits);
    assert_eq!(digits, vec![0, 0, 7]);
}

#[test]
fn digits_of_zero_are_three_zeros() {
    let mut digits = Vec::new();
    get_digits(0, &mut digits);
    assert_eq!(digits, vec![0, 0, 0]);
}

#[test]
fn digits_of_two_digit_values() {
    let mut digits = Vec::new();
    get_digits(10, &mut digits);
    assert_eq!(digits, vec![0, 1, 0]);

    let mut digits = Vec::new();
    get_digits(99, &mut digits);
    assert_eq!(digits, vec![0, 9, 9]);
}

#[test]
fn digits_of_three_digit_values() {
    let mut digits = Vec::new();
    get_digits(100, &mut digits);
    assert_eq!(digits, vec![1, 0, 0]);

    let mut digits = Vec::new();
    get_digits(123, &mut digits);
    assert_eq!(digits, vec![1, 2, 3]);

    let mut digits = Vec::new();
    get_digits(999, &mut digits);
    assert_eq!(digits, vec![9, 9, 9]);
}

#[test]
fn digits_of_larger_values_are_all_there() {
    let mut digits = Vec::new();
    get_digits(1000, &mut digits);
    assert_eq!(digits, vec![1, 0, 0, 0]);

    let mut digits = Vec::new();
    get_digits(65535, &mut digits);
    assert_eq!(digits, vec![6, 5, 5, 3, 5]);
}

#[test]
fn digits_are_the_hundreds_tens_and_ones_of_every_byte() {
    for value in 0u16..=255 {
        let mut digits = Vec::new();
        get_digits(value, &mut digits);
        assert_eq!(
            digits,
            vec![(value / 100) as u8, ((value / 10) % 10) as u8, (value % 10) as u8]
        );
    }
}

#[test]
fn digits_go_behind_what_is_there_and_all_is_reversed() {
    let mut digits = vec![9];
    get_digits(12, &mut digits);
    assert_eq!(digits, vec![1, 2, 9]);

    let mut digits = vec![9];
    get_digits(0, &mut digits);
    assert_eq!(digits, vec![0, 0, 9]);

    let mut digits = vec![4, 5, 6, 7];
    get_digits(0, &mut digits);
    assert_eq!(digits, vec![7, 6, 5, 4]);

    let mut digits = vec![4, 5];
    get_digits(321, &mut digits);
    assert_eq!(digits, vec![3, 2, 1, 5, 4]);
}
