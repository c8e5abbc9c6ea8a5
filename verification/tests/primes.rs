use myls::primes::is_prime;

#[test]
fn small_numbers() {
    let primes = [2u32, 3, 5, 7, 11, 13, 17, 19, 23, 29, 31, 37, 41, 43, 47];
    for num in 2..50u32 {
        assert_eq!(is_prime(num), primes.contains(&num), "number {num}");
    }
}

#[test]
fn zero_and_one_have_no_divisor_either() {
    assert!(is_prime(0));
    assert!(is_prime(1));
}

#[test]
fn larger_numbers() {
    assert!(is_prime(7919));
    assert!(is_prime(104_729));
    assert!(!is_prime(7917));
    assert!(!is_prime(104_727));
    assert!(!is_prime(7919 * 7));
}
