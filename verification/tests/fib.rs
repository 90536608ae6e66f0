use order_ledger::fib::generate_fibonacci_array;

#[test]
fn first_ten_fibonacci_numbers() {
    let a = generate_fibonacci_array(10);
    assert_eq!(a, vec![0, 1, 1, 2, 3, 5, 8, 13, 21, 34]);
}

#[test]
fn short_fibonacci_arrays() {
    assert_eq!(generate_fibonacci_array(0), Vec::<u64>::new());
    assert_eq!(generate_fibonacci_array(1), vec![0]);
    assert_eq!(generate_fibonacci_array(2), vec![0, 1]);
    assert_eq!(generate_fibonacci_array(3), vec![0, 1, 1]);
}

#[test]
fn largest_fibonacci_number_that_fits() {
    let a = generate_fibonacci_array(94);
    assert_eq!(a.len(), 94);
    assert_eq!(a[93], 12200160415121876738);
    assert_eq!(a[92], 7540113804746346429);
}
