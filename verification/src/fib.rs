//! A Fibonacci array generator: the first `array_size` Fibonacci numbers in
//! order, starting from 0 and 1.

use vstd::prelude::*;

verus! {

/// The Fibonacci numbers: 0, 1, 1, 2, 3, 5, ...
pub open spec fn spec_fib(n: nat) -> nat
    decreases n,
{
    if n == 0 {
        0
    } else if n == 1 {
        1
    } else {
        spec_fib((n - 1) as nat) + spec_fib((n - 2) as nat)
    }
}

/// Fills an array with the first `array_size` Fibonacci numbers. The
/// precondition asks only that every number produced fits a `u64`, which is
/// what the unchecked additions need.
pub fn generate_fibonacci_array(array_size: usize) -> (r: Vec<u64>)
    requires
        forall|n: nat| n < array_size ==> #[trigger] spec_fib(n) <= u64::MAX,
    ensures
        r@.len() == array_size,
        forall|i: int| 0 <= i < array_size ==> r@[i] == spec_fib(i as nat),
{
    let mut fib_array: Vec<u64> = Vec::new();
    let mut i: usize = 0;
    while i < array_size
        invariant
            i <= array_size,
            fib_array@.len() == i,
            forall|n: nat| n < array_size ==> #[trigger] spec_fib(n) <= u64::MAX,
            forall|j: int| 0 <= j < i ==> fib_array@[j] == spec_fib(j as nat),
        decreases array_size - i,
    {
        if i == 0 {
            fib_array.push(0);
        } else if i == 1 {
            fib_array.push(1);
        } else {
            proof {
                assert(spec_fib(i as nat) == spec_fib((i - 1) as nat) + spec_fib(
                    (i - 2) as nat,
                ));
                assert(spec_fib(i as nat) <= u64::MAX);
            }
            let next = fib_array[i - 1] + fib_array[i - 2];
            fib_array.push(next);
        }
        i = i + 1;
    }
    fib_array
}

} // verus!
