use website_checker::numbers::{
    check_guess, fizzbuzz_line, guesses_until_correct, i32_to_dec, is_even, sum_with_step,
};
use website_checker::strfmt::u64_to_dec;

#[test]
fn evenness() {
    assert!(is_even(0));
    assert!(is_even(240));
    assert!(is_even(-16));
    assert!(!is_even(3));
    assert!(!is_even(-1));
    assert!(!is_even(i32::MIN + 1));
}

#[test]
fn guess_comparison() {
    assert_eq!(check_guess(1, 5), -1);
    assert_eq!(check_guess(5, 5), 0);
    assert_eq!(check_guess(9, 5), 1);
    assert_eq!(check_guess(i32::MIN, i32::MAX), -1);
    assert_eq!(check_guess(i32::MAX, i32::MIN), 1);
}

#[test]
fn simulated_guessing_game_takes_eleven_rounds() {
    let simulated = vec![0, 1, 2, -1, 120, 3, 4, -16, -240, 20, -2];
    assert_eq!(guesses_until_correct(&simulated, -2), Some(11));
    assert_eq!(guesses_until_correct(&simulated, 99), None);
    assert_eq!(guesses_until_correct(&Vec::new(), 0), None);
}

#[test]
fn step_sums_match_the_classic_runs() {
    let mut total = 0i32;
    sum_with_step(&mut total, 0, 100, 1);
    assert_eq!(total, 5050);
    total = 0;
    sum_with_step(&mut total, 0, 10, 2);
    assert_eq!(total, 30);
    total = 0;
    sum_with_step(&mut total, 5, 15, 3);
    assert_eq!(total, 38);
}

#[test]
fn step_sum_accumulates_onto_the_running_total() {
    let mut total = 100i32;
    sum_with_step(&mut total, 1, 3, 1);
    assert_eq!(total, 106);
    // A negative quotient means no terms at all.
    let mut untouched = 9i32;
    sum_with_step(&mut untouched, 10, 0, 1);
    assert_eq!(untouched, 9);
}

#[test]
fn fizzbuzz_lines() {
    assert_eq!(fizzbuzz_line(15), "FizzBuzz");
    assert_eq!(fizzbuzz_line(0), "FizzBuzz");
    assert_eq!(fizzbuzz_line(9), "Fizz");
    assert_eq!(fizzbuzz_line(10), "Buzz");
    assert_eq!(fizzbuzz_line(2), "2 is even");
    assert_eq!(fizzbuzz_line(7), "7 is odd");
    assert_eq!(fizzbuzz_line(-4), "-4 is even");
    assert_eq!(fizzbuzz_line(-7), "-7 is odd");
}

#[test]
fn decimal_rendering_is_exact() {
    assert_eq!(u64_to_dec(0), "0");
    assert_eq!(u64_to_dec(7), "7");
    assert_eq!(u64_to_dec(65535), "65535");
    assert_eq!(u64_to_dec(18446744073709551615), "18446744073709551615");
    assert_eq!(i32_to_dec(-2147483648), "-2147483648");
    assert_eq!(i32_to_dec(2147483647), "2147483647");
    assert_eq!(i32_to_dec(0), "0");
}
