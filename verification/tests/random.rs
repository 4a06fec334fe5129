use minibasic::interpreter::{Interpreter, Status};
use minibasic::lexer::tokenize;
use minibasic::number::Number;
use minibasic::parser::parse;
use minibasic::random::{random_number, unit_interval, HIDDEN_BIT, LOW_BITS};
use minibasic::value::{Output, Request};
use rand::rngs::mock::StepRng;
use rand::Rng;

fn float(n: Number) -> f64 {
    f64::from_bits(n.to_bits())
}

#[test]
fn constants_are_powers_of_two() {
    assert_eq!(HIDDEN_BIT, 1u64 << 52);
    assert_eq!(LOW_BITS, 1u64 << 11);
}

#[test]
fn unit_interval_of_chosen_bits() {
    assert_eq!(float(unit_interval(0)), 0.0);
    assert_eq!(float(unit_interval(2047)), 0.0);
    assert_eq!(float(unit_interval(2048)), 1.0 / 9007199254740992.0);
    assert_eq!(float(unit_interval(1 << 63)), 0.5);
    assert_eq!(float(unit_interval(1 << 62)), 0.25);
    assert_eq!(float(unit_interval(3 << 62)), 0.75);
    assert_eq!(float(unit_interval(u64::MAX)), 1.0 - 1.0 / 9007199254740992.0);
    assert_eq!(unit_interval(u64::MAX).to_bits(), 0x3FEF_FFFF_FFFF_FFFF);
}

#[test]
fn unit_interval_is_the_number_that_rand_makes_of_the_same_bits() {
    let mut bits: u64 = 0x9E37_79B9_7F4A_7C15;
    for _ in 0..10_000 {
        bits = bits.wrapping_mul(6364136223846793005).wrapping_add(1442695040888963407);
        let expected: f64 = StepRng::new(bits, 0).gen();
        assert_eq!(unit_interval(bits).to_bits(), expected.to_bits(), "{:#x}", bits);
    }
    for shift in 0..64 {
        for bits in [1u64 << shift, (1u64 << shift) - 1, u64::MAX >> shift, u64::MAX << shift] {
            let expected: f64 = StepRng::new(bits, 0).gen();
            assert_eq!(unit_interval(bits).to_bits(), expected.to_bits(), "{:#x}", bits);
        }
    }
}

#[test]
fn random_numbers_lie_in_the_unit_interval_and_vary() {
    let mut seen = Vec::new();
    for _ in 0..1000 {
        let x = float(random_number());
        assert!(0.0 <= x && x < 1.0, "{}", x);
        if !seen.contains(&x.to_bits()) {
            seen.push(x.to_bits());
        }
    }
    assert!(seen.len() > 900);
}

#[test]
fn interpreter_draws_for_rnd() {
    let mut interpreter = Interpreter::new();
    let step = interpreter.execute_program(parse(tokenize("PRINT RND();")).unwrap());
    assert_eq!(step.status, Status::Request(Request::Random));
    let step = interpreter.resume_with_random();
    assert_eq!(step.status, Status::Finished);
    assert_eq!(step.output.len(), 1);
    match &step.output[0] {
        Output::Number(n) => {
            let x = float(*n);
            assert!(0.0 <= x && x < 1.0, "{}", x);
        }
        other => panic!("{:?}", other),
    }
}
