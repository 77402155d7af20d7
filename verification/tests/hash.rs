use curve25519_dalek::ristretto::RistrettoPoint;
use curve25519_dalek::scalar::Scalar as NativeScalar;
use curve25519_dalek::traits::Identity;
use sha2::{Digest, Sha512};

use pedersen_circuit::mode::Mode;
use pedersen_circuit::pedersen::Pedersen;
use pedersen_circuit::types::{Boolean, CircuitType};

const ITERATIONS: u64 = 10;
const MESSAGE: &str = "PedersenCircuit0";
const WINDOW_SIZE_MULTIPLIER: usize = 8;

fn window_generator_ref(seed: &str, index: u64) -> RistrettoPoint {
    let digest = Sha512::digest(format!("{seed} at {index}").as_bytes());
    let uniform: [u8; 64] = digest.into();
    RistrettoPoint::from_uniform_bytes(&uniform)
}

/// An independent Pedersen hash: per window, the generator is multiplied by
/// the chunk value directly, instead of accumulating doubled bases.
fn reference_hash(seed: &str, num_windows: usize, window_size: usize, input: &[bool]) -> RistrettoPoint {
    let mut acc = RistrettoPoint::identity();
    for w in 0..num_windows {
        let mut value: u64 = 0;
        for i in (0..window_size).rev() {
            value = value * 2 + u64::from(input[w * window_size + i]);
        }
        acc += window_generator_ref(seed, w as u64) * NativeScalar::from(value);
    }
    acc
}

fn check_hash(num_windows: usize, window_size: usize, mode: Mode) {
    let circuit = Pedersen::setup(MESSAGE, num_windows, window_size).expect("setup failed");
    let num_input_bits = num_windows * window_size;

    for _ in 0..ITERATIONS {
        let input: Vec<bool> = (0..num_input_bits).map(|_| rand::random::<bool>()).collect();
        let expected = reference_hash(MESSAGE, num_windows, window_size, &input)
            .compress()
            .to_bytes()
            .to_vec();
        let circuit_input: Vec<Boolean> = input.iter().map(|b| Boolean::new(mode, *b)).collect();

        let (candidate, cost) = circuit.hash(&circuit_input).expect("hash failed");
        assert_eq!(&expected, candidate.to_bytes());

        // The statically predicted count must cover the run, and must not
        // depend on any constant witness: the same case with every bit
        // flipped predicts the identical count.
        let bases = circuit.base_case();
        let tags: Vec<CircuitType<Boolean>> =
            circuit_input.iter().map(CircuitType::of_boolean).collect();
        let case = (bases, tags);
        let predicted = Pedersen::count(&case);
        assert!(predicted.matches(&cost));
        let flipped: Vec<CircuitType<Boolean>> = input
            .iter()
            .map(|b| CircuitType::of_boolean(&Boolean::new(mode, !*b)))
            .collect();
        let flipped_case = (circuit.base_case(), flipped);
        assert_eq!(predicted, Pedersen::count(&flipped_case));
        let output_type = Pedersen::output_type(case);
        match mode {
            Mode::Constant => {
                assert_eq!(candidate.mode, Mode::Constant);
                match output_type {
                    CircuitType::Constant(f) => {
                        assert_eq!(f.mode, Mode::Constant);
                        assert_eq!(&expected, f.to_bytes());
                    }
                    _ => panic!("expected a constant output type"),
                }
            }
            _ => {
                assert_eq!(candidate.mode, Mode::Private);
                assert!(matches!(output_type, CircuitType::Private));
            }
        }
    }
}

#[test]
fn test_hash_constant() {
    // Set the number of windows, and modulate the window size.
    check_hash(1, WINDOW_SIZE_MULTIPLIER, Mode::Constant);
    check_hash(1, 2 * WINDOW_SIZE_MULTIPLIER, Mode::Constant);
    check_hash(1, 3 * WINDOW_SIZE_MULTIPLIER, Mode::Constant);
    check_hash(1, 4 * WINDOW_SIZE_MULTIPLIER, Mode::Constant);
    check_hash(1, 5 * WINDOW_SIZE_MULTIPLIER, Mode::Constant);

    // Set the window size, and modulate the number of windows.
    check_hash(1, WINDOW_SIZE_MULTIPLIER, Mode::Constant);
    check_hash(2, WINDOW_SIZE_MULTIPLIER, Mode::Constant);
    check_hash(3, WINDOW_SIZE_MULTIPLIER, Mode::Constant);
    check_hash(4, WINDOW_SIZE_MULTIPLIER, Mode::Constant);
    check_hash(5, WINDOW_SIZE_MULTIPLIER, Mode::Constant);
}

#[test]
fn test_hash_public() {
    // Set the number of windows, and modulate the window size.
    check_hash(1, WINDOW_SIZE_MULTIPLIER, Mode::Public);
    check_hash(1, 2 * WINDOW_SIZE_MULTIPLIER, Mode::Public);
    check_hash(1, 3 * WINDOW_SIZE_MULTIPLIER, Mode::Public);
    check_hash(1, 4 * WINDOW_SIZE_MULTIPLIER, Mode::Public);
    check_hash(1, 5 * WINDOW_SIZE_MULTIPLIER, Mode::Public);

    // Set the window size, and modulate the number of windows.
    check_hash(1, WINDOW_SIZE_MULTIPLIER, Mode::Public);
    check_hash(2, WINDOW_SIZE_MULTIPLIER, Mode::Public);
    check_hash(3, WINDOW_SIZE_MULTIPLIER, Mode::Public);
    check_hash(4, WINDOW_SIZE_MULTIPLIER, Mode::Public);
    check_hash(5, WINDOW_SIZE_MULTIPLIER, Mode::Public);
}

#[test]
fn test_hash_private() {
    // Set the number of windows, and modulate the window size.
    check_hash(1, WINDOW_SIZE_MULTIPLIER, Mode::Private);
    check_hash(1, 2 * WINDOW_SIZE_MULTIPLIER, Mode::Private);
    check_hash(1, 3 * WINDOW_SIZE_MULTIPLIER, Mode::Private);
    check_hash(1, 4 * WINDOW_SIZE_MULTIPLIER, Mode::Private);
    check_hash(1, 5 * WINDOW_SIZE_MULTIPLIER, Mode::Private);

    // Set the window size, and modulate the number of windows.
    check_hash(1, WINDOW_SIZE_MULTIPLIER, Mode::Private);
    check_hash(2, WINDOW_SIZE_MULTIPLIER, Mode::Private);
    check_hash(3, WINDOW_SIZE_MULTIPLIER, Mode::Private);
    check_hash(4, WINDOW_SIZE_MULTIPLIER, Mode::Private);
    check_hash(5, WINDOW_SIZE_MULTIPLIER, Mode::Private);
}
