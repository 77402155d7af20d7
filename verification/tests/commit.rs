use curve25519_dalek::ristretto::{CompressedRistretto, RistrettoPoint};
use curve25519_dalek::scalar::Scalar as NativeScalar;
use curve25519_dalek::traits::Identity;
use sha2::{Digest, Sha512};

use pedersen_circuit::integer::Integer;
use pedersen_circuit::mode::Mode;
use pedersen_circuit::pedersen::Pedersen;
use pedersen_circuit::types::{Boolean, CircuitType, Scalar};

const ITERATIONS: u64 = 10;
const MESSAGE: &str = "PedersenCommitmentCircuit0";
const WINDOW_SIZE_MULTIPLIER: usize = 8;

fn window_generator_ref(seed: &str, index: u64) -> RistrettoPoint {
    let digest = Sha512::digest(format!("{seed} at {index}").as_bytes());
    let uniform: [u8; 64] = digest.into();
    RistrettoPoint::from_uniform_bytes(&uniform)
}

fn blinding_generator_ref(seed: &str) -> RistrettoPoint {
    let digest = Sha512::digest(format!("{seed} for random base").as_bytes());
    let uniform: [u8; 64] = digest.into();
    RistrettoPoint::from_uniform_bytes(&uniform)
}

fn reference_hash(seed: &str, num_windows: usize, window_size: usize, input: &[bool]) -> RistrettoPoint {
    let mut acc = RistrettoPoint::identity();
    for w in 0..num_windows {
        let mut value: u64 = 0;
        for i in (0..window_size).rev() {
            value = value * 2 + u64::from(input[w * window_size + i]);
        }
        acc += window_generator_ref(seed, w as u64) * NativeScalar::from(value);
    }
    acc
}

fn scalar_bits(s: &NativeScalar) -> Vec<bool> {
    let mut bits = Vec::new();
    for byte in s.to_bytes() {
        for i in 0..8 {
            bits.push((byte >> i) & 1 == 1);
        }
    }
    bits
}

fn random_scalar() -> NativeScalar {
    NativeScalar::from_bytes_mod_order(rand::random::<[u8; 32]>())
}

fn check_commitment(num_windows: usize, window_size: usize, mode: Mode) {
    let circuit = Pedersen::setup(MESSAGE, num_windows, window_size).expect("setup failed");
    let num_input_bits = num_windows * window_size;

    for _ in 0..ITERATIONS {
        let input: Vec<bool> = (0..num_input_bits).map(|_| rand::random::<bool>()).collect();
        let randomness = random_scalar();
        let expected = (reference_hash(MESSAGE, num_windows, window_size, &input)
            + blinding_generator_ref(MESSAGE) * randomness)
            .compress()
            .to_bytes()
            .to_vec();

        let circuit_input: Vec<Boolean> = input.iter().map(|b| Boolean::new(mode, *b)).collect();
        let circuit_randomness =
            Scalar::new(mode, scalar_bits(&randomness)).expect("scalar construction failed");

        let (candidate, cost) =
            circuit.commit(&circuit_input, &circuit_randomness).expect("commit failed");
        assert_eq!(&expected, candidate.to_bytes());

        // The statically predicted count must cover the run.
        let bases = circuit.base_case();
        let random_base = circuit.random_base_case();
        let tags: Vec<CircuitType<Boolean>> =
            circuit_input.iter().map(CircuitType::of_boolean).collect();
        let randomness_tag = match mode {
            Mode::Constant => CircuitType::Constant(
                Scalar::new(Mode::Constant, scalar_bits(&randomness)).unwrap(),
            ),
            Mode::Public => CircuitType::Public,
            Mode::Private => CircuitType::Private,
        };
        let case = (bases, random_base, tags, randomness_tag);
        let predicted = Pedersen::commit_count(&case);
        assert!(predicted.matches(&cost));
        let output_type = Pedersen::commit_output_type(case);
        match mode {
            Mode::Constant => {
                assert_eq!(candidate.mode, Mode::Constant);
                match output_type {
                    CircuitType::Constant(f) => {
                        assert_eq!(f.mode, Mode::Constant);
                        assert_eq!(&expected, f.to_bytes());
                    }
                    _ => panic!("expected a constant output type"),
                }
            }
            _ => {
                assert_eq!(candidate.mode, Mode::Private);
                assert!(matches!(output_type, CircuitType::Private));
            }
        }
    }
}

#[test]
fn test_commitment_constant() {
    // Set the number of windows, and modulate the window size.
    check_commitment(1, WINDOW_SIZE_MULTIPLIER, Mode::Constant);
    check_commitment(1, 2 * WINDOW_SIZE_MULTIPLIER, Mode::Constant);
    check_commitment(1, 3 * WINDOW_SIZE_MULTIPLIER, Mode::Constant);
    check_commitment(1, 4 * WINDOW_SIZE_MULTIPLIER, Mode::Constant);
    check_commitment(1, 5 * WINDOW_SIZE_MULTIPLIER, Mode::Constant);

    // Set the window size, and modulate the number of windows.
    check_commitment(1, WINDOW_SIZE_MULTIPLIER, Mode::Constant);
    check_commitment(2, WINDOW_SIZE_MULTIPLIER, Mode::Constant);
    check_commitment(3, WINDOW_SIZE_MULTIPLIER, Mode::Constant);
    check_commitment(4, WINDOW_SIZE_MULTIPLIER, Mode::Constant);
    check_commitment(5, WINDOW_SIZE_MULTIPLIER, Mode::Constant);
}

#[test]
fn test_commitment_public() {
    // Set the number of windows, and modulate the window size.
    check_commitment(1, WINDOW_SIZE_MULTIPLIER, Mode::Public);
    check_commitment(1, 2 * WINDOW_SIZE_MULTIPLIER, Mode::Public);
    check_commitment(1, 3 * WINDOW_SIZE_MULTIPLIER, Mode::Public);
    check_commitment(1, 4 * WINDOW_SIZE_MULTIPLIER, Mode::Public);
    check_commitment(1, 5 * WINDOW_SIZE_MULTIPLIER, Mode::Public);

    // Set the window size, and modulate the number of windows.
    check_commitment(1, WINDOW_SIZE_MULTIPLIER, Mode::Public);
    check_commitment(2, WINDOW_SIZE_MULTIPLIER, Mode::Public);
    check_commitment(3, WINDOW_SIZE_MULTIPLIER, Mode::Public);
    check_commitment(4, WINDOW_SIZE_MULTIPLIER, Mode::Public);
    check_commitment(5, WINDOW_SIZE_MULTIPLIER, Mode::Public);
}

#[test]
fn test_commitment_private() {
    // Set the number of windows, and modulate the window size.
    check_commitment(1, WINDOW_SIZE_MULTIPLIER, Mode::Private);
    check_commitment(1, 2 * WINDOW_SIZE_MULTIPLIER, Mode::Private);
    check_commitment(1, 3 * WINDOW_SIZE_MULTIPLIER, Mode::Private);
    check_commitment(1, 4 * WINDOW_SIZE_MULTIPLIER, Mode::Private);
    check_commitment(1, 5 * WINDOW_SIZE_MULTIPLIER, Mode::Private);

    // Set the window size, and modulate the number of windows.
    check_commitment(1, WINDOW_SIZE_MULTIPLIER, Mode::Private);
    check_commitment(2, WINDOW_SIZE_MULTIPLIER, Mode::Private);
    check_commitment(3, WINDOW_SIZE_MULTIPLIER, Mode::Private);
    check_commitment(4, WINDOW_SIZE_MULTIPLIER, Mode::Private);
    check_commitment(5, WINDOW_SIZE_MULTIPLIER, Mode::Private);
}

/// Commits to the two values separately, sums the uncompressed results,
/// and checks that committing to the sum under the summed randomness gives
/// the same compressed point.
fn check_homomorphic_addition<const N: usize>(pedersen: &Pedersen, first: u128, second: u128) {
    let first_randomness = random_scalar();
    let second_randomness = random_scalar();
    let first_circuit_randomness =
        Scalar::new(Mode::Private, scalar_bits(&first_randomness)).unwrap();
    let second_circuit_randomness =
        Scalar::new(Mode::Private, scalar_bits(&second_randomness)).unwrap();

    let first_integer = Integer::<N>::new(Mode::Private, first);
    let second_integer = Integer::<N>::new(Mode::Private, second);

    // Compute the expected commitment, by committing them individually and
    // summing their results.
    let (a, _) = pedersen
        .commit_uncompressed(&first_integer.to_bits_le(), &first_circuit_randomness)
        .unwrap();
    let (b, _) = pedersen
        .commit_uncompressed(&second_integer.to_bits_le(), &second_circuit_randomness)
        .unwrap();
    let pa = CompressedRistretto::from_slice(&a.to_bytes()).unwrap().decompress().unwrap();
    let pb = CompressedRistretto::from_slice(&b.to_bytes()).unwrap().decompress().unwrap();
    let expected = (pa + pb).compress().to_bytes().to_vec();

    let combined_randomness = first_randomness + second_randomness;
    let circuit_combined_randomness =
        Scalar::new(Mode::Private, scalar_bits(&combined_randomness)).unwrap();

    // Sum the two integers, and then commit the sum.
    let sum_integer = Integer::<N>::new(Mode::Private, first + second);
    let (candidate, _) =
        pedersen.commit(&sum_integer.to_bits_le(), &circuit_combined_randomness).unwrap();
    assert_eq!(&expected, candidate.to_bytes());
}

#[test]
fn test_pedersen64_homomorphism_private() {
    let seed = "Pedersen64HomomorphismTest";
    let pedersen8 = Pedersen::setup(seed, 1, 8).unwrap();
    let pedersen16 = Pedersen::setup(seed, 1, 16).unwrap();
    let pedersen32 = Pedersen::setup(seed, 1, 32).unwrap();
    let pedersen64 = Pedersen::setup(seed, 1, 64).unwrap();

    for _ in 0..ITERATIONS {
        // Sample two random unsigned integers, with the MSB set to 0.
        let first = rand::random::<u8>() >> 1;
        let second = rand::random::<u8>() >> 1;
        check_homomorphic_addition::<8>(&pedersen8, first as u128, second as u128);

        let first = rand::random::<u16>() >> 1;
        let second = rand::random::<u16>() >> 1;
        check_homomorphic_addition::<16>(&pedersen16, first as u128, second as u128);

        let first = rand::random::<u32>() >> 1;
        let second = rand::random::<u32>() >> 1;
        check_homomorphic_addition::<32>(&pedersen32, first as u128, second as u128);

        let first = rand::random::<u64>() >> 1;
        let second = rand::random::<u64>() >> 1;
        check_homomorphic_addition::<64>(&pedersen64, first as u128, second as u128);
    }
}

#[test]
fn test_pedersen_homomorphism_private() {
    fn check_pedersen_homomorphism(seed: &str) {
        let pedersen8 = Pedersen::setup(seed, 1, 8).unwrap();
        let pedersen16 = Pedersen::setup(seed, 1, 16).unwrap();
        let pedersen32 = Pedersen::setup(seed, 1, 32).unwrap();
        let pedersen64 = Pedersen::setup(seed, 1, 64).unwrap();
        let pedersen128 = Pedersen::setup(seed, 1, 128).unwrap();

        for _ in 0..ITERATIONS {
            // Sample two random unsigned integers, with the MSB set to 0.
            let first = rand::random::<u8>() >> 1;
            let second = rand::random::<u8>() >> 1;
            check_homomorphic_addition::<8>(&pedersen8, first as u128, second as u128);

            let first = rand::random::<u16>() >> 1;
            let second = rand::random::<u16>() >> 1;
            check_homomorphic_addition::<16>(&pedersen16, first as u128, second as u128);

            let first = rand::random::<u32>() >> 1;
            let second = rand::random::<u32>() >> 1;
            check_homomorphic_addition::<32>(&pedersen32, first as u128, second as u128);

            let first = rand::random::<u64>() >> 1;
            let second = rand::random::<u64>() >> 1;
            check_homomorphic_addition::<64>(&pedersen64, first as u128, second as u128);

            let first = rand::random::<u128>() >> 1;
            let second = rand::random::<u128>() >> 1;
            check_homomorphic_addition::<128>(&pedersen128, first, second);
        }
    }

    check_pedersen_homomorphism("Pedersen128HomomorphismTest");
    check_pedersen_homomorphism("Pedersen256HomomorphismTest");
    check_pedersen_homomorphism("Pedersen512HomomorphismTest");
    check_pedersen_homomorphism("Pedersen1024HomomorphismTest");
}
