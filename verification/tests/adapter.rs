use curve25519_dalek::ristretto::{CompressedRistretto, RistrettoPoint};
use sha2::{Digest, Sha512};

use pedersen_circuit::count::{Count, Measured, Measurement};
use pedersen_circuit::error::PedersenError;
use pedersen_circuit::integer::{Integer, IntegerCircuitType};
use pedersen_circuit::mode::Mode;
use pedersen_circuit::pedersen::Pedersen;
use pedersen_circuit::types::{Boolean, CircuitType, Scalar};

fn constant_bits(values: &[bool]) -> Vec<CircuitType<Boolean>> {
    values.iter().map(|v| CircuitType::Constant(Boolean::new(Mode::Constant, *v))).collect()
}

#[test]
fn test_integer_adapter_bit_length() {
    // One bit short of the width: rejected.
    let short = constant_bits(&[true; 7]);
    assert!(matches!(
        IntegerCircuitType::<8>::new(short),
        Err(PedersenError::BitLengthMismatch)
    ));
    // One bit over the width: rejected.
    let long = constant_bits(&[true; 9]);
    assert!(matches!(
        IntegerCircuitType::<8>::new(long),
        Err(PedersenError::BitLengthMismatch)
    ));
    // Exactly the width: accepted, and the combined visibility is constant.
    let exact = constant_bits(&[true; 8]);
    let adapter = IntegerCircuitType::<8>::new(exact).expect("exact width must succeed");
    assert_eq!(adapter.mode(), Mode::Constant);
}

#[test]
fn test_integer_adapter_combined_mode() {
    let mut tags = constant_bits(&[true; 7]);
    tags.push(CircuitType::Public);
    let adapter = IntegerCircuitType::<8>::new(tags).unwrap();
    assert_eq!(adapter.mode(), Mode::Public);

    let mut tags = constant_bits(&[true; 6]);
    tags.push(CircuitType::Public);
    tags.push(CircuitType::Private);
    let adapter = IntegerCircuitType::<8>::new(tags).unwrap();
    assert_eq!(adapter.mode(), Mode::Private);
}

#[test]
fn test_materialization_guard() {
    // A private integer cannot be materialized.
    let private_integer = Integer::<8>::new(Mode::Private, 0xA5);
    let adapter = IntegerCircuitType::<8>::from(private_integer);
    assert_eq!(adapter.mode(), Mode::Private);
    assert!(matches!(
        adapter.circuit(),
        Err(PedersenError::IllegalMaterialization)
    ));

    // An all-constant integer materializes and reproduces its bits exactly.
    let constant_integer = Integer::<8>::new(Mode::Constant, 0x5A);
    let expected: Vec<bool> = constant_integer.to_bits_le().iter().map(|b| b.value).collect();
    let adapter = IntegerCircuitType::<8>::from(constant_integer);
    assert_eq!(adapter.mode(), Mode::Constant);
    let back = adapter.circuit().expect("constant bits must materialize");
    let got: Vec<bool> = back.to_bits_le().iter().map(|b| b.value).collect();
    assert_eq!(expected, got);
    // The decomposition of 0x5A, least significant bit first.
    assert_eq!(
        got,
        vec![false, true, false, true, true, false, true, false]
    );
}

#[test]
fn test_integer_bits_le_round() {
    let integer = Integer::<16>::new(Mode::Public, 0xBEEF);
    let adapter = IntegerCircuitType::<16>::from(integer);
    let tags = adapter.bits_le();
    assert_eq!(tags.len(), 16);
    assert!(tags.iter().all(|t| matches!(t, CircuitType::Public)));
}

#[test]
fn test_scenario_single_window() {
    // One window of eight bits, seeded with "Test0".
    let circuit = Pedersen::setup("Test0", 1, 8).expect("setup failed");

    // The bit pattern of the integer 1: only the least significant bit set,
    // so the hash is the window generator itself.
    let one = Integer::<8>::new(Mode::Constant, 1);
    let (hashed, _) = circuit.hash_uncompressed(&one.to_bits_le()).expect("hash failed");
    assert_eq!(hashed.to_bytes(), circuit.bases[0][0].to_bytes());

    // All zero bits: the result is the group identity.
    let zero = Integer::<8>::new(Mode::Constant, 0);
    let (hashed, _) = circuit.hash_uncompressed(&zero.to_bits_le()).expect("hash failed");
    assert_eq!(hashed.to_bytes(), vec![0u8; 32]);
}

#[test]
fn test_setup_rejects_degenerate_shapes() {
    assert!(matches!(
        Pedersen::setup("Seed0", 0, 8),
        Err(PedersenError::InvalidWindowConfiguration)
    ));
    assert!(matches!(
        Pedersen::setup("Seed0", 1, 0),
        Err(PedersenError::InvalidWindowConfiguration)
    ));
    // Beyond the documented capacity bounds.
    assert!(matches!(
        Pedersen::setup("Seed0", 1, 251),
        Err(PedersenError::InvalidWindowConfiguration)
    ));
    assert!(matches!(
        Pedersen::setup("Seed0", 16777217, 8),
        Err(PedersenError::InvalidWindowConfiguration)
    ));
    // The largest supported window size is fine.
    assert!(Pedersen::setup("Seed0", 1, 250).is_ok());
}

#[test]
fn test_bit_length_mismatch_on_hash_and_commit() {
    let circuit = Pedersen::setup("Seed1", 2, 8).expect("setup failed");
    let short: Vec<Boolean> = (0..15).map(|_| Boolean::new(Mode::Constant, false)).collect();
    assert!(matches!(
        circuit.hash(&short),
        Err(PedersenError::BitLengthMismatch)
    ));
    let randomness = Scalar::new(Mode::Constant, vec![false; 256]).unwrap();
    assert!(matches!(
        circuit.commit(&short, &randomness),
        Err(PedersenError::BitLengthMismatch)
    ));
}

#[test]
fn test_scalar_bit_length() {
    assert!(matches!(
        Scalar::new(Mode::Private, vec![false; 255]),
        Err(PedersenError::BitLengthMismatch)
    ));
    assert!(Scalar::new(Mode::Private, vec![false; 256]).is_ok());
}

#[test]
fn test_setup_is_deterministic_and_seeded() {
    let a = Pedersen::setup("SeedA", 2, 4).unwrap();
    let b = Pedersen::setup("SeedA", 2, 4).unwrap();
    let c = Pedersen::setup("SeedB", 2, 4).unwrap();

    for w in 0..2 {
        for i in 0..4 {
            assert_eq!(a.bases[w][i].to_bytes(), b.bases[w][i].to_bytes());
        }
    }
    assert_ne!(a.bases[0][0].to_bytes(), c.bases[0][0].to_bytes());
    assert_ne!(a.bases[0][0].to_bytes(), a.bases[1][0].to_bytes());

    // The window generator matches an independent derivation of the same
    // scheme, and each window entry is the double of the one before it.
    let digest = Sha512::digest("SeedA at 0".as_bytes());
    let uniform: [u8; 64] = digest.into();
    let generator = RistrettoPoint::from_uniform_bytes(&uniform);
    assert_eq!(
        a.bases[0][0].to_bytes(),
        generator.compress().to_bytes().to_vec()
    );
    let g0 = CompressedRistretto::from_slice(&a.bases[0][0].to_bytes())
        .unwrap()
        .decompress()
        .unwrap();
    assert_eq!(
        a.bases[0][1].to_bytes(),
        (g0 + g0).compress().to_bytes().to_vec()
    );

    // The blinding row is seeded under its own domain separator.
    let digest = Sha512::digest("SeedA for random base".as_bytes());
    let uniform: [u8; 64] = digest.into();
    let blinding = RistrettoPoint::from_uniform_bytes(&uniform);
    assert_eq!(a.random_base.len(), 256);
    assert_eq!(
        a.random_base[0].to_bytes(),
        blinding.compress().to_bytes().to_vec()
    );
}

#[test]
fn test_count_exact_values() {
    let circuit = Pedersen::setup("Seed2", 1, 2).expect("setup failed");

    // A constant set bit folds three constant operations; a non-constant
    // bit against a still-constant accumulator folds three constant
    // operations and allocates two private variables and two constraints.
    let input = vec![Boolean::new(Mode::Constant, true), Boolean::new(Mode::Private, false)];
    let (_, cost) = circuit.hash(&input).expect("hash failed");
    assert_eq!(cost, Measured::new(6, 0, 2, 2));

    // The predictor reads visibilities only: the constant bit's fold is an
    // interval (it may be clear), the non-constant bit's cost is exact.
    let tags: Vec<CircuitType<Boolean>> = input.iter().map(CircuitType::of_boolean).collect();
    let case = (circuit.base_case(), tags);
    let predicted = Pedersen::count(&case);
    assert_eq!(
        predicted,
        Count {
            num_constants: Measurement::Range { min: 3, max: 6 },
            num_public: Measurement::Exact(0),
            num_private: Measurement::Exact(2),
            num_constraints: Measurement::Exact(2),
        }
    );
    assert!(predicted.matches(&cost));

    // All-constant input: constant folding only, predicted as an interval
    // from nothing folded (all bits clear) to one fold per bit.
    let input = vec![Boolean::new(Mode::Constant, true), Boolean::new(Mode::Constant, true)];
    let (out, cost) = circuit.hash(&input).expect("hash failed");
    assert_eq!(cost, Measured::new(6, 0, 0, 0));
    assert_eq!(out.mode, Mode::Constant);
    let tags: Vec<CircuitType<Boolean>> = input.iter().map(CircuitType::of_boolean).collect();
    let case = (circuit.base_case(), tags.clone());
    let predicted = Pedersen::count(&case);
    assert_eq!(
        predicted,
        Count {
            num_constants: Measurement::Range { min: 0, max: 6 },
            num_public: Measurement::Exact(0),
            num_private: Measurement::Exact(0),
            num_constraints: Measurement::Exact(0),
        }
    );
    assert!(predicted.matches(&cost));

    // A private blinding scalar: its first bit is absorbed while the
    // accumulator is still constant, the remaining 255 while it is private.
    let randomness = Scalar::new(Mode::Private, vec![false; 256]).unwrap();
    let (out, cost) = circuit.commit(&input, &randomness).expect("commit failed");
    assert_eq!(cost, Measured::new(6 + 3, 0, 2 + 255 * 5, 2 + 255 * 5));
    assert_eq!(out.mode, Mode::Private);
    let case = (circuit.base_case(), circuit.random_base_case(), tags, CircuitType::Private);
    let predicted = Pedersen::commit_count(&case);
    assert_eq!(
        predicted,
        Count {
            num_constants: Measurement::Range { min: 3, max: 9 },
            num_public: Measurement::Exact(0),
            num_private: Measurement::Exact(2 + 255 * 5),
            num_constraints: Measurement::Exact(2 + 255 * 5),
        }
    );
    assert!(predicted.matches(&cost));
}

#[test]
fn test_count_reads_visibilities_only() {
    // Two cases of identical shape and identical visibilities, with every
    // constant witness different, receive the identical prediction.
    let circuit = Pedersen::setup("Seed3", 1, 4).expect("setup failed");
    let first = vec![
        CircuitType::Constant(Boolean::new(Mode::Constant, true)),
        CircuitType::Constant(Boolean::new(Mode::Constant, false)),
        CircuitType::Public,
        CircuitType::Constant(Boolean::new(Mode::Constant, true)),
    ];
    let second = vec![
        CircuitType::Constant(Boolean::new(Mode::Constant, false)),
        CircuitType::Constant(Boolean::new(Mode::Constant, true)),
        CircuitType::Public,
        CircuitType::Constant(Boolean::new(Mode::Constant, false)),
    ];
    let count_first = Pedersen::count(&(circuit.base_case(), first.clone()));
    let count_second = Pedersen::count(&(circuit.base_case(), second.clone()));
    assert_eq!(count_first, count_second);

    // Likewise for a commitment, with constant blinding scalars of
    // different witnesses.
    let zeros = Scalar::new(Mode::Constant, vec![false; 256]).unwrap();
    let ones = Scalar::new(Mode::Constant, vec![true; 256]).unwrap();
    let commit_first = Pedersen::commit_count(&(
        circuit.base_case(),
        circuit.random_base_case(),
        first,
        CircuitType::Constant(zeros),
    ));
    let commit_second = Pedersen::commit_count(&(
        circuit.base_case(),
        circuit.random_base_case(),
        second,
        CircuitType::Constant(ones),
    ));
    assert_eq!(commit_first, commit_second);
}
