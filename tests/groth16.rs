use ark_bn254::{Bn254, Fr};
use ark_crypto_primitives::snark::SNARK;
use ark_groth16::{Groth16, ProvingKey, VerifyingKey};
use ark_r1cs_std::alloc::AllocVar;
use ark_r1cs_std::eq::EqGadget;
use ark_r1cs_std::fields::fp::FpVar;
use ark_relations::r1cs::{ConstraintSynthesizer, ConstraintSystemRef, SynthesisError};
use ark_serialize::{CanonicalDeserialize, CanonicalSerialize};
use rand_chacha::ChaCha20Rng;
use rand_core::SeedableRng;
use vortex::circuit::Circuit;
use vortex::error::VortexError;
use vortex::field::FieldElement;
use vortex::snark::{package_proof, verify_output, witness_circuit, ProofInput, ProofOutput};

struct Mul {
    c: Fr,
    a: Fr,
    b: Fr,
}

fn to_fr(x: &FieldElement) -> Fr {
    Fr::deserialize_compressed(&x.to_bytes()[..]).unwrap()
}

impl Mul {
    fn of(circuit: &Circuit) -> Mul {
        Mul { c: to_fr(&circuit.c), a: to_fr(&circuit.a), b: to_fr(&circuit.b) }
    }
}

impl ConstraintSynthesizer<Fr> for Mul {
    fn generate_constraints(self, cs: ConstraintSystemRef<Fr>) -> Result<(), SynthesisError> {
        let c = FpVar::new_input(cs.clone(), || Ok(self.c))?;
        let a = FpVar::new_witness(cs.clone(), || Ok(self.a))?;
        let b = FpVar::new_witness(cs, || Ok(self.b))?;
        c.enforce_equal(&(a * b))?;
        Ok(())
    }
}

fn setup(seed: u8) -> ProvingKey<Bn254> {
    let mut rng = ChaCha20Rng::from_seed([seed; 32]);
    Groth16::<Bn254>::generate_random_parameters_with_reduction(Mul::of(&Circuit::empty()), &mut rng)
        .unwrap()
}

fn key_bytes<T: CanonicalSerialize>(k: &T) -> Vec<u8> {
    let mut v = Vec::new();
    k.serialize_compressed(&mut v).unwrap();
    v
}

fn prove(pk: &ProvingKey<Bn254>, c: &str, a: &str, b: &str, seed: u8) -> ProofOutput {
    let input = ProofInput { c: c.to_string(), a: a.to_string(), b: b.to_string() };
    let circuit = witness_circuit(&input).unwrap();
    let mut rng = ChaCha20Rng::from_seed([seed; 32]);
    let proof = Groth16::<Bn254>::prove(pk, Mul::of(&circuit), &mut rng).unwrap();
    package_proof(&circuit, &key_bytes(&proof)).unwrap()
}

fn vk_hex(pk: &ProvingKey<Bn254>) -> String {
    hex::encode(key_bytes(&pk.vk))
}

#[test]
fn prove_then_verify_three_times_four() {
    let pk = setup(0);
    let out = prove(&pk, "12", "3", "4", 1);
    assert_eq!(out.proof_a.len(), 32);
    assert_eq!(out.proof_b.len(), 64);
    assert_eq!(out.proof_c.len(), 32);
    assert_eq!(out.public_inputs, vec!["12".to_string()]);
    assert_eq!(verify_output(&out, &vk_hex(&pk)), Ok(true));
}

#[test]
fn prove_then_verify_several_pairs() {
    let pk = setup(0);
    let vk = vk_hex(&pk);
    let m1 = "21888242871839275222246405745257275088548364400416034343698204186575808495616";
    for (c, a, b) in [("0", "0", "5"), ("1", m1, m1), ("1000000", "1000", "1000")] {
        let out = prove(&pk, c, a, b, 2);
        assert_eq!(verify_output(&out, &vk), Ok(true), "{c} = {a} * {b}");
    }
}

#[test]
fn wrong_product_is_refused_before_proving() {
    let input = ProofInput { c: "13".to_string(), a: "3".to_string(), b: "4".to_string() };
    assert_eq!(witness_circuit(&input).unwrap_err(), VortexError::ConstraintViolation);
}

#[test]
fn tampered_proof_never_verifies() {
    let pk = setup(0);
    let vk = vk_hex(&pk);
    let out = prove(&pk, "12", "3", "4", 3);
    for pos in [0usize, 17, 31, 32, 70, 95, 96, 127] {
        let mut t = out.clone();
        if pos < 32 {
            t.proof_a[pos] ^= 0x01;
        } else if pos < 96 {
            t.proof_b[pos - 32] ^= 0x01;
        } else {
            t.proof_c[pos - 96] ^= 0x01;
        }
        assert_ne!(verify_output(&t, &vk), Ok(true), "byte {pos}");
    }
}

#[test]
fn keys_round_trip_through_bytes() {
    let pk = setup(0);
    let pk_bytes = key_bytes(&pk);
    let vk_bytes = key_bytes(&pk.vk);
    let pk2 = ProvingKey::<Bn254>::deserialize_compressed(&pk_bytes[..]).unwrap();
    let vk2 = VerifyingKey::<Bn254>::deserialize_compressed(&vk_bytes[..]).unwrap();
    assert!(pk2 == pk);
    assert!(vk2 == pk.vk);
    let back = vortex::snark::decode_key_hex(&hex::encode(&vk_bytes)).unwrap();
    assert_eq!(back, vk_bytes);
}

#[test]
fn setup_with_fixed_seed_is_reproducible() {
    let p1 = setup(0);
    let p2 = setup(0);
    assert_eq!(key_bytes(&p1), key_bytes(&p2));
    assert_eq!(key_bytes(&p1.vk), key_bytes(&p2.vk));
}

#[test]
fn proof_fails_under_another_setup() {
    let p1 = setup(0);
    let p2 = setup(7);
    let out = prove(&p1, "12", "3", "4", 4);
    assert_ne!(verify_output(&out, &vk_hex(&p2)), Ok(true));
}

#[test]
fn substituted_public_input_is_false() {
    let pk = setup(0);
    let mut out = prove(&pk, "12", "3", "4", 5);
    out.public_inputs = vec!["13".to_string()];
    assert_eq!(verify_output(&out, &vk_hex(&pk)), Ok(false));
}

#[test]
fn extra_public_input_is_an_input_error() {
    let pk = setup(0);
    let mut out = prove(&pk, "12", "3", "4", 6);
    out.public_inputs.push("1".to_string());
    assert_eq!(verify_output(&out, &vk_hex(&pk)), Err(VortexError::VerificationInput));
    out.public_inputs.clear();
    assert_eq!(verify_output(&out, &vk_hex(&pk)), Err(VortexError::VerificationInput));
}

#[test]
fn congruent_public_inputs_verify_alike() {
    let pk = setup(0);
    let vk = vk_hex(&pk);
    let mut out = prove(&pk, "12", "3", "4", 8);
    assert_eq!(verify_output(&out, &vk), Ok(true));
    // 12 + r
    out.public_inputs = vec![
        "21888242871839275222246405745257275088548364400416034343698204186575808495629".to_string(),
    ];
    assert_eq!(verify_output(&out, &vk), Ok(true));
    out.public_inputs = vec!["0012".to_string()];
    assert_eq!(verify_output(&out, &vk), Ok(true));
    assert_eq!(verify_output(&out, &vk), verify_output(&out, &vk));
}

#[test]
fn verifying_key_hex_round_trips() {
    let pk = setup(0);
    let bytes = key_bytes(&pk.vk);
    assert_eq!(bytes.len(), 296);
    assert_eq!(vortex::snark::decode_key_hex(&hex::encode(&bytes)).unwrap(), bytes);
}
