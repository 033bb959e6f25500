//! The prove and verify pipelines around Groth16 over BN254: reading the
//! external forms of inputs and keys, the pre-proving relation check,
//! packaging a proof for transport, and checking a transported proof.
use vstd::prelude::*;
use ark_serialize::CanonicalDeserialize;
use ark_crypto_primitives::snark::SNARK;
use crate::circuit::Circuit;
use crate::error::VortexError;
use crate::field::{decimal_of, field_modulus, parse_field_element, parsed_value, FieldElement};
use crate::hexcode::{hex_decode, hex_decoded, hex_encode, hex_of, is_hex};

verus! {

/// Bytes of a compressed G1 point.
pub const G1_BYTES: usize = 32;

/// Bytes of a compressed G2 point.
pub const G2_BYTES: usize = 64;

/// Bytes of a compressed proof: A, then B, then C.
pub const PROOF_BYTES: usize = 128;

/// A prove request: the public input `c` and the witnesses `a` and `b`, as
/// decimal numerals.
#[derive(Debug, Clone)]
pub struct ProofInput {
    pub c: String,
    pub a: String,
    pub b: String,
}

/// A proof ready for transport.
#[derive(Debug, Clone)]
pub struct ProofOutput {
    /// Proof component A, a compressed G1 point.
    pub proof_a: Vec<u8>,
    /// Proof component B, a compressed G2 point.
    pub proof_b: Vec<u8>,
    /// Proof component C, a compressed G1 point.
    pub proof_c: Vec<u8>,
    /// The public inputs as decimal numerals, in declaration order.
    pub public_inputs: Vec<String>,
    /// Hex of the whole compressed proof.
    pub proof_serialized_hex: String,
    /// Hex of the concatenated canonical encodings of the public inputs.
    pub public_inputs_serialized_hex: String,
}

/// The values of a prove request, when all three numerals read.
pub open spec fn request_values(input: ProofInput) -> Option<(nat, nat, nat)> {
    match (parsed_value(input.c@), parsed_value(input.a@), parsed_value(input.b@)) {
        (Some(c), Some(a), Some(b)) => Some((c, a, b)),
        _ => None,
    }
}

/// Reads the request into a circuit and checks the relation before any
/// proving work.
pub fn witness_circuit(input: &ProofInput) -> (r: Result<Circuit, VortexError>)
    ensures
        request_values(*input) is None ==> r == Err::<Circuit, VortexError>(VortexError::InputParse),
        request_values(*input) matches Some((c, a, b)) ==> {
            &&& c == (a * b) % field_modulus() ==> r is Ok
            &&& c != (a * b) % field_modulus() ==> r == Err::<Circuit, VortexError>(
                VortexError::ConstraintViolation,
            )
        },
        r matches Ok(x) ==> x.wf() && x.holds() && request_values(*input) == Some((x.c@, x.a@, x.b@)),
{
    let c = parse_field_element(input.c.as_str())?;
    let a = parse_field_element(input.a.as_str())?;
    let b = parse_field_element(input.b.as_str())?;
    let circuit = Circuit::new(c, a, b)?;
    if !circuit.is_satisfied() {
        return Err(VortexError::ConstraintViolation);
    }
    Ok(circuit)
}

/// Reads a key from its hex text.
pub fn decode_key_hex(key_hex: &str) -> (r: Result<Vec<u8>, VortexError>)
    ensures
        r is Ok <==> is_hex(key_hex@),
        r matches Ok(v) ==> v@ == hex_decoded(key_hex@),
        r matches Err(e) ==> e == VortexError::KeyDeserialization,
{
    match hex_decode(key_hex) {
        Some(v) => Ok(v),
        None => Err(VortexError::KeyDeserialization),
    }
}

fn copy_range(v: &Vec<u8>, lo: usize, hi: usize) -> (r: Vec<u8>)
    requires
        lo <= hi <= v@.len(),
    ensures
        r@ == v@.subrange(lo as int, hi as int),
{
    let mut r: Vec<u8> = Vec::new();
    let mut i: usize = lo;
    while i < hi
        invariant
            lo <= i <= hi,
            hi <= v@.len(),
            r@ == v@.subrange(lo as int, i as int),
        decreases hi - i,
    {
        r.push(v[i]);
        i = i + 1;
    }
    r
}

/// Packages a compressed proof of `circuit` for transport. The public inputs
/// come from the circuit itself, so their order is the declaration order.
pub fn package_proof(circuit: &Circuit, proof: &Vec<u8>) -> (r: Result<ProofOutput, VortexError>)
    requires
        circuit.wf(),
    ensures
        r is Ok <==> proof@.len() == PROOF_BYTES,
        r matches Err(e) ==> e == VortexError::Serialization,
        r matches Ok(out) ==> {
            &&& out.proof_a@ == proof@.subrange(0, 32)
            &&& out.proof_b@ == proof@.subrange(32, 96)
            &&& out.proof_c@ == proof@.subrange(96, 128)
            &&& out.public_inputs@.len() == 1
            &&& out.public_inputs@[0]@ == decimal_of(circuit.c@)
            &&& out.proof_serialized_hex@ == hex_of(proof@)
            &&& out.public_inputs_serialized_hex@ == hex_of(circuit.c.spec_bytes())
        },
{
    if proof.len() != PROOF_BYTES {
        return Err(VortexError::Serialization);
    }
    let inputs = circuit.get_public_inputs();
    let serialized = circuit.get_public_inputs_serialized()?;
    let mut public_inputs: Vec<String> = Vec::new();
    let mut i: usize = 0;
    while i < inputs.len()
        invariant
            i <= inputs@.len(),
            inputs@.len() == 1,
            inputs@[0].spec_bytes() == circuit.c.spec_bytes(),
            circuit.c.wf(),
            public_inputs@.len() == i,
            i == 1 ==> public_inputs@[0]@ == decimal_of(circuit.c@),
        decreases inputs@.len() - i,
    {
        public_inputs.push(inputs[i].to_decimal_string());
        i = i + 1;
    }
    Ok(ProofOutput {
        proof_a: copy_range(proof, 0, G1_BYTES),
        proof_b: copy_range(proof, G1_BYTES, G1_BYTES + G2_BYTES),
        proof_c: copy_range(proof, G1_BYTES + G2_BYTES, PROOF_BYTES),
        public_inputs,
        proof_serialized_hex: hex_encode(proof.as_slice()),
        public_inputs_serialized_hex: hex_encode(serialized.as_slice()),
    })
}

/// Bytes of a compressed verifying key for one public input: alpha (G1),
/// beta, gamma and delta (G2), then a u64 count and that many G1 points.
pub const VK_BYTES: usize = 296;

/// Offset of the little-endian u64 count of the key's input points.
pub const VK_COUNT_AT: usize = 224;

/// Whether `b` has the shape of a compressed verifying key for one public
/// input: its length, and a point count of two (one per public input, plus
/// one).
pub open spec fn vk_layout(b: Seq<u8>) -> bool {
    &&& b.len() == VK_BYTES
    &&& b[VK_COUNT_AT as int] == 2u8
    &&& forall|i: int| VK_COUNT_AT + 1 <= i < VK_COUNT_AT + 8 ==> #[trigger] b[i] == 0u8
}

fn has_vk_layout(b: &Vec<u8>) -> (r: bool)
    ensures
        r == vk_layout(b@),
{
    if b.len() != VK_BYTES || b[VK_COUNT_AT] != 2u8 {
        return false;
    }
    let mut i: usize = VK_COUNT_AT + 1;
    while i < VK_COUNT_AT + 8
        invariant
            VK_COUNT_AT + 1 <= i <= VK_COUNT_AT + 8,
            b@.len() == VK_BYTES,
            forall|j: int| VK_COUNT_AT + 1 <= j < i ==> #[trigger] b@[j] == 0u8,
        decreases VK_COUNT_AT + 8 - i,
    {
        if b[i] != 0u8 {
            return false;
        }
        i = i + 1;
    }
    true
}

/// The integers that field elements stand for.
pub open spec fn values_of(xs: Seq<FieldElement>) -> Seq<nat> {
    xs.map_values(|x: FieldElement| x@)
}

/// What Groth16 verification over BN254 answers for a compressed verifying
/// key, a compressed proof and public input values, when both decode.
pub uninterp spec fn groth16_accepts(vk: Seq<u8>, proof: Seq<u8>, inputs: Seq<nat>) -> bool;

/// Whether Groth16 verification over BN254 runs to an answer for a
/// compressed verifying key, a compressed proof and a number of public
/// inputs: both decode to valid points, and the key expects that many
/// inputs.
pub uninterp spec fn groth16_well_formed(vk: Seq<u8>, proof: Seq<u8>, n: nat) -> bool;

/// Whether ark-groth16's `VerifyingKey::deserialize_compressed` over BN254
/// reads the bytes as a key with valid points.
pub uninterp spec fn groth16_key_decodes(vk: Seq<u8>) -> bool;

/// Relies on ark-groth16 over BN254: `VerifyingKey` and `Proof` read with
/// `deserialize_compressed`, `prepare_verifying_key`, and
/// `Groth16::verify_proof`. All are deterministic; whether they fail
/// depends on the bytes and on the count of public inputs alone. The key's
/// layout is checked beforehand, since decoding a key whose point count is
/// huge panics when it reserves room for the points.
#[verifier::external_body]
fn groth16_verify(vk: &Vec<u8>, proof: &Vec<u8>, inputs: &Vec<FieldElement>) -> (r: Result<bool, VortexError>)
    requires
        vk_layout(vk@),
    ensures
        r is Ok <==> groth16_well_formed(vk@, proof@, inputs@.len() as nat),
        r matches Ok(b) ==> b == groth16_accepts(vk@, proof@, values_of(inputs@)),
        r matches Err(e) ==> e == VortexError::KeyDeserialization || e == VortexError::VerificationInput,
        r matches Err(e) ==> (e == VortexError::KeyDeserialization <==> !groth16_key_decodes(vk@)),
{
    let Ok(key) = ark_groth16::VerifyingKey::<ark_bn254::Bn254>::deserialize_compressed(&vk[..]) else {
        return Err(VortexError::KeyDeserialization);
    };
    let Ok(pf) = ark_groth16::Proof::<ark_bn254::Bn254>::deserialize_compressed(&proof[..]) else {
        return Err(VortexError::VerificationInput);
    };
    let xs: Vec<ark_bn254::Fr> = inputs.iter().map(|x| ark_bn254::Fr::deserialize_compressed(&x.as_bytes()[..]).unwrap_or_default()).collect();
    let pvk = ark_groth16::prepare_verifying_key(&key);
    ark_groth16::Groth16::<ark_bn254::Bn254>::verify_proof(&pvk, &pf, &xs).map_err(|_| VortexError::VerificationInput)
}

/// Whether the three proof components have their compressed sizes and
/// there is exactly the circuit's one public input.
pub open spec fn well_shaped(out: ProofOutput) -> bool {
    &&& out.proof_a@.len() == G1_BYTES
    &&& out.proof_b@.len() == G2_BYTES
    &&& out.proof_c@.len() == G1_BYTES
    &&& out.public_inputs@.len() == 1
}

/// Whether every public input reads as a field element.
pub open spec fn inputs_parse(ss: Seq<String>) -> bool {
    forall|i: int| 0 <= i < ss.len() ==> (#[trigger] parsed_value(ss[i]@)) is Some
}

/// The values of the public inputs.
pub open spec fn input_values(ss: Seq<String>) -> Seq<nat> {
    Seq::new(ss.len(), |i: int| parsed_value(ss[i]@)->0)
}

/// Whether `vk_hex` is hex text of a key with the layout for one input.
pub open spec fn key_readable(vk_hex: Seq<char>) -> bool {
    is_hex(vk_hex) && vk_layout(hex_decoded(vk_hex))
}

/// Checks a transported proof against a verifying key in hex. Malformed
/// input is an error; a well-formed proof that fails verification is
/// `Ok(false)`.
pub fn verify_output(output: &ProofOutput, vk_hex: &str) -> (r: Result<bool, VortexError>)
    ensures
        !key_readable(vk_hex@) ==> r == Err::<bool, VortexError>(VortexError::KeyDeserialization),
        key_readable(vk_hex@) && !well_shaped(*output) ==> r == Err::<bool, VortexError>(
            VortexError::VerificationInput,
        ),
        key_readable(vk_hex@) && well_shaped(*output) && !inputs_parse(output.public_inputs@) ==> r
            == Err::<bool, VortexError>(VortexError::InputParse),
        key_readable(vk_hex@) && well_shaped(*output) && inputs_parse(output.public_inputs@) ==> {
            &&& r is Ok <==> groth16_well_formed(
                hex_decoded(vk_hex@),
                output.proof_a@ + output.proof_b@ + output.proof_c@,
                1,
            )
            &&& r matches Ok(b) ==> b == groth16_accepts(
                hex_decoded(vk_hex@),
                output.proof_a@ + output.proof_b@ + output.proof_c@,
                input_values(output.public_inputs@),
            )
            &&& r matches Err(e) ==> e == VortexError::KeyDeserialization || e
                == VortexError::VerificationInput
            &&& r matches Err(e) ==> (e == VortexError::KeyDeserialization <==> !groth16_key_decodes(
                hex_decoded(vk_hex@),
            ))
        },
{
    let vk = decode_key_hex(vk_hex)?;
    if !has_vk_layout(&vk) {
        return Err(VortexError::KeyDeserialization);
    }
    if output.proof_a.len() != G1_BYTES || output.proof_b.len() != G2_BYTES
        || output.proof_c.len() != G1_BYTES || output.public_inputs.len() != 1 {
        return Err(VortexError::VerificationInput);
    }
    let mut inputs: Vec<FieldElement> = Vec::new();
    let mut i: usize = 0;
    while i < output.public_inputs.len()
        invariant
            i <= output.public_inputs@.len(),
            key_readable(vk_hex@),
            well_shaped(*output),
            inputs@.len() == i,
            forall|j: int| 0 <= j < i ==> (#[trigger] inputs@[j]).wf()
                && parsed_value(output.public_inputs@[j]@) == Some(inputs@[j]@),
        decreases output.public_inputs@.len() - i,
    {
        match parse_field_element(output.public_inputs[i].as_str()) {
            Ok(x) => inputs.push(x),
            Err(e) => {
                return Err(e);
            },
        }
        i = i + 1;
    }
    let mut proof: Vec<u8> = output.proof_a.clone();
    let mut rest_b = output.proof_b.clone();
    let mut rest_c = output.proof_c.clone();
    proof.append(&mut rest_b);
    proof.append(&mut rest_c);
    assert forall|j: int| 0 <= j < output.public_inputs@.len() implies (#[trigger] parsed_value(
        output.public_inputs@[j]@,
    )) is Some by {
        assert(inputs@[j].wf());
    }
    assert(values_of(inputs@) =~= input_values(output.public_inputs@));
    groth16_verify(&vk, &proof, &inputs)
}

} // verus!
