use vstd::prelude::*;

verus! {

/// The stage at which a prove or verify request failed.
#[derive(Debug, Clone, Copy, PartialEq, Eq, Structural)]
pub enum VortexError {
    /// A decimal numeral or a JSON payload could not be read.
    InputParse,
    /// Key bytes are not valid hex or do not decode to a key.
    KeyDeserialization,
    /// The witness does not satisfy `c = a * b`.
    ConstraintViolation,
    /// The proving algorithm itself failed.
    ProofGeneration,
    /// A result could not be encoded.
    Serialization,
    /// Proof bytes or public inputs handed to the verifier are malformed.
    VerificationInput,
}

/// The text that names each failing stage.
pub open spec fn message_text(e: VortexError) -> Seq<char> {
    match e {
        VortexError::InputParse => "failed to parse input"@,
        VortexError::KeyDeserialization => "failed to deserialize key"@,
        VortexError::ConstraintViolation => "constraints are not satisfied"@,
        VortexError::ProofGeneration => "failed to generate proof"@,
        VortexError::Serialization => "failed to serialize output"@,
        VortexError::VerificationInput => "malformed verification input"@,
    }
}

impl VortexError {
    /// A short description of the failing stage.
    pub fn message(&self) -> (r: &'static str)
        ensures
            r@ == message_text(*self),
    {
        let r = match self {
            VortexError::InputParse => "failed to parse input",
            VortexError::KeyDeserialization => "failed to deserialize key",
            VortexError::ConstraintViolation => "constraints are not satisfied",
            VortexError::ProofGeneration => "failed to generate proof",
            VortexError::Serialization => "failed to serialize output",
            VortexError::VerificationInput => "malformed verification input",
        };
        proof {
            reveal_strlit("failed to parse input");
            reveal_strlit("failed to deserialize key");
            reveal_strlit("constraints are not satisfied");
            reveal_strlit("failed to generate proof");
            reveal_strlit("failed to serialize output");
            reveal_strlit("malformed verification input");
        }
        r
    }
}

} // verus!
