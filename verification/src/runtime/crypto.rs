//! The cryptographic instructions.  Hashing, signature verification,
//! key derivation and polynomial commitments are computed by the
//! embedder's cryptography; the interpreter takes the instruction's
//! operands from the executing frame as a [`CryptoRequest`], checks
//! their shape, and completes the instruction with the computed
//! [`CryptoResponse`].

use crate::bytecode::AdamantBytecode;
use crate::runtime::error::{InvariantViolationReason, VMError};
use crate::runtime::frame::{pop_as, type_mismatch, underflow, Frame, FrameModel};
use crate::runtime::interpreter::{invalid_at, push_and_continue_top, with_top, DispatchOutcome, InterpreterState, StateModel};
use crate::value::{seq_model, Value, ValueModel};
use vstd::prelude::*;

verus! {

/// Length of the parent seed of a sub-view-key derivation.
pub const PARENT_SEED_LEN: usize = 64;

/// Length of a polynomial coefficient.
pub const SCALAR_LEN: usize = 32;

/// A signature scheme.
#[derive(Debug, Clone, Copy, PartialEq, Eq, Hash, Structural)]
pub enum SignatureScheme {
    /// Ed25519.
    Ed25519,
    /// ML-DSA-65.
    MlDsa65,
    /// BLS12-381.
    Bls,
}

/// The computation a cryptographic instruction asks for, with its
/// operands.
#[derive(Debug, Clone, PartialEq, Eq, Hash)]
pub enum CryptoRequest {
    /// SHA3-256 of the input; answered with the 32-byte digest.
    Sha3_256 {
        /// The input bytes.
        input: Vec<u8>,
    },
    /// BLAKE3 of the input; answered with the 32-byte digest.
    Blake3 {
        /// The input bytes.
        input: Vec<u8>,
    },
    /// Signature verification; answered with whether it verifies.
    Verify {
        /// The scheme.
        scheme: SignatureScheme,
        /// The public key bytes.
        public_key: Vec<u8>,
        /// The message.
        message: Vec<u8>,
        /// The signature bytes.
        signature: Vec<u8>,
    },
    /// Sub-view-key derivation from a 64-byte parent seed and the
    /// encoded scope; answered with the derived 64-byte seed.
    ReleaseSubViewKey {
        /// The parent seed.
        parent_seed: Vec<u8>,
        /// The encoded scope.
        scope: Vec<u8>,
    },
    /// A commitment to the polynomial whose coefficients are the
    /// consecutive 32-byte big-endian scalars of the input; answered
    /// with the compressed commitment.
    KzgCommit {
        /// The coefficient bytes.
        polynomial: Vec<u8>,
    },
    /// Verification of an opening; answered with whether it verifies.
    KzgVerify {
        /// The compressed commitment.
        commitment: Vec<u8>,
        /// The compressed opening proof.
        opening: Vec<u8>,
        /// The evaluation point and value, 32 bytes each.
        claimed_value: Vec<u8>,
    },
}

/// The model of a [`CryptoRequest`].
pub enum CryptoRequestModel {
    /// SHA3-256.
    Sha3_256(Seq<u8>),
    /// BLAKE3.
    Blake3(Seq<u8>),
    /// Signature verification: scheme, key, message, signature.
    Verify(SignatureScheme, Seq<u8>, Seq<u8>, Seq<u8>),
    /// Sub-view-key derivation: parent seed, scope.
    ReleaseSubViewKey(Seq<u8>, Seq<u8>),
    /// Polynomial commitment.
    KzgCommit(Seq<u8>),
    /// Opening verification: commitment, opening, claimed value.
    KzgVerify(Seq<u8>, Seq<u8>, Seq<u8>),
}

impl CryptoRequest {
    /// The model of the request.
    pub open spec fn model(self) -> CryptoRequestModel {
        match self {
            CryptoRequest::Sha3_256 { input } => CryptoRequestModel::Sha3_256(input@),
            CryptoRequest::Blake3 { input } => CryptoRequestModel::Blake3(input@),
            CryptoRequest::Verify { scheme, public_key, message, signature } => CryptoRequestModel::Verify(
                scheme,
                public_key@,
                message@,
                signature@,
            ),
            CryptoRequest::ReleaseSubViewKey { parent_seed, scope } => CryptoRequestModel::ReleaseSubViewKey(
                parent_seed@,
                scope@,
            ),
            CryptoRequest::KzgCommit { polynomial } => CryptoRequestModel::KzgCommit(polynomial@),
            CryptoRequest::KzgVerify { commitment, opening, claimed_value } => CryptoRequestModel::KzgVerify(
                commitment@,
                opening@,
                claimed_value@,
            ),
        }
    }
}

/// The computed result of a cryptographic instruction.
#[derive(Debug, Clone, PartialEq, Eq, Hash)]
pub enum CryptoResponse {
    /// Bytes, pushed as a `vector<u8>`.
    Bytes(Vec<u8>),
    /// A verification outcome, pushed as a `bool`.
    Flag(bool),
}

/// The bytes of a `vector<u8>`, or a type mismatch.
pub open spec fn as_bytes(v: ValueModel) -> Result<Seq<u8>, VMError> {
    match v {
        ValueModel::Vector(elems) => if forall|i: int| 0 <= i < elems.len() ==> (#[trigger] elems[i]) is U8 {
            Ok(Seq::new(elems.len(), |i: int| elems[i]->U8_0))
        } else {
            Err(type_mismatch())
        },
        _ => Err(type_mismatch()),
    }
}

/// Popping three byte vectors: the third, the second, then the first.
pub open spec fn pop3_bytes(f: FrameModel) -> (Result<(Seq<u8>, Seq<u8>, Seq<u8>), VMError>, FrameModel) {
    match pop_as(f, |v: ValueModel| as_bytes(v)) {
        (Err(e), g) => (Err(e), g),
        (Ok(c), g) => match pop_as(g, |v: ValueModel| as_bytes(v)) {
            (Err(e), h) => (Err(e), h),
            (Ok(b), h) => match pop_as(h, |v: ValueModel| as_bytes(v)) {
                (Err(e), k) => (Err(e), k),
                (Ok(a), k) => (Ok((a, b, c)), k),
            },
        },
    }
}

/// Taking the operands of cryptographic instruction `op` from frame
/// `f`: the request, or the error, and the frame after the pops.
pub open spec fn spec_crypto_operands(op: AdamantBytecode, f: FrameModel) -> (Result<CryptoRequestModel, VMError>, FrameModel) {
    match op {
        AdamantBytecode::Sha3_256 => match pop_as(f, |v: ValueModel| as_bytes(v)) {
            (Ok(b), g) => (Ok(CryptoRequestModel::Sha3_256(b)), g),
            (Err(e), g) => (Err(e), g),
        },
        AdamantBytecode::Blake3 => match pop_as(f, |v: ValueModel| as_bytes(v)) {
            (Ok(b), g) => (Ok(CryptoRequestModel::Blake3(b)), g),
            (Err(e), g) => (Err(e), g),
        },
        AdamantBytecode::Ed25519Verify => match pop3_bytes(f) {
            (Ok((pk, msg, sig)), g) => (Ok(CryptoRequestModel::Verify(SignatureScheme::Ed25519, pk, msg, sig)), g),
            (Err(e), g) => (Err(e), g),
        },
        AdamantBytecode::MlDsaVerify65 => match pop3_bytes(f) {
            (Ok((pk, msg, sig)), g) => (Ok(CryptoRequestModel::Verify(SignatureScheme::MlDsa65, pk, msg, sig)), g),
            (Err(e), g) => (Err(e), g),
        },
        AdamantBytecode::BlsVerify => match pop3_bytes(f) {
            (Ok((pk, msg, sig)), g) => (Ok(CryptoRequestModel::Verify(SignatureScheme::Bls, pk, msg, sig)), g),
            (Err(e), g) => (Err(e), g),
        },
        AdamantBytecode::ReleaseSubViewKey => match pop_as(f, |v: ValueModel| as_bytes(v)) {
            (Err(e), g) => (Err(e), g),
            (Ok(scope), g) => match pop_as(g, |v: ValueModel| as_bytes(v)) {
                (Err(e), h) => (Err(e), h),
                (Ok(seed), h) => if seed.len() == PARENT_SEED_LEN {
                    (Ok(CryptoRequestModel::ReleaseSubViewKey(seed, scope)), h)
                } else {
                    (Err(type_mismatch()), h)
                },
            },
        },
        AdamantBytecode::KzgCommit => match pop_as(f, |v: ValueModel| as_bytes(v)) {
            (Err(e), g) => (Err(e), g),
            (Ok(b), g) => if b.len() % (SCALAR_LEN as nat) == 0 {
                (Ok(CryptoRequestModel::KzgCommit(b)), g)
            } else {
                (Err(type_mismatch()), g)
            },
        },
        AdamantBytecode::KzgVerify => match pop3_bytes(f) {
            (Ok((c, o, v)), g) => (Ok(CryptoRequestModel::KzgVerify(c, o, v)), g),
            (Err(e), g) => (Err(e), g),
        },
        _ => (Err(invalid_at(f)), f),
    }
}

/// Pops the top value, which must be a `vector<u8>`; returns its bytes.
fn pop_bytes(frame: &mut Frame) -> (r: Result<Vec<u8>, VMError>)
    ensures
        (match r {
            Ok(b) => Ok(b@),
            Err(e) => Err(e),
        }, final(frame).model()) == pop_as(old(frame).model(), |v: ValueModel| as_bytes(v)),
{
    let elems = frame.pop_vector()?;
    let ghost m = seq_model(elems@);
    assert(old(frame).model().pop() == (Ok::<ValueModel, VMError>(ValueModel::Vector(m)), frame.model()));
    let mut out: Vec<u8> = Vec::new();
    let mut i: usize = 0;
    while i < elems.len()
        invariant
            i <= elems@.len(),
            m == seq_model(elems@),
            old(frame).model().pop() == (Ok::<ValueModel, VMError>(ValueModel::Vector(m)), frame.model()),
            out@.len() == i,
            forall|j: int| 0 <= j < i ==> (#[trigger] m[j]) is U8 && m[j]->U8_0 == out@[j],
        decreases elems@.len() - i,
    {
        match &elems[i] {
            Value::U8(b) => out.push(*b),
            _ => {
                proof {
                    assert(!(m[i as int] is U8));
                    assert(!(forall|j: int| 0 <= j < m.len() ==> (#[trigger] m[j]) is U8));
                    assert(as_bytes(ValueModel::Vector(m)) == Err::<Seq<u8>, VMError>(type_mismatch()));
                }
                return Err(VMError::InvariantViolation { reason: InvariantViolationReason::TypeMismatchOnStack });
            },
        }
        i = i + 1;
    }
    assert(out@ =~= Seq::new(m.len(), |j: int| m[j]->U8_0));
    Ok(out)
}

/// Pops three byte vectors: the third, the second, then the first.
fn pop3(frame: &mut Frame) -> (r: Result<(Vec<u8>, Vec<u8>, Vec<u8>), VMError>)
    ensures
        (match r {
            Ok((a, b, c)) => Ok((a@, b@, c@)),
            Err(e) => Err(e),
        }, final(frame).model()) == pop3_bytes(old(frame).model()),
{
    let c = pop_bytes(frame)?;
    let b = pop_bytes(frame)?;
    let a = pop_bytes(frame)?;
    Ok((a, b, c))
}

/// Takes the operands of cryptographic instruction `op` from the
/// executing frame.
fn crypto_operands(op: &AdamantBytecode, frame: &mut Frame) -> (r: Result<CryptoRequest, VMError>)
    ensures
        (match r {
            Ok(req) => Ok(req.model()),
            Err(e) => Err(e),
        }, final(frame).model()) == spec_crypto_operands(*op, old(frame).model()),
{
    match op {
        AdamantBytecode::Sha3_256 => {
            let input = pop_bytes(frame)?;
            Ok(CryptoRequest::Sha3_256 { input })
        },
        AdamantBytecode::Blake3 => {
            let input = pop_bytes(frame)?;
            Ok(CryptoRequest::Blake3 { input })
        },
        AdamantBytecode::Ed25519Verify => {
            let (public_key, message, signature) = pop3(frame)?;
            Ok(CryptoRequest::Verify { scheme: SignatureScheme::Ed25519, public_key, message, signature })
        },
        AdamantBytecode::MlDsaVerify65 => {
            let (public_key, message, signature) = pop3(frame)?;
            Ok(CryptoRequest::Verify { scheme: SignatureScheme::MlDsa65, public_key, message, signature })
        },
        AdamantBytecode::BlsVerify => {
            let (public_key, message, signature) = pop3(frame)?;
            Ok(CryptoRequest::Verify { scheme: SignatureScheme::Bls, public_key, message, signature })
        },
        AdamantBytecode::ReleaseSubViewKey => {
            let scope = pop_bytes(frame)?;
            let parent_seed = pop_bytes(frame)?;
            if parent_seed.len() != PARENT_SEED_LEN {
                return Err(VMError::InvariantViolation { reason: InvariantViolationReason::TypeMismatchOnStack });
            }
            Ok(CryptoRequest::ReleaseSubViewKey { parent_seed, scope })
        },
        AdamantBytecode::KzgCommit => {
            let polynomial = pop_bytes(frame)?;
            if polynomial.len() % SCALAR_LEN != 0 {
                return Err(VMError::InvariantViolation { reason: InvariantViolationReason::TypeMismatchOnStack });
            }
            Ok(CryptoRequest::KzgCommit { polynomial })
        },
        AdamantBytecode::KzgVerify => {
            let (commitment, opening, claimed_value) = pop3(frame)?;
            Ok(CryptoRequest::KzgVerify { commitment, opening, claimed_value })
        },
        _ => Err(VMError::InvalidInstruction { function_handle: frame.function_handle, pc: frame.pc }),
    }
}

/// Taking the request of cryptographic instruction `op` from the
/// executing frame of `s`.
pub open spec fn spec_take_crypto_request(op: AdamantBytecode, s: StateModel) -> (Result<CryptoRequestModel, VMError>, StateModel) {
    if s.frames.len() == 0 {
        (Err(underflow()), s)
    } else {
        let (r, f) = spec_crypto_operands(op, s.frames.last());
        (r, with_top(s, f))
    }
}

/// Takes the request of cryptographic instruction `op`, which
/// dispatching answered with [`DispatchOutcome::Crypto`].
pub fn take_crypto_request(op: &AdamantBytecode, state: &mut InterpreterState) -> (r: Result<CryptoRequest, VMError>)
    ensures
        (match r {
            Ok(req) => Ok(req.model()),
            Err(e) => Err(e),
        }, final(state).model()) == spec_take_crypto_request(*op, old(state).model()),
{
    state.with_top_frame_crypto(op)
}

/// The value a response pushes.
pub open spec fn response_model(resp: CryptoResponse) -> ValueModel {
    match resp {
        CryptoResponse::Bytes(b) => ValueModel::Vector(b@.map_values(|x: u8| ValueModel::U8(x))),
        CryptoResponse::Flag(f) => ValueModel::Bool(f),
    }
}

/// Completing a cryptographic instruction with its result: the
/// result is pushed and the counter advances.
pub open spec fn spec_complete_crypto(s: StateModel, resp: CryptoResponse) -> (Result<DispatchOutcome, VMError>, StateModel) {
    if s.frames.len() == 0 {
        (Err(underflow()), s)
    } else {
        (Ok(DispatchOutcome::Continue), with_top(s, s.frames.last().push(response_model(resp)).advance()))
    }
}

/// The bytes as a `vector<u8>` value.
fn bytes_value(bytes: &Vec<u8>) -> (r: Value)
    ensures
        r.model() == ValueModel::Vector(bytes@.map_values(|x: u8| ValueModel::U8(x))),
{
    let mut out: Vec<Value> = Vec::new();
    let mut i: usize = 0;
    while i < bytes.len()
        invariant
            i <= bytes@.len(),
            out@.len() == i,
            forall|j: int| 0 <= j < i ==> (#[trigger] out@[j]) == Value::U8(bytes@[j]),
        decreases bytes@.len() - i,
    {
        out.push(Value::U8(bytes[i]));
        i = i + 1;
    }
    proof {
        crate::value::lemma_vec_model(out);
        assert(seq_model(out@) =~= bytes@.map_values(|x: u8| ValueModel::U8(x)));
    }
    Value::Vector(out)
}

/// Completes a cryptographic instruction with its computed result.
pub fn complete_crypto(state: &mut InterpreterState, response: CryptoResponse) -> (r: Result<DispatchOutcome, VMError>)
    ensures
        (r, final(state).model()) == spec_complete_crypto(old(state).model(), response),
{
    let v = match &response {
        CryptoResponse::Bytes(b) => bytes_value(b),
        CryptoResponse::Flag(f) => Value::Bool(*f),
    };
    push_and_continue_top(state, v)
}

impl InterpreterState {
    /// Takes a cryptographic request from the executing frame.
    fn with_top_frame_crypto(&mut self, op: &AdamantBytecode) -> (r: Result<CryptoRequest, VMError>)
        ensures
            (match r {
                Ok(req) => Ok(req.model()),
                Err(e) => Err(e),
            }, final(self).model()) == spec_take_crypto_request(*op, old(self).model()),
    {
        let ghost s0 = self.model();
        let mut frame = match self.pop_frame() {
            Some(f) => f,
            None => {
                return Err(VMError::InvariantViolation { reason: InvariantViolationReason::StackUnderflow });
            },
        };
        let r = crypto_operands(op, &mut frame);
        let ghost fm = frame.model();
        self.push_frame(frame);
        assert(self.model().frames =~= with_top(s0, fm).frames);
        r
    }
}

} // verus!
