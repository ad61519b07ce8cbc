//! Boundary types of the computation gateway: the ordered argument list of a
//! confidential-computation submission, the gateway's accept/reject answer,
//! the asynchronous callback payload, and the events derived from it.

use vstd::prelude::*;

use vstd::arithmetic::div_mod::lemma_div_denominator;
use vstd::arithmetic::power::{lemma_pow0, lemma_pow1, lemma_pow_adds, lemma_pow_positive, pow};

use crate::errors::{ExchangeError, SubmitRejection};

verus! {

/// One typed argument of a confidential-computation submission: either a
/// plaintext scalar or an encrypted scalar tagged for a recipient key.
#[derive(Clone, Copy, Debug, PartialEq, Eq)]
pub enum Argument {
    /// The recipient's public encryption key.
    ArcisPubkey([u8; 32]),
    /// A plaintext 128-bit scalar (the encryption nonce).
    PlaintextU128(u128),
    /// An encrypted 8-bit scalar.
    EncryptedU8([u8; 32]),
    /// An encrypted 64-bit scalar.
    EncryptedU64([u8; 32]),
}

/// The gateway's synchronous answer to a submission.
#[derive(Clone, Copy, Debug, PartialEq, Eq)]
pub enum SubmitOutcome {
    /// The request was accepted; exactly one callback will follow.
    Accepted,
    /// The request was refused; no callback will follow.
    Rejected(SubmitRejection),
}

/// The payload of the single asynchronous callback delivered for an accepted
/// request: the circuit's output ciphertexts and nonce, or an abort signal.
#[derive(Clone, Debug, PartialEq, Eq)]
pub enum ComputationOutcome {
    /// The circuit ran to completion with these recipient-decryptable
    /// outputs and the encryption nonce used.
    Success { ciphertexts: Vec<[u8; 32]>, nonce: u128 },
    /// The computation network reported failure.
    Aborted,
}

impl ComputationOutcome {
    /// The callback reports success.
    pub open spec fn is_success(self) -> bool {
        self is Success
    }
}

/// Public event carrying the encrypted sum produced by the demonstration
/// addition circuit.
#[derive(Clone, Copy, Debug, PartialEq, Eq)]
pub struct SumEvent {
    /// Ciphertext of the sum, decryptable by the recipient.
    pub sum: [u8; 32],
    /// The encryption nonce the circuit answered with.
    pub nonce: u128,
}

/// Public event carrying the processed confidential deposit amount.
#[derive(Clone, Copy, Debug, PartialEq, Eq)]
pub struct DepositProcessedEvent {
    /// Ciphertext of the processed amount.
    pub processed_amount: [u8; 32],
    /// The encryption nonce the circuit answered with.
    pub nonce: u128,
}

/// Public acknowledgment that a confidential computation completed; the
/// verified content itself stays off the public ledger.
#[derive(Clone, Copy, Debug, PartialEq, Eq)]
pub struct AckEvent {
    /// Always one: the opaque acknowledged flag.
    pub acknowledged: u8,
}

/// Little-endian byte `i` of a 128-bit nonce.
pub open spec fn nonce_byte(n: u128, i: nat) -> u8 {
    (((n as int) / pow(256, i)) % 256) as u8
}

/// Serializes a nonce into its sixteen little-endian bytes, as the public
/// events carry it.
pub fn nonce_le_bytes(n: u128) -> (r: Vec<u8>)
    ensures
        r@.len() == 16,
        forall|i: int| 0 <= i < 16 ==> r@[i] == nonce_byte(n, i as nat),
{
    let mut r: Vec<u8> = Vec::new();
    let mut cur: u128 = n;
    let mut k: usize = 0;
    proof {
        lemma_pow0(256);
    }
    while k < 16
        invariant
            k <= 16,
            r@.len() == k,
            cur as int == (n as int) / pow(256, k as nat),
            forall|i: int| 0 <= i < k ==> r@[i] == nonce_byte(n, i as nat),
        decreases 16 - k,
    {
        r.push((cur % 256) as u8);
        proof {
            lemma_pow_positive(256, k as nat);
            lemma_pow1(256);
            lemma_pow_adds(256, k as nat, 1);
            assert(pow(256, (k + 1) as nat) == pow(256, k as nat) * 256);
            lemma_div_denominator(n as int, pow(256, k as nat), 256);
        }
        cur = cur / 256;
        k = k + 1;
    }
    r
}

/// The ordered argument list of an identity-verification submission: the
/// recipient key, the plaintext nonce, and one encrypted identity hash.
pub fn verification_args(pub_key: [u8; 32], nonce: u128, ciphertext: [u8; 32]) -> (r: Vec<
    Argument,
>)
    ensures
        r@ == seq![
            Argument::ArcisPubkey(pub_key),
            Argument::PlaintextU128(nonce),
            Argument::EncryptedU64(ciphertext),
        ],
{
    let mut args: Vec<Argument> = Vec::new();
    args.push(Argument::ArcisPubkey(pub_key));
    args.push(Argument::PlaintextU128(nonce));
    args.push(Argument::EncryptedU64(ciphertext));
    proof {
        assert(args@ =~= seq![
            Argument::ArcisPubkey(pub_key),
            Argument::PlaintextU128(nonce),
            Argument::EncryptedU64(ciphertext),
        ]);
    }
    args
}

/// The ordered argument list of the demonstration addition circuit: the
/// recipient key, the plaintext nonce, and two encrypted 8-bit summands.
pub fn add_together_args(
    pub_key: [u8; 32],
    nonce: u128,
    ciphertext_0: [u8; 32],
    ciphertext_1: [u8; 32],
) -> (r: Vec<Argument>)
    ensures
        r@ == seq![
            Argument::ArcisPubkey(pub_key),
            Argument::PlaintextU128(nonce),
            Argument::EncryptedU8(ciphertext_0),
            Argument::EncryptedU8(ciphertext_1),
        ],
{
    let mut args: Vec<Argument> = Vec::new();
    args.push(Argument::ArcisPubkey(pub_key));
    args.push(Argument::PlaintextU128(nonce));
    args.push(Argument::EncryptedU8(ciphertext_0));
    args.push(Argument::EncryptedU8(ciphertext_1));
    proof {
        assert(args@ =~= seq![
            Argument::ArcisPubkey(pub_key),
            Argument::PlaintextU128(nonce),
            Argument::EncryptedU8(ciphertext_0),
            Argument::EncryptedU8(ciphertext_1),
        ]);
    }
    args
}

/// Derives the public sum event from the addition circuit's callback:
/// the first output ciphertext and the nonce on success, an error on abort
/// or on an output shape the circuit never produces.
pub fn add_together_callback(output: &ComputationOutcome) -> (r: Result<SumEvent, ExchangeError>)
    ensures
        (output matches ComputationOutcome::Success { ciphertexts, nonce } && ciphertexts@.len()
            >= 1) ==> (r matches Ok(ev) && ev.sum == output->ciphertexts@[0] && ev.nonce
            == output->nonce),
        (output matches ComputationOutcome::Success { ciphertexts, .. } && ciphertexts@.len()
            == 0) ==> r == Err::<SumEvent, _>(ExchangeError::PreconditionViolation),
        output is Aborted ==> r == Err::<SumEvent, _>(ExchangeError::ComputationAborted),
{
    match output {
        ComputationOutcome::Success { ciphertexts, nonce } => {
            if ciphertexts.len() == 0 {
                Err(ExchangeError::PreconditionViolation)
            } else {
                Ok(SumEvent { sum: ciphertexts[0], nonce: *nonce })
            }
        },
        ComputationOutcome::Aborted => Err(ExchangeError::ComputationAborted),
    }
}

/// Derives the public deposit event from the confidential-deposit circuit's
/// callback, in the same way as the sum event.
pub fn confidential_deposit_native_callback(output: &ComputationOutcome) -> (r: Result<
    DepositProcessedEvent,
    ExchangeError,
>)
    ensures
        (output matches ComputationOutcome::Success { ciphertexts, nonce } && ciphertexts@.len()
            >= 1) ==> (r matches Ok(ev) && ev.processed_amount == output->ciphertexts@[0]
            && ev.nonce == output->nonce),
        (output matches ComputationOutcome::Success { ciphertexts, .. } && ciphertexts@.len()
            == 0) ==> r == Err::<DepositProcessedEvent, _>(ExchangeError::PreconditionViolation),
        output is Aborted ==> r == Err::<DepositProcessedEvent, _>(
            ExchangeError::ComputationAborted,
        ),
{
    match output {
        ComputationOutcome::Success { ciphertexts, nonce } => {
            if ciphertexts.len() == 0 {
                Err(ExchangeError::PreconditionViolation)
            } else {
                Ok(DepositProcessedEvent { processed_amount: ciphertexts[0], nonce: *nonce })
            }
        },
        ComputationOutcome::Aborted => Err(ExchangeError::ComputationAborted),
    }
}

/// Turns a callback into the bare acknowledgment event the ledger publishes:
/// the flag is one on success, and an abort surfaces as `ComputationAborted`.
pub fn acknowledge_callback(output: &ComputationOutcome) -> (r: Result<AckEvent, ExchangeError>)
    ensures
        output.is_success() ==> (r matches Ok(ev) && ev.acknowledged == 1),
        !output.is_success() ==> r == Err::<AckEvent, _>(ExchangeError::ComputationAborted),
{
    match output {
        ComputationOutcome::Success { .. } => Ok(AckEvent { acknowledged: 1 }),
        ComputationOutcome::Aborted => Err(ExchangeError::ComputationAborted),
    }
}

} // verus!
