//! Signing: the digest of a message, and a device's signature of it.

use vstd::prelude::*;

use crate::cryptde::{may_answer, CryptDE, CryptData, CryptdecError, PlainData};

verus! {

/// The longest message, in bytes, that SHA-1 takes: its length in bits is a number
/// of 64 bits.
pub const MAX_MESSAGE_LEN: u64 = 0x1fff_ffff_ffff_ffff;

/// Why something was not signed.
#[derive(Debug, PartialEq, Eq)]
pub enum SigningError {
    /// Its bytes are more than SHA-1 takes.
    ContentTooLong,
    /// The device refused.
    Refused(CryptdecError),
}

/// The SHA-1 digest of a message.
pub uninterp spec fn sha1_digest(message: Seq<u8>) -> Seq<u8>;

/// The SHA-1 digest of a message.
///
/// `sha1::Sha1`, made with `new` and updated with the message, gives by `digest` and
/// `bytes` twenty bytes that depend on the message alone. It counts the bits of the
/// message in 64 bits, and may panic where that overflows.
#[verifier::external_body]
fn sha1(message: &[u8]) -> (digest: Vec<u8>)
    requires
        message@.len() <= MAX_MESSAGE_LEN,
    ensures
        digest@ == sha1_digest(message@),
        digest@.len() == 20,
{
    let mut hash = sha1::Sha1::new();
    hash.update(message);
    hash.digest().bytes().to_vec()
}

/// Whether `outcome` is one that a device's signature of a digest may have.
pub open spec fn may_sign_digest<C: CryptDE + ?Sized>(
    cryptde: &C,
    digest: Seq<u8>,
    outcome: Result<Seq<u8>, SigningError>,
) -> bool {
    match outcome {
        Ok(signature) => may_answer(cryptde, digest, Ok(signature)),
        Err(SigningError::Refused(error)) => may_answer(cryptde, digest, Err(error)),
        Err(SigningError::ContentTooLong) => false,
    }
}

/// Whether `outcome` is one that a device's signature of a message's digest may have.
pub open spec fn may_sign<C: CryptDE + ?Sized>(
    cryptde: &C,
    message: Seq<u8>,
    outcome: Result<Seq<u8>, SigningError>,
) -> bool {
    if message.len() > MAX_MESSAGE_LEN {
        outcome == Err::<Seq<u8>, SigningError>(SigningError::ContentTooLong)
    } else {
        may_sign_digest(cryptde, sha1_digest(message), outcome)
    }
}

/// The outcome of signing, with a signature taken by its bytes.
pub open spec fn outcome_bytes(outcome: Result<CryptData, SigningError>) -> Result<
    Seq<u8>,
    SigningError,
> {
    match outcome {
        Ok(signature) => Ok(signature@),
        Err(error) => Err(error),
    }
}

/// The digest of a message, as data for a device to sign.
pub fn digest_message(message: &[u8]) -> (digest: Result<PlainData, SigningError>)
    ensures
        match digest {
            Ok(plain) => message@.len() <= MAX_MESSAGE_LEN && plain@ == sha1_digest(message@)
                && plain@.len() == 20,
            Err(error) => message@.len() > MAX_MESSAGE_LEN && error
                == SigningError::ContentTooLong,
        },
{
    if message.len() as u64 > MAX_MESSAGE_LEN {
        Err(SigningError::ContentTooLong)
    } else {
        let digest = sha1(message);
        Ok(PlainData::new(digest.as_slice()))
    }
}

/// A device's signature of a digest.
pub fn sign_digest<C: CryptDE + ?Sized>(cryptde: &C, digest: &PlainData) -> (outcome: Result<
    CryptData,
    SigningError,
>)
    ensures
        may_sign_digest(cryptde, digest@, outcome_bytes(outcome)),
{
    let answer = cryptde.sign(digest);
    accept_answer(answer)
}

/// What a device's answer means for the signature that was asked for.
pub fn accept_answer(answer: Result<CryptData, CryptdecError>) -> (outcome: Result<
    CryptData,
    SigningError,
>)
    ensures
        outcome == match answer {
            Ok(signature) => Ok::<CryptData, SigningError>(signature),
            Err(error) => Err(SigningError::Refused(error)),
        },
{
    match answer {
        Ok(signature) => Ok(signature),
        Err(error) => Err(SigningError::Refused(error)),
    }
}

/// A device's signature of a message's digest.
pub fn sign_message<C: CryptDE + ?Sized>(cryptde: &C, message: &[u8]) -> (outcome: Result<
    CryptData,
    SigningError,
>)
    ensures
        may_sign(cryptde, message@, outcome_bytes(outcome)),
{
    match digest_message(message) {
        Ok(digest) => sign_digest(cryptde, &digest),
        Err(error) => Err(error),
    }
}

} // verus!
