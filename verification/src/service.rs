//! Trusted boundary to the token-scheme primitives and to the JSON parser.
//!
//! Everything here is believed, not proved: each wrapper calls into an
//! outside crate and states only what that crate's source shows.  The
//! token-scheme values themselves stay opaque; where a result is a pure
//! function of plain bytes, it is given an uninterpreted name so that the
//! verified callers can speak about it exactly.

use vstd::prelude::*;

use challenge_bypass_ristretto::voprf::SigningKey;
use challenge_bypass_ristretto::voprf::TokenPreimage;
use challenge_bypass_ristretto::voprf::VerificationSignature;

use crate::record::Credential;

verus! {

#[verifier::external_type_specification]
#[verifier::external_body]
pub struct ExSigningKey(SigningKey);

#[verifier::external_type_specification]
#[verifier::external_body]
pub struct ExTokenPreimage(TokenPreimage);

#[verifier::external_type_specification]
#[verifier::external_body]
pub struct ExVerificationSignature(VerificationSignature);

/// Whether a byte string is a well-formed base64 encoding of an issuer
/// signing key; a function of the bytes alone.
pub uninterp spec fn signing_key_decodes(s: Seq<u8>) -> bool;

/// The public-key identifier derived from raw issuer key material that
/// decodes: the base64 encoding of the public key the signing key commits
/// to; a function of the bytes alone.
pub uninterp spec fn derived_key_id(raw: Seq<u8>) -> Seq<u8>;

/// Whether a byte string is a well-formed base64 encoding of a token
/// preimage; a function of the bytes alone.
pub uninterp spec fn token_preimage_decodes(s: Seq<u8>) -> bool;

/// Whether a byte string is a well-formed base64 encoding of a verification
/// signature; a function of the bytes alone.
pub uninterp spec fn verification_signature_decodes(s: Seq<u8>) -> bool;

/// The token verification service's deterministic pass/fail answer for one
/// redemption, as a function of the raw issuer key material, the base64
/// token preimage, the payload, and the base64 signature alone.  Meaningful
/// where all three encoded inputs decode.
pub uninterp spec fn verification_passes(
    raw_key: Seq<u8>,
    t: Seq<u8>,
    payload: Seq<u8>,
    sig: Seq<u8>,
) -> bool;

/// The credential fields parsed out of one unescaped credential column, as
/// `(issuer public key, token preimage, payload, signature, value)`, or
/// nothing if the column is not of that shape; a function of the bytes alone.
pub uninterp spec fn credential_column_parse(s: Seq<u8>) -> Option<
    (Seq<u8>, Seq<u8>, Seq<u8>, Seq<u8>, Seq<u8>),
>;

/// Relies on `SigningKey::decode_base64` and `PublicKey::encode_base64` of
/// challenge_bypass_ristretto: whether the bytes decode, and the identifier
/// derived for the decoded key, both depend on the bytes alone.
#[verifier::external_body]
pub(crate) fn decode_key_and_id(raw: &Vec<u8>) -> (r: Option<(SigningKey, Vec<u8>)>)
    ensures
        r is Some <==> signing_key_decodes(raw@),
        r matches Some(p) ==> p.1@ == derived_key_id(raw@),
{
    let text = std::str::from_utf8(raw).ok()?;
    let key = SigningKey::decode_base64(text).ok()?;
    let id = key.public_key.encode_base64().into_bytes();
    Some((key, id))
}

/// Relies on `TokenPreimage::decode_base64` of challenge_bypass_ristretto:
/// whether the bytes decode depends on the bytes alone.
#[verifier::external_body]
pub(crate) fn decode_token_preimage(s: &Vec<u8>) -> (r: Option<TokenPreimage>)
    ensures
        r is Some <==> token_preimage_decodes(s@),
{
    let text = std::str::from_utf8(s).ok()?;
    TokenPreimage::decode_base64(text).ok()
}

/// Relies on `VerificationSignature::decode_base64` of
/// challenge_bypass_ristretto: whether the bytes decode depends on the bytes
/// alone.
#[verifier::external_body]
pub(crate) fn decode_verification_signature(s: &Vec<u8>) -> (r: Option<VerificationSignature>)
    ensures
        r is Some <==> verification_signature_decodes(s@),
{
    let text = std::str::from_utf8(s).ok()?;
    VerificationSignature::decode_base64(text).ok()
}

/// Relies on challenge_bypass_ristretto's redemption-side chain:
/// `SigningKey::decode_base64`, `TokenPreimage::decode_base64`,
/// `VerificationSignature::decode_base64`, then
/// `rederive_unblinded_token`, `derive_verification_key` with SHA-512, and
/// `VerificationKey::verify` with HMAC-SHA-512.  Every step is a pure
/// function of the four byte strings, so the answer carries a name.
#[verifier::external_body]
pub(crate) fn verify_redemption(
    raw_key: &Vec<u8>,
    t: &Vec<u8>,
    payload: &Vec<u8>,
    sig: &Vec<u8>,
) -> (r: Option<bool>)
    ensures
        r is Some <==> (signing_key_decodes(raw_key@) && token_preimage_decodes(t@)
            && verification_signature_decodes(sig@)),
        r matches Some(pass) ==> pass == verification_passes(raw_key@, t@, payload@, sig@),
{
    let key = SigningKey::decode_base64(std::str::from_utf8(raw_key).ok()?).ok()?;
    let preimage = TokenPreimage::decode_base64(std::str::from_utf8(t).ok()?).ok()?;
    let signature = VerificationSignature::decode_base64(std::str::from_utf8(sig).ok()?).ok()?;
    let unblinded = key.rederive_unblinded_token(&preimage);
    let verification_key = unblinded.derive_verification_key::<sha2::Sha512>();
    Some(verification_key.verify::<hmac::Hmac<sha2::Sha512>>(&signature, payload.as_slice()))
}

/// Relies on serde_json to parse one unescaped credential column, a JSON
/// object `{"publicKey", "credential": {"t", "payload", "signature"}, "value"}`
/// with string fields and a numeric value; the parse is a function of the
/// bytes alone.
#[verifier::external_body]
pub(crate) fn parse_credential_column(s: &Vec<u8>) -> (r: Option<Credential>)
    ensures
        r is Some <==> credential_column_parse(s@) is Some,
        r matches Some(c) ==> credential_column_parse(s@) matches Some(p)
            && c.issuer_public_key@ == p.0 && c.token_preimage@ == p.1 && c.payload@ == p.2
            && c.signature@ == p.3 && c.value@ == p.4,
{
    let v: serde_json::Value = serde_json::from_str(std::str::from_utf8(s).ok()?).ok()?;
    let value = v.get("value")?;
    if !value.is_number() {
        return None;
    }
    let c = v.get("credential")?;
    Some(Credential {
        issuer_public_key: v.get("publicKey")?.as_str()?.as_bytes().to_vec(),
        token_preimage: c.get("t")?.as_str()?.as_bytes().to_vec(),
        payload: c.get("payload")?.as_str()?.as_bytes().to_vec(),
        signature: c.get("signature")?.as_str()?.as_bytes().to_vec(),
        value: value.to_string().into_bytes(),
    })
}

} // verus!
