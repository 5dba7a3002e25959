//! The calls into the `jsonwebtoken` and `serde_json` crates. Nothing in this
//! file is proved: each contract states what the crate's function is taken to
//! do, and the rest of the library is proved from these statements.

use vstd::prelude::*;
use jsonwebtoken::Algorithm;
use crate::token::{Alg, TokenHeader, TokenHeaderView};

verus! {

/// The error type of `jsonwebtoken`; nothing is known of its contents.
#[verifier::external_type_specification]
#[verifier::external_body]
pub struct ExDecodeError(jsonwebtoken::errors::Error);

/// A JSON value of `serde_json`; its members are read through `text_member`,
/// `number_member` and `flag_member`.
#[verifier::external_type_specification]
#[verifier::external_body]
pub struct ExJsonValue(serde_json::Value);

/// What `jsonwebtoken::decode_header` makes of a token: `None` where it
/// reports an error, else the algorithm and the `kid` field of the header it
/// returns.
pub uninterp spec fn header_of(token: Seq<char>) -> Option<TokenHeaderView>;

/// What `jsonwebtoken::crypto::verify` reports for a signature and a message
/// under RS256 and the RSA public key with modulus `n` and exponent `e`:
/// `None` where it reports an error, else whether the signature is valid.
pub uninterp spec fn rs256_verified(
    signature: Seq<char>,
    message: Seq<char>,
    n: Seq<char>,
    e: Seq<char>,
) -> Option<bool>;

/// What `jsonwebtoken::dangerous_insecure_decode` returns as the claims of a
/// token, without any look at the signature: `None` where it reports an
/// error.
pub uninterp spec fn unsigned_claims(token: Seq<char>) -> Option<serde_json::Value>;

/// The members of a JSON object that are strings, by name.
pub uninterp spec fn text_members(value: serde_json::Value) -> Map<Seq<char>, Seq<char>>;

/// The members of a JSON object that are non-negative integers below 2^64,
/// by name.
pub uninterp spec fn number_members(value: serde_json::Value) -> Map<Seq<char>, u64>;

/// The members of a JSON object that are booleans, by name.
pub uninterp spec fn flag_members(value: serde_json::Value) -> Map<Seq<char>, bool>;

/// Calls `jsonwebtoken::decode_header`, which reads the header of a compact
/// token without looking at the signature, and hands out the header's
/// algorithm, variant for variant, and its `kid` field. The contract only
/// names the outcome as `header_of` of the token.
#[verifier::external_body]
pub(crate) fn decode_header(token: &str) -> (r: Result<TokenHeader, jsonwebtoken::errors::Error>)
    ensures
        match r {
            Ok(header) => header_of(token@) == Some(header@),
            Err(_) => header_of(token@) is None,
        },
{
    let header = jsonwebtoken::decode_header(token)?;
    let alg = match header.alg {
        Algorithm::HS256 => Alg::HS256,
        Algorithm::HS384 => Alg::HS384,
        Algorithm::HS512 => Alg::HS512,
        Algorithm::ES256 => Alg::ES256,
        Algorithm::ES384 => Alg::ES384,
        Algorithm::RS256 => Alg::RS256,
        Algorithm::RS384 => Alg::RS384,
        Algorithm::RS512 => Alg::RS512,
        Algorithm::PS256 => Alg::PS256,
        Algorithm::PS384 => Alg::PS384,
        Algorithm::PS512 => Alg::PS512,
    };
    Ok(TokenHeader { alg, kid: header.kid })
}

/// Calls `jsonwebtoken::crypto::verify` with RS256 and the key built by
/// `DecodingKey::from_rsa_components`: whether the signature, in the
/// encoding of a compact token, is one of the message under that key. The
/// contract only names the outcome as `rs256_verified` of the four strings.
#[verifier::external_body]
pub(crate) fn verify_rs256(signature: &str, message: &str, n: &str, e: &str) -> (r: Result<
    bool,
    jsonwebtoken::errors::Error,
>)
    ensures
        match r {
            Ok(valid) => rs256_verified(signature@, message@, n@, e@) == Some(valid),
            Err(_) => rs256_verified(signature@, message@, n@, e@) is None,
        },
{
    let key = jsonwebtoken::DecodingKey::from_rsa_components(n, e);
    jsonwebtoken::crypto::verify(signature, message, &key, Algorithm::RS256)
}

/// Calls `jsonwebtoken::dangerous_insecure_decode`, which decodes header and
/// payload of a compact token and checks neither signature nor claims, and
/// hands out the payload as a JSON value. The contract only names the
/// outcome as `unsigned_claims` of the token. Verified code asks for the
/// claims only after `verify_rs256` has found the signature valid.
#[verifier::external_body]
pub(crate) fn decode_unsigned(token: &str) -> (r: Result<
    serde_json::Value,
    jsonwebtoken::errors::Error,
>)
    ensures
        match r {
            Ok(claims) => unsigned_claims(token@) == Some(claims),
            Err(_) => unsigned_claims(token@) is None,
        },
{
    jsonwebtoken::dangerous_insecure_decode::<serde_json::Value>(token).map(|data| data.claims)
}

/// Calls `serde_json::Value::get` and `Value::as_str`: the member of that
/// name, if the value is an object that has it and it is a string.
#[verifier::external_body]
pub(crate) fn text_member(value: &serde_json::Value, name: &str) -> (r: Option<String>)
    ensures
        match r {
            Some(text) => text_members(*value).contains_key(name@) && text_members(*value)[name@]
                == text@,
            None => !text_members(*value).contains_key(name@),
        },
{
    value.get(name).and_then(serde_json::Value::as_str).map(str::to_owned)
}

/// Calls `serde_json::Value::get` and `Value::as_u64`: the member of that
/// name, if the value is an object that has it and it is an integer that fits
/// `u64`.
#[verifier::external_body]
pub(crate) fn number_member(value: &serde_json::Value, name: &str) -> (r: Option<u64>)
    ensures
        match r {
            Some(number) => number_members(*value).contains_key(name@) && number_members(
                *value,
            )[name@] == number,
            None => !number_members(*value).contains_key(name@),
        },
{
    value.get(name).and_then(serde_json::Value::as_u64)
}

/// Calls `serde_json::Value::get` and `Value::as_bool`: the member of that
/// name, if the value is an object that has it and it is a boolean.
#[verifier::external_body]
pub(crate) fn flag_member(value: &serde_json::Value, name: &str) -> (r: Option<bool>)
    ensures
        match r {
            Some(flag) => flag_members(*value).contains_key(name@) && flag_members(*value)[name@]
                == flag,
            None => !flag_members(*value).contains_key(name@),
        },
{
    value.get(name).and_then(serde_json::Value::as_bool)
}

} // verus!
