//! The claims of an ID token, and the checks that a verifier makes on them.

use vstd::prelude::*;
use crate::client::{Client, ClientView};
use crate::error::SigninError;
use crate::jwt::{
    flag_member, flag_members, number_member, number_members, text_member, text_members,
};
use crate::text::{holds, text_of};

verus! {

/// The algorithm that the header of a token names for its signature.
#[derive(Debug, Clone, Copy, PartialEq, Eq, Structural)]
pub enum Alg {
    /// HMAC with SHA-256.
    HS256,
    /// HMAC with SHA-384.
    HS384,
    /// HMAC with SHA-512.
    HS512,
    /// ECDSA with SHA-256.
    ES256,
    /// ECDSA with SHA-384.
    ES384,
    /// RSASSA-PKCS1-v1_5 with SHA-256, the one algorithm of the provider.
    RS256,
    /// RSASSA-PKCS1-v1_5 with SHA-384.
    RS384,
    /// RSASSA-PKCS1-v1_5 with SHA-512.
    RS512,
    /// RSASSA-PSS with SHA-256.
    PS256,
    /// RSASSA-PSS with SHA-384.
    PS384,
    /// RSASSA-PSS with SHA-512.
    PS512,
}

/// What the library reads of a token's header, as mathematical values.
pub struct TokenHeaderView {
    /// The algorithm of the signature.
    pub alg: Alg,
    /// The identifier of the key that signed the token, if the header names
    /// one.
    pub kid: Option<Seq<char>>,
}

/// What the library reads of a token's header.
#[derive(Debug)]
pub struct TokenHeader {
    /// The algorithm of the signature.
    pub alg: Alg,
    /// The identifier of the key that signed the token, if the header names
    /// one.
    pub kid: Option<String>,
}

impl View for TokenHeader {
    type V = TokenHeaderView;

    open spec fn view(&self) -> TokenHeaderView {
        TokenHeaderView { alg: self.alg, kid: text_of(self.kid) }
    }
}

/// The claims of a token, as mathematical values.
pub struct IdInfoView {
    /// Who issued the token.
    pub iss: Seq<char>,
    /// The subject: the identity that the token speaks of.
    pub sub: Seq<char>,
    /// The audience: the application that the token is meant for.
    pub aud: Seq<char>,
    /// When the token was issued, in seconds since the Unix epoch.
    pub iat: u64,
    /// When the token expires, in seconds since the Unix epoch.
    pub exp: u64,
    /// The hosted domain of the identity, if it has one.
    pub hd: Option<Seq<char>>,
    /// The e-mail address of the identity, if the token gives one.
    pub email: Option<Seq<char>>,
    /// Whether the provider has verified the e-mail address.
    pub email_verified: bool,
}

/// The claims of a token.
#[derive(Debug)]
pub struct IdInfo {
    /// Who issued the token.
    pub iss: String,
    /// The subject: the identity that the token speaks of.
    pub sub: String,
    /// The audience: the application that the token is meant for.
    pub aud: String,
    /// When the token was issued, in seconds since the Unix epoch.
    pub iat: u64,
    /// When the token expires, in seconds since the Unix epoch.
    pub exp: u64,
    /// The hosted domain of the identity, if it has one.
    pub hd: Option<String>,
    /// The e-mail address of the identity, if the token gives one.
    pub email: Option<String>,
    /// Whether the provider has verified the e-mail address.
    pub email_verified: bool,
}

impl View for IdInfo {
    type V = IdInfoView;

    open spec fn view(&self) -> IdInfoView {
        IdInfoView {
            iss: self.iss@,
            sub: self.sub@,
            aud: self.aud@,
            iat: self.iat,
            exp: self.exp,
            hd: text_of(self.hd),
            email: text_of(self.email),
            email_verified: self.email_verified,
        }
    }
}

/// The claims that a JSON object states. The issuer, the subject and the
/// audience must be there as strings, the two times as numbers; the hosted
/// domain and the e-mail address may be missing, and the e-mail address
/// counts as verified only where the object says so.
pub open spec fn claims_of(value: serde_json::Value) -> Option<IdInfoView> {
    let strings = text_members(value);
    let numbers = number_members(value);
    let flags = flag_members(value);
    if strings.contains_key("iss"@) && strings.contains_key("sub"@) && strings.contains_key("aud"@)
        && numbers.contains_key("iat"@) && numbers.contains_key("exp"@) {
        Some(
            IdInfoView {
                iss: strings["iss"@],
                sub: strings["sub"@],
                aud: strings["aud"@],
                iat: numbers["iat"@],
                exp: numbers["exp"@],
                hd: if strings.contains_key("hd"@) {
                    Some(strings["hd"@])
                } else {
                    None
                },
                email: if strings.contains_key("email"@) {
                    Some(strings["email"@])
                } else {
                    None
                },
                email_verified: flags.contains_key("email_verified"@) && flags["email_verified"@],
            },
        )
    } else {
        None
    }
}

/// The token is in its time of validity at `now`: it is not used before it
/// was issued, which is when it becomes valid, and it has not expired. The
/// instant of issue and the instant of expiry both belong to that time.
pub open spec fn current(claims: IdInfoView, now: u64) -> bool {
    claims.iat <= now <= claims.exp
}

/// The verifier accepts the claims at `now`: the token is current, its
/// audience is one of the configured ones and, where hosted domains are
/// configured, it has a hosted domain that is one of them.
///
/// The issuer is not looked at: it is left to the caller, who finds it in
/// the claims as `iss`. A verifier is configured with audiences and hosted
/// domains and with no issuer to compare with, and the keys that a token is
/// tried under are the provider's own.
pub open spec fn accepts(config: ClientView, claims: IdInfoView, now: u64) -> bool {
    &&& current(claims, now)
    &&& config.audiences.contains(claims.aud)
    &&& config.hosted_domains.len() > 0 ==> (claims.hd matches Some(domain)
        && config.hosted_domains.contains(domain))
}

impl IdInfo {
    /// Reads the claims out of a JSON object.
    pub fn from_json(value: &serde_json::Value) -> (claims: Option<IdInfo>)
        ensures
            match claims {
                Some(info) => claims_of(*value) == Some(info@),
                None => claims_of(*value) is None,
            },
    {
        let iss = text_member(value, "iss");
        let sub = text_member(value, "sub");
        let aud = text_member(value, "aud");
        let iat = number_member(value, "iat");
        let exp = number_member(value, "exp");
        match (iss, sub, aud, iat, exp) {
            (Some(iss), Some(sub), Some(aud), Some(iat), Some(exp)) => {
                let hd = text_member(value, "hd");
                let email = text_member(value, "email");
                let email_verified = match flag_member(value, "email_verified") {
                    Some(flag) => flag,
                    None => false,
                };
                Some(IdInfo { iss, sub, aud, iat, exp, hd, email, email_verified })
            },
            _ => None,
        }
    }

    /// Checks the claims against a verifier's configuration at `now`: the
    /// time of validity, the audience and, where hosted domains are
    /// configured, the hosted domain. The issuer is left to the caller.
    pub fn verify(&self, client: &Client, now: u64) -> (checked: Result<(), SigninError>)
        ensures
            checked == if accepts(client@, self@, now) {
                Ok::<(), SigninError>(())
            } else {
                Err(SigninError::InvalidToken)
            },
    {
        if now < self.iat || self.exp < now {
            return Err(SigninError::InvalidToken);
        }
        if !holds(&client.audiences, self.aud.as_str()) {
            return Err(SigninError::InvalidToken);
        }
        if client.hosted_domains.len() > 0 {
            match &self.hd {
                Some(domain) => {
                    if !holds(&client.hosted_domains, domain.as_str()) {
                        return Err(SigninError::InvalidToken);
                    }
                },
                None => {
                    return Err(SigninError::InvalidToken);
                },
            }
        }
        Ok(())
    }
}

} // verus!
