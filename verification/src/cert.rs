//! A public signing key as the provider publishes it.

use vstd::prelude::*;

verus! {

/// What a certificate holds, as mathematical strings.
pub struct CertView {
    /// The key identifier.
    pub kid: Seq<char>,
    /// The RSA public exponent, encoded.
    pub e: Seq<char>,
    /// The key type.
    pub kty: Seq<char>,
    /// The algorithm the key is meant for.
    pub alg: Seq<char>,
    /// The RSA modulus, encoded.
    pub n: Seq<char>,
    /// The intended use of the key.
    pub usage: Seq<char>,
}

/// One public key of the provider. A certificate does not change once it is
/// made.
#[derive(Debug)]
pub struct Cert {
    kid: String,
    e: String,
    kty: String,
    alg: String,
    n: String,
    usage: String,
}

impl View for Cert {
    type V = CertView;

    closed spec fn view(&self) -> CertView {
        CertView {
            kid: self.kid@,
            e: self.e@,
            kty: self.kty@,
            alg: self.alg@,
            n: self.n@,
            usage: self.usage@,
        }
    }
}

impl Clone for Cert {
    fn clone(&self) -> (copy: Self)
        ensures
            copy@ == self@,
    {
        Cert {
            kid: self.kid.clone(),
            e: self.e.clone(),
            kty: self.kty.clone(),
            alg: self.alg.clone(),
            n: self.n.clone(),
            usage: self.usage.clone(),
        }
    }
}

impl Cert {
    /// Makes a certificate from its six fields.
    pub fn new(kid: String, e: String, kty: String, alg: String, n: String, usage: String) -> (cert:
        Self)
        ensures
            cert@ == (CertView {
                kid: kid@,
                e: e@,
                kty: kty@,
                alg: alg@,
                n: n@,
                usage: usage@,
            }),
    {
        Cert { kid, e, kty, alg, n, usage }
    }

    /// The key identifier.
    pub fn kid(&self) -> (text: &str)
        ensures
            text@ == self@.kid,
    {
        self.kid.as_str()
    }

    /// The RSA public exponent, encoded.
    pub fn e(&self) -> (text: &str)
        ensures
            text@ == self@.e,
    {
        self.e.as_str()
    }

    /// The key type.
    pub fn kty(&self) -> (text: &str)
        ensures
            text@ == self@.kty,
    {
        self.kty.as_str()
    }

    /// The algorithm the key is meant for.
    pub fn alg(&self) -> (text: &str)
        ensures
            text@ == self@.alg,
    {
        self.alg.as_str()
    }

    /// The RSA modulus, encoded.
    pub fn n(&self) -> (text: &str)
        ensures
            text@ == self@.n,
    {
        self.n.as_str()
    }

    /// The intended use of the key.
    pub fn usage(&self) -> (text: &str)
        ensures
            text@ == self@.usage,
    {
        self.usage.as_str()
    }
}

/// The certificates of a list, each as its view.
pub open spec fn views(certs: Seq<Cert>) -> Seq<CertView> {
    Seq::new(certs.len(), |i: int| certs[i]@)
}

} // verus!
