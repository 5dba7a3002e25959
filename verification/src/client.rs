//! The verifier: the audiences and hosted domains that it accepts, and the
//! verification of a token against the cached keys.

use vstd::prelude::*;
use crate::cache::{candidates, replaced, stale, CacheView, CachedCerts, CERTS_URL};
use crate::cert::{Cert, CertView};
use crate::error::SigninError;
use crate::fetch::{expiry_granted, granted_expiry, outcome, Reply, Step};
use crate::jwt::{
    decode_header, decode_unsigned, header_of, rs256_verified, unsigned_claims, verify_rs256,
};
use crate::keys::{by_kid, ref_views};
use crate::text::{last_index, split_last, text_of, texts};
use crate::token::{accepts, claims_of, current, Alg, IdInfo, IdInfoView};

verus! {

/// The URL of the provider's token information endpoint, up to the token.
pub const TOKENINFO_URL: &'static str = "https://www.googleapis.com/oauth2/v3/tokeninfo?id_token=";

/// What a verifier is configured with, as mathematical strings.
pub struct ClientView {
    /// The audiences that are accepted.
    pub audiences: Seq<Seq<char>>,
    /// The hosted domains that are accepted; empty where none is asked for.
    pub hosted_domains: Seq<Seq<char>>,
}

/// A verifier of ID tokens.
#[derive(Debug)]
pub struct Client {
    /// The audiences that are accepted. A token is accepted only if its
    /// audience is one of them, so with none configured no token passes.
    pub audiences: Vec<String>,
    /// The hosted domains that are accepted. Left empty, the hosted domain
    /// of a token is not looked at.
    pub hosted_domains: Vec<String>,
}

impl View for Client {
    type V = ClientView;

    open spec fn view(&self) -> ClientView {
        ClientView { audiences: texts(self.audiences@), hosted_domains: texts(self.hosted_domains@) }
    }
}

/// The key identifier that the header of a token names, if any: `None`
/// where the header cannot be decoded.
pub open spec fn header_kid(token: Seq<char>) -> Option<Option<Seq<char>>> {
    match header_of(token) {
        Some(header) => Some(header.kid),
        None => None,
    }
}

/// The token is signed under a certificate: its header names RS256 as the
/// algorithm, and what follows its last `.` is a valid RS256 signature of
/// what comes before it, under the certificate's key.
pub open spec fn signed_by(token: Seq<char>, cert: CertView) -> bool {
    &&& header_of(token) matches Some(header)
    &&& header.alg == Alg::RS256
    &&& last_index(token, '.') matches Some(at)
    &&& rs256_verified(token.skip(at + 1), token.take(at), cert.n, cert.e) == Some(true)
}

/// The claims that a token states under a certificate: those of its payload,
/// where the token is signed under the certificate and the payload states
/// the claims that every token must have.
pub open spec fn claims_under(token: Seq<char>, cert: CertView) -> Option<IdInfoView> {
    if signed_by(token, cert) {
        match unsigned_claims(token) {
            Some(payload) => claims_of(payload),
            None => None,
        }
    } else {
        None
    }
}

/// The token passes under a certificate: it states claims under it, and the
/// verifier accepts them at `now`.
pub open spec fn passes(config: ClientView, token: Seq<char>, cert: CertView, now: u64) -> bool {
    claims_under(token, cert) matches Some(claims) && accepts(config, claims, now)
}

/// The claims under the first certificate of the list under which the token
/// passes; `InvalidToken` where it passes under none.
pub open spec fn first_accepted(
    config: ClientView,
    token: Seq<char>,
    list: Seq<CertView>,
    now: u64,
) -> Result<IdInfoView, SigninError>
    decreases list.len(),
{
    if list.len() == 0 {
        Err(SigninError::InvalidToken)
    } else if passes(config, token, list[0], now) {
        Ok(claims_under(token, list[0])->0)
    } else {
        first_accepted(config, token, list.drop_first(), now)
    }
}

/// What the verification of a token comes to at `now` for a given key
/// identifier. A token that names a key which the cache does not hold fails
/// with `UnknownKey`; one that names a cached key is tried under that key
/// alone, and one that names none under every cached key in order.
pub open spec fn verdict_for(
    config: ClientView,
    token: Seq<char>,
    certs: Seq<CertView>,
    hint: Option<Seq<char>>,
    now: u64,
) -> Result<IdInfoView, SigninError> {
    match candidates(certs, hint) {
        Ok(list) => first_accepted(config, token, list, now),
        Err(error) => Err(error),
    }
}

/// What the verification of a token against the cached certificates comes
/// to at `now`. A token whose header cannot be decoded is malformed; any
/// other is verified for the key identifier that its header names.
pub open spec fn verdict(config: ClientView, token: Seq<char>, certs: Seq<CertView>, now: u64) -> Result<
    IdInfoView,
    SigninError,
> {
    match header_kid(token) {
        None => Err(SigninError::MalformedHeader),
        Some(hint) => verdict_for(config, token, certs, hint, now),
    }
}

/// A result with the claims as their view.
pub open spec fn seen(result: Result<IdInfo, SigninError>) -> Result<IdInfoView, SigninError> {
    match result {
        Ok(claims) => Ok(claims@),
        Err(error) => Err(error),
    }
}

/// How one call of `verify_token` takes the cache from `before` to `after`,
/// and the step that it answers with.
///
/// A token with a malformed header is turned down at once. With certificates
/// in the cache, or with none in a cache that is fresh, the token is verified
/// against the cache as it is. With an empty, stale cache and no reply the
/// answer is the request to fetch the certificates. With a reply the cache
/// changes as `replaced` says; after a successful reply the token is verified
/// against the new certificates, after any other the answer is the error
/// that the reply amounts to: `InvalidToken` for a status that is not from
/// 200 to 299, else `ConnectionError`.
pub open spec fn verified(
    config: ClientView,
    token: Seq<char>,
    before: CacheView,
    now: u64,
    reply: Option<Reply<Vec<Cert>>>,
    after: CacheView,
    step: Step<IdInfo>,
) -> bool {
    if header_kid(token) is None {
        after == before && step == Step::<IdInfo>::Done(Err(SigninError::MalformedHeader))
    } else if before.certs.len() > 0 || !stale(before, now) {
        &&& after == before
        &&& step matches Step::Done(result)
        &&& seen(result) == verdict(config, token, before.certs, now)
    } else {
        match reply {
            None => {
                &&& after == before
                &&& step matches Step::Fetch(url)
                &&& url@ == CERTS_URL@
            },
            Some(reply) => {
                &&& replaced(before, now, reply, after)
                &&& step matches Step::Done(result)
                &&& seen(result) == match outcome(reply) {
                    Ok(_) => verdict(config, token, after.certs, now),
                    Err(error) => Err(error),
                }
            },
        }
    }
}

impl Client {
    /// A verifier with no audience and no hosted domain configured.
    pub fn new() -> (client: Self)
        ensures
            client@.audiences == Seq::<Seq<char>>::empty(),
            client@.hosted_domains == Seq::<Seq<char>>::empty(),
    {
        Client { audiences: Vec::new(), hosted_domains: Vec::new() }
    }

    /// Reads the reply to a GET request that was received at `now`: hands out
    /// the decoded body of a successful reply and, where its `Cache-Control`
    /// header grants a lifetime, notes in `cache` when that lifetime ends.
    /// Any other reply is an error, and `cache` is left as it was.
    pub fn get_any<T>(reply: Reply<T>, now: u64, cache: &mut Option<u64>) -> (body: Result<
        T,
        SigninError,
    >)
        ensures
            body == outcome(reply),
            *final(cache) == match (outcome(reply), granted_expiry(reply->cache_control, now)) {
                (Ok(_), Some(expiry)) => Some(expiry),
                _ => *old(cache),
            },
    {
        match reply.into_body() {
            Ok((decoded, cache_control)) => {
                if let Some(expiry) = expiry_granted(&cache_control, now) {
                    *cache = Some(expiry);
                }
                Ok(decoded)
            },
            Err(error) => Err(error),
        }
    }

    /// Tries the token under each certificate of the list in order, and
    /// hands out the claims under the first one under which it passes.
    fn try_candidates(&self, id_token: &str, list: &Vec<&Cert>, now: u64) -> (result: Result<
        IdInfo,
        SigninError,
    >)
        ensures
            seen(result) == first_accepted(self@, id_token@, ref_views(list@), now),
    {
        let ghost all = ref_views(list@);
        proof {
            lemma_first_accepted(self@, id_token@, all, now);
        }
        let named = match decode_header(id_token) {
            Ok(header) => header.alg == Alg::RS256,
            Err(_) => false,
        };
        if !named {
            return Err(SigninError::InvalidToken);
        }
        let (message, signature) = match split_last(id_token, '.') {
            Some(parts) => parts,
            None => {
                return Err(SigninError::InvalidToken);
            },
        };
        let mut next: usize = 0;
        assert(all.skip(0) =~= all);
        while next < list.len()
            invariant
                all == ref_views(list@),
                next <= list.len(),
                header_of(id_token@) matches Some(header) && header.alg == Alg::RS256,
                last_index(id_token@, '.') matches Some(at) && message@ == id_token@.take(at)
                    && signature@ == id_token@.skip(at + 1),
                first_accepted(self@, id_token@, all, now) == first_accepted(
                    self@,
                    id_token@,
                    all.skip(next as int),
                    now,
                ),
            decreases list.len() - next,
        {
            let cert = list[next];
            proof {
                assert(all.skip(next as int).drop_first() =~= all.skip(next + 1));
            }
            if let Ok(true) = verify_rs256(signature, message, cert.n(), cert.e()) {
                if let Ok(payload) = decode_unsigned(id_token) {
                    if let Some(claims) = IdInfo::from_json(&payload) {
                        if claims.verify(self, now).is_ok() {
                            return Ok(claims);
                        }
                    }
                }
            }
            next += 1;
        }
        Err(SigninError::InvalidToken)
    }

    /// Verifies the token at `now` against the certificates that go with
    /// the given key identifier, whatever the token's header names.
    pub fn verify_with(
        &self,
        id_token: &str,
        hint: &Option<String>,
        cached_certs: &CachedCerts,
        now: u64,
    ) -> (result: Result<IdInfo, SigninError>)
        ensures
            seen(result) == verdict_for(self@, id_token@, cached_certs@.certs, text_of(*hint), now),
    {
        match cached_certs.get_range(hint) {
            Ok(list) => self.try_candidates(id_token, &list, now),
            Err(error) => Err(error),
        }
    }

    /// Verifies at `now` that the token is signed with one of the cached keys
    /// of the provider, that it is in its time of validity, and that its
    /// audience and hosted domain are among those configured.
    ///
    /// With no audience configured every token is turned down.
    pub fn verify(&self, id_token: &str, cached_certs: &CachedCerts, now: u64) -> (result: Result<
        IdInfo,
        SigninError,
    >)
        ensures
            seen(result) == verdict(self@, id_token@, cached_certs@.certs, now),
    {
        match decode_header(id_token) {
            Ok(header) => self.verify_with(id_token, &header.kid, cached_certs, now),
            Err(_) => Err(SigninError::MalformedHeader),
        }
    }

    /// Verifies the token at `now`, after fetching the certificates where
    /// the cache holds none.
    ///
    /// The first call is made with no reply. Where it answers with a URL to
    /// fetch, the caller fetches it and calls again with the reply; the
    /// answer is then final. A reply that is no success ends the
    /// verification: a status that is not from 200 to 299 counts against the
    /// token, anything else is a connection error. The caller keeps the
    /// cache to itself from the first call to the last, so that no other
    /// verification sees it in between or fetches the certificates a second
    /// time.
    pub fn verify_token(
        &self,
        id_token: &str,
        certs: &mut CachedCerts,
        now: u64,
        reply: Option<Reply<Vec<Cert>>>,
    ) -> (step: Step<IdInfo>)
        ensures
            verified(self@, id_token@, old(certs)@, now, reply, final(certs)@, step),
    {
        let hint = match decode_header(id_token) {
            Ok(header) => header.kid,
            Err(_) => {
                return Step::Done(Err(SigninError::MalformedHeader));
            },
        };
        if certs.is_empty() && certs.is_stale(now) {
            match reply {
                None => {
                    return Step::Fetch(String::from_str(CachedCerts::certs_url()));
                },
                Some(reply) => {
                    if let Err(error) = certs.load(now, reply) {
                        return Step::Done(Err(error));
                    }
                },
            }
        }
        Step::Done(self.verify_with(id_token, &hint, certs, now))
    }

    /// Reads the claims of a token as the provider's own endpoint reports
    /// them. Nothing is checked here: neither signature nor audience nor
    /// hosted domain. This is the weaker way, for callers who trust the
    /// provider's answer and check the claims themselves.
    ///
    /// The first call, with no reply, answers with the URL to fetch; the
    /// second, with the reply to that request, with the claims of a
    /// successful reply and the error of any other.
    pub fn get_slow_unverified(&self, id_token: &str, reply: Option<Reply<IdInfo>>) -> (step: Step<
        IdInfo,
    >)
        ensures
            match reply {
                None => step matches Step::Fetch(url) && url@ == TOKENINFO_URL@ + id_token@,
                Some(reply) => step == Step::Done(outcome(reply)),
            },
    {
        match reply {
            None => Step::Fetch(String::from_str(TOKENINFO_URL).concat(id_token)),
            Some(reply) => match reply.into_body() {
                Ok((claims, _)) => Step::Done(Ok(claims)),
                Err(error) => Step::Done(Err(error)),
            },
        }
    }
}

/// What `first_accepted` comes to: claims exactly where the token passes
/// under some certificate of the list, and then those under the first such
/// certificate; `InvalidToken` exactly where it passes under none.
pub proof fn lemma_first_accepted(
    config: ClientView,
    token: Seq<char>,
    list: Seq<CertView>,
    now: u64,
)
    ensures
        match first_accepted(config, token, list, now) {
            Ok(claims) => exists|i: int|
                {
                    &&& 0 <= i < list.len()
                    &&& passes(config, token, #[trigger] list[i], now)
                    &&& claims_under(token, list[i]) == Some(claims)
                    &&& forall|j: int| 0 <= j < i ==> !passes(config, token, #[trigger] list[j], now)
                },
            Err(error) => {
                &&& error == SigninError::InvalidToken
                &&& forall|i: int|
                    0 <= i < list.len() ==> !passes(config, token, #[trigger] list[i], now)
            },
        },
    decreases list.len(),
{
    if list.len() > 0 && !passes(config, token, list[0], now) {
        let rest = list.drop_first();
        lemma_first_accepted(config, token, rest, now);
        match first_accepted(config, token, rest, now) {
            Ok(claims) => {
                let i = choose|i: int|
                    {
                        &&& 0 <= i < rest.len()
                        &&& passes(config, token, #[trigger] rest[i], now)
                        &&& claims_under(token, rest[i]) == Some(claims)
                        &&& forall|j: int|
                            0 <= j < i ==> !passes(config, token, #[trigger] rest[j], now)
                    };
                assert(list[i + 1] == rest[i]);
                assert forall|j: int| 0 <= j < i + 1 implies !passes(
                    config,
                    token,
                    #[trigger] list[j],
                    now,
                ) by {
                    if j > 0 {
                        assert(list[j] == rest[j - 1]);
                    }
                }
            },
            Err(_) => {
                assert forall|i: int| 0 <= i < list.len() implies !passes(
                    config,
                    token,
                    #[trigger] list[i],
                    now,
                ) by {
                    if i > 0 {
                        assert(list[i] == rest[i - 1]);
                    }
                }
            },
        }
    }
}

/// A token that names a key which the cache does not hold fails with
/// `UnknownKey`: no other cached key is tried in its place.
pub proof fn lemma_unknown_key(
    config: ClientView,
    token: Seq<char>,
    certs: Seq<CertView>,
    now: u64,
    kid: Seq<char>,
)
    requires
        header_kid(token) == Some(Some(kid)),
        !by_kid(certs).contains_key(kid),
    ensures
        verdict(config, token, certs, now) == Err::<IdInfoView, SigninError>(
            SigninError::UnknownKey,
        ),
{
}

/// A token that names no key is tried under every cached key: it is accepted
/// exactly if it passes under at least one of them, and fails with
/// `InvalidToken` if it passes under none.
pub proof fn lemma_without_hint(
    config: ClientView,
    token: Seq<char>,
    certs: Seq<CertView>,
    now: u64,
)
    requires
        header_kid(token) == Some(None::<Seq<char>>),
    ensures
        verdict(config, token, certs, now) is Ok <==> exists|i: int|
            0 <= i < certs.len() && passes(config, token, #[trigger] certs[i], now),
        verdict(config, token, certs, now) is Err ==> verdict(config, token, certs, now) == Err::<
            IdInfoView,
            SigninError,
        >(SigninError::InvalidToken),
{
    lemma_first_accepted(config, token, certs, now);
}

/// A token whose audience is outside the configured ones fails with
/// `InvalidToken`, though its signature is valid: that is, where under every
/// candidate key under which it states claims the audience is none of the
/// configured ones.
pub proof fn lemma_audience_outside(
    config: ClientView,
    token: Seq<char>,
    certs: Seq<CertView>,
    now: u64,
    hint: Option<Seq<char>>,
    list: Seq<CertView>,
)
    requires
        header_kid(token) == Some(hint),
        candidates(certs, hint) == Ok::<Seq<CertView>, SigninError>(list),
        forall|i: int|
            0 <= i < list.len() ==> (claims_under(token, #[trigger] list[i]) matches Some(claims)
                ==> !config.audiences.contains(claims.aud)),
    ensures
        verdict(config, token, certs, now) == Err::<IdInfoView, SigninError>(
            SigninError::InvalidToken,
        ),
{
    lemma_first_accepted(config, token, list, now);
}

/// The hosted domain counts only where hosted domains are configured. A
/// token that under some candidate key states claims which are current and
/// of a configured audience is accepted by a verifier without hosted
/// domains. A verifier with the same audiences and with hosted domains of
/// which the token's is none turns the same token down with `InvalidToken`.
pub proof fn lemma_hosted_domain(
    open: ClientView,
    restricted: ClientView,
    token: Seq<char>,
    certs: Seq<CertView>,
    now: u64,
    hint: Option<Seq<char>>,
    list: Seq<CertView>,
)
    requires
        open.hosted_domains.len() == 0,
        restricted.hosted_domains.len() > 0,
        open.audiences == restricted.audiences,
        header_kid(token) == Some(hint),
        candidates(certs, hint) == Ok::<Seq<CertView>, SigninError>(list),
        exists|i: int|
            0 <= i < list.len() && (claims_under(token, #[trigger] list[i]) matches Some(claims)
                && current(claims, now) && open.audiences.contains(claims.aud)),
        forall|i: int|
            0 <= i < list.len() ==> (claims_under(token, #[trigger] list[i]) matches Some(claims)
                ==> !(claims.hd matches Some(domain) && restricted.hosted_domains.contains(
                domain,
            ))),
    ensures
        verdict(open, token, certs, now) is Ok,
        verdict(restricted, token, certs, now) == Err::<IdInfoView, SigninError>(
            SigninError::InvalidToken,
        ),
{
    lemma_first_accepted(open, token, list, now);
    lemma_first_accepted(restricted, token, list, now);
}

} // verus!
