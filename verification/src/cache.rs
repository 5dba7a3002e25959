//! The certificate cache: the provider's keys as last fetched, and the
//! instant up to which they count as fresh.

use vstd::prelude::*;
use crate::cert::{views, Cert, CertView};
use crate::client::Client;
use crate::error::SigninError;
use crate::fetch::{granted_expiry, outcome, Reply, Step};
use crate::keys::{ascending, by_kid, ref_views, KeyStore};
use crate::text::text_of;

verus! {

/// The URL under which the provider publishes its certificates.
pub const CERTS_URL: &'static str = "https://www.googleapis.com/oauth2/v2/certs";

/// What the cache holds, as mathematical values.
pub struct CacheView {
    /// The certificates, in ascending order of their key identifiers.
    pub certs: Seq<CertView>,
    /// The instant from which the certificates are stale, in seconds on the
    /// caller's clock; `None` where they are stale at any time.
    pub expiry: Option<u64>,
}

/// The cached certificates of the provider.
#[derive(Debug)]
pub struct CachedCerts {
    keys: KeyStore,
    expiry: Option<u64>,
}

impl View for CachedCerts {
    type V = CacheView;

    closed spec fn view(&self) -> CacheView {
        CacheView { certs: self.keys@, expiry: self.expiry }
    }
}

impl Clone for CachedCerts {
    fn clone(&self) -> (copy: Self)
        ensures
            copy@ == self@,
    {
        CachedCerts { keys: self.keys.clone(), expiry: self.expiry }
    }
}

/// The cache is stale at `now`: it has no expiry, or the expiry is reached.
pub open spec fn stale(cache: CacheView, now: u64) -> bool {
    match cache.expiry {
        Some(expiry) => expiry <= now,
        None => true,
    }
}

/// The certificates to try for a token: with a key identifier the one
/// certificate that has it, and an error where none has; without one, all of
/// them in order.
pub open spec fn candidates(certs: Seq<CertView>, kid: Option<Seq<char>>) -> Result<
    Seq<CertView>,
    SigninError,
> {
    match kid {
        Some(kid) => if by_kid(certs).contains_key(kid) {
            Ok(seq![by_kid(certs)[kid]])
        } else {
            Err(SigninError::UnknownKey)
        },
        None => Ok(certs),
    }
}

/// What the reply to a request for the certificates, received at `now`, does
/// to the cache. A successful reply replaces certificates and expiry
/// together: the cache then holds the certificates of the reply, of several
/// with the same key identifier the last, and the expiry that the reply
/// grants. Any other reply leaves the cache as it was.
pub open spec fn replaced(
    before: CacheView,
    now: u64,
    reply: Reply<Vec<Cert>>,
    after: CacheView,
) -> bool {
    match outcome(reply) {
        Ok(certs) => {
            &&& ascending(after.certs)
            &&& by_kid(after.certs) == by_kid(views(certs@))
            &&& after.expiry == granted_expiry(reply->cache_control, now)
        },
        Err(_) => after == before,
    }
}

/// How one call of `refresh_if_needed` takes the cache from `before` to
/// `after`, and the step that it answers with.
///
/// A fresh cache stays as it is, and the answer is `false`. A stale cache
/// without a reply stays as it is, and the answer is the request to fetch the
/// certificates. A stale cache with a reply changes as `replaced` says, and
/// the answer is `true` for a successful reply and a connection error for any
/// other.
pub open spec fn refreshed(
    before: CacheView,
    now: u64,
    reply: Option<Reply<Vec<Cert>>>,
    after: CacheView,
    step: Step<bool>,
) -> bool {
    if !stale(before, now) {
        after == before && step == Step::Done(Ok::<bool, SigninError>(false))
    } else {
        match reply {
            None => {
                &&& after == before
                &&& step matches Step::Fetch(url)
                &&& url@ == CERTS_URL@
            },
            Some(reply) => {
                &&& replaced(before, now, reply, after)
                &&& step == Step::Done(
                    if outcome(reply) is Ok {
                        Ok::<bool, SigninError>(true)
                    } else {
                        Err(SigninError::ConnectionError)
                    },
                )
            },
        }
    }
}

impl CachedCerts {
    /// An empty cache, stale at any time.
    pub fn new() -> (cache: Self)
        ensures
            cache@.certs == Seq::<CertView>::empty(),
            cache@.expiry is None,
    {
        CachedCerts { keys: KeyStore::new(), expiry: None }
    }

    /// The URL under which the provider publishes its certificates.
    pub fn certs_url() -> (url: &'static str)
        ensures
            url@ == CERTS_URL@,
    {
        CERTS_URL
    }

    /// The instant from which the cache is stale, if it has one.
    pub fn expiry(&self) -> (expiry: Option<u64>)
        ensures
            expiry == self@.expiry,
    {
        self.expiry
    }

    /// Sets the instant from which the cache is stale; `None` makes it stale
    /// at once.
    pub fn set_expiry(&mut self, expiry: Option<u64>)
        ensures
            final(self)@.certs == old(self)@.certs,
            final(self)@.expiry == expiry,
    {
        self.expiry = expiry;
    }

    /// The number of cached certificates.
    pub fn len(&self) -> (count: usize)
        ensures
            count == self@.certs.len(),
    {
        self.keys.len()
    }

    /// Whether the cache holds no certificate.
    pub fn is_empty(&self) -> (empty: bool)
        ensures
            empty == (self@.certs.len() == 0),
    {
        self.keys.is_empty()
    }

    /// Whether the cache is stale at `now`.
    pub fn is_stale(&self, now: u64) -> (due: bool)
        ensures
            due == stale(self@, now),
    {
        match self.expiry {
            Some(expiry) => expiry <= now,
            None => true,
        }
    }

    /// The certificates to try for a token with the given key identifier.
    pub fn get_range(&self, kid: &Option<String>) -> (range: Result<Vec<&Cert>, SigninError>)
        ensures
            ascending(self@.certs),
            match range {
                Ok(list) => candidates(self@.certs, text_of(*kid)) == Ok::<
                    Seq<CertView>,
                    SigninError,
                >(ref_views(list@)),
                Err(error) => candidates(self@.certs, text_of(*kid)) == Err::<
                    Seq<CertView>,
                    SigninError,
                >(error),
            },
    {
        match kid {
            None => Ok(self.keys.all()),
            Some(kid) => match self.keys.get(kid.as_str()) {
                Some(cert) => {
                    let mut list: Vec<&Cert> = Vec::new();
                    list.push(cert);
                    assert(ref_views(list@) =~= seq![cert@]);
                    Ok(list)
                },
                None => Err(SigninError::UnknownKey),
            },
        }
    }

    /// Takes in the reply to a request for the certificates that was received
    /// at `now`. A successful reply replaces certificates and expiry
    /// together; any other leaves the cache as it was and is reported as the
    /// error that it amounts to.
    pub fn load(&mut self, now: u64, reply: Reply<Vec<Cert>>) -> (loaded: Result<(), SigninError>)
        ensures
            replaced(old(self)@, now, reply, final(self)@),
            match loaded {
                Ok(_) => outcome(reply) is Ok,
                Err(error) => outcome(reply) == Err::<Vec<Cert>, SigninError>(error),
            },
    {
        let mut expiry: Option<u64> = None;
        match Client::get_any(reply, now, &mut expiry) {
            Ok(certs) => {
                self.keys = KeyStore::from_certs(certs);
                self.expiry = expiry;
                Ok(())
            },
            Err(error) => Err(error),
        }
    }

    /// Brings the cache up to date at `now`.
    ///
    /// A fresh cache is left alone and the answer is `Done(Ok(false))`,
    /// whatever `reply` is. For a stale cache the first call, with no reply,
    /// answers with the URL to fetch. The second call, with the reply to that
    /// request, replaces certificates and expiry together and answers
    /// `Done(Ok(true))`; or, where the request failed, the status was not
    /// from 200 to 299 or the body could not be decoded, leaves the cache as
    /// it was and answers `Done(Err(ConnectionError))`.
    pub fn refresh_if_needed(&mut self, now: u64, reply: Option<Reply<Vec<Cert>>>) -> (step: Step<
        bool,
    >)
        ensures
            refreshed(old(self)@, now, reply, final(self)@, step),
    {
        if !self.is_stale(now) {
            return Step::Done(Ok(false));
        }
        match reply {
            None => Step::Fetch(String::from_str(Self::certs_url())),
            Some(reply) => match self.load(now, reply) {
                Ok(_) => Step::Done(Ok(true)),
                Err(_) => Step::Done(Err(SigninError::ConnectionError)),
            },
        }
    }
}

/// A new cache is stale at any time, so its first refresh with a successful
/// reply answers `true`. Where that reply granted a lifetime, a refresh
/// before the expiry answers `false` and leaves the cache alone, whatever
/// reply it is given.
pub proof fn lemma_refresh_then_fresh(
    now: u64,
    reply: Reply<Vec<Cert>>,
    after: CacheView,
    step: Step<bool>,
    soon: u64,
    again: Option<Reply<Vec<Cert>>>,
    last: CacheView,
    second: Step<bool>,
)
    requires
        outcome(reply) is Ok,
        refreshed(
            CacheView { certs: Seq::<CertView>::empty(), expiry: None },
            now,
            Some(reply),
            after,
            step,
        ),
        after.expiry matches Some(expiry) && soon < expiry,
        refreshed(after, soon, again, last, second),
    ensures
        step == Step::Done(Ok::<bool, SigninError>(true)),
        second == Step::Done(Ok::<bool, SigninError>(false)),
        last == after,
{
}

/// Once the expiry is reached, or where none is set, a refresh with a
/// successful reply answers `true` again.
pub proof fn lemma_refresh_after_expiry(
    before: CacheView,
    now: u64,
    reply: Reply<Vec<Cert>>,
    after: CacheView,
    step: Step<bool>,
)
    requires
        before.expiry matches Some(expiry) ==> expiry <= now,
        outcome(reply) is Ok,
        refreshed(before, now, Some(reply), after, step),
    ensures
        step == Step::Done(Ok::<bool, SigninError>(true)),
{
}

/// A reply that is not a success leaves certificates and expiry as they
/// were, and the refresh answers with a connection error.
pub proof fn lemma_failed_refresh(
    before: CacheView,
    now: u64,
    reply: Reply<Vec<Cert>>,
    after: CacheView,
    step: Step<bool>,
)
    requires
        stale(before, now),
        outcome(reply) is Err,
        refreshed(before, now, Some(reply), after, step),
    ensures
        after == before,
        step == Step::<bool>::Done(Err(SigninError::ConnectionError)),
{
}

} // verus!
