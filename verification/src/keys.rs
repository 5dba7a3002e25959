//! The key store: certificates kept in ascending order of their key
//! identifiers, one per identifier.

use vstd::prelude::*;
use crate::cert::{views, Cert, CertView};
use crate::text::{lemma_precedes_irreflexive, lemma_precedes_transitive, place, precedes, Place};

verus! {

/// The key identifiers of the list ascend strictly, so none occurs twice.
pub open spec fn ascending(certs: Seq<CertView>) -> bool {
    forall|i: int, j: int|
        #![trigger certs[i], certs[j]]
        0 <= i < j < certs.len() ==> precedes(certs[i].kid, certs[j].kid)
}

/// The certificates of a list by key identifier; where several have the same
/// identifier, the one that stands last in the list.
pub open spec fn by_kid(certs: Seq<CertView>) -> Map<Seq<char>, CertView>
    decreases certs.len(),
{
    if certs.len() == 0 {
        Map::empty()
    } else {
        by_kid(certs.drop_last()).insert(certs.last().kid, certs.last())
    }
}

/// The certificates of a list of references, each as its view.
pub open spec fn ref_views(certs: Seq<&Cert>) -> Seq<CertView> {
    Seq::new(certs.len(), |i: int| certs[i]@)
}

/// An identifier is a key of `by_kid` exactly if some certificate of the list
/// has it.
pub proof fn lemma_by_kid_contains(certs: Seq<CertView>, kid: Seq<char>)
    ensures
        by_kid(certs).contains_key(kid) <==> exists|i: int|
            0 <= i < certs.len() && (#[trigger] certs[i]).kid == kid,
    decreases certs.len(),
{
    if certs.len() > 0 {
        let front = certs.drop_last();
        lemma_by_kid_contains(front, kid);
        if by_kid(certs).contains_key(kid) {
            if certs.last().kid == kid {
                assert(certs[certs.len() - 1].kid == kid);
            } else {
                let i = choose|i: int| 0 <= i < front.len() && (#[trigger] front[i]).kid == kid;
                assert(certs[i].kid == kid);
            }
        }
        if exists|i: int| 0 <= i < certs.len() && (#[trigger] certs[i]).kid == kid {
            let i = choose|i: int| 0 <= i < certs.len() && (#[trigger] certs[i]).kid == kid;
            if i < certs.len() - 1 {
                assert(front[i].kid == kid);
            }
        }
    }
}

/// Last one wins: the certificate that `by_kid` holds under an identifier is
/// the last one of the list with that identifier.
pub proof fn lemma_by_kid_last(certs: Seq<CertView>, at: int)
    requires
        0 <= at < certs.len(),
        forall|later: int| at < later < certs.len() ==> (#[trigger] certs[later]).kid != certs[at].kid,
    ensures
        by_kid(certs).contains_key(certs[at].kid),
        by_kid(certs)[certs[at].kid] == certs[at],
    decreases certs.len(),
{
    if at < certs.len() - 1 {
        let front = certs.drop_last();
        assert(certs[certs.len() - 1].kid != certs[at].kid);
        assert forall|later: int| at < later < front.len() implies (#[trigger] front[later]).kid
            != front[at].kid by {
            assert(certs[later].kid != certs[at].kid);
        }
        lemma_by_kid_last(front, at);
    }
}

/// In an ascending list every certificate is the one that `by_kid` holds
/// under its identifier.
pub proof fn lemma_by_kid_ascending(certs: Seq<CertView>, at: int)
    requires
        ascending(certs),
        0 <= at < certs.len(),
    ensures
        by_kid(certs).contains_key(certs[at].kid),
        by_kid(certs)[certs[at].kid] == certs[at],
{
    assert forall|later: int| at < later < certs.len() implies (#[trigger] certs[later]).kid
        != certs[at].kid by {
        assert(precedes(certs[at].kid, certs[later].kid));
        lemma_precedes_irreflexive(certs[at].kid);
    }
    lemma_by_kid_last(certs, at);
}

/// Two ascending lists that hold the same certificates by identifier are the
/// same list.
pub proof fn lemma_ascending_unique(a: Seq<CertView>, b: Seq<CertView>)
    requires
        ascending(a),
        ascending(b),
        by_kid(a) == by_kid(b),
    ensures
        a == b,
    decreases a.len(),
{
    if a.len() == 0 {
        if b.len() > 0 {
            lemma_by_kid_ascending(b, 0);
            assert(by_kid(a).contains_key(b[0].kid));
        }
        assert(a =~= b);
    } else if b.len() == 0 {
        lemma_by_kid_ascending(a, 0);
        assert(by_kid(b).contains_key(a[0].kid));
    } else {
        // The last certificate of each list has the greatest identifier of
        // the common map, so the two are the same.
        let la = a.len() - 1;
        let lb = b.len() - 1;
        lemma_by_kid_ascending(a, la);
        lemma_by_kid_ascending(b, lb);
        lemma_by_kid_contains(b, a[la].kid);
        lemma_by_kid_contains(a, b[lb].kid);
        let ib = choose|i: int| 0 <= i < b.len() && (#[trigger] b[i]).kid == a[la].kid;
        let ia = choose|i: int| 0 <= i < a.len() && (#[trigger] a[i]).kid == b[lb].kid;
        if ib < lb {
            assert(precedes(b[ib].kid, b[lb].kid));
            if ia < la {
                assert(precedes(a[ia].kid, a[la].kid));
                lemma_precedes_transitive(a[la].kid, b[lb].kid, a[la].kid);
            }
            lemma_precedes_irreflexive(a[la].kid);
        }
        assert(a[la].kid == b[lb].kid);
        assert(a[la] == b[lb]);
        lemma_drop_last_by_kid(a);
        lemma_drop_last_by_kid(b);
        lemma_ascending_unique(a.drop_last(), b.drop_last());
        assert(a =~= a.drop_last().push(a[la]));
        assert(b =~= b.drop_last().push(b[lb]));
    }
}

/// Last one wins, and only one is kept: where an ascending list holds by
/// identifier what a given list holds, it has the last certificate of the
/// given list with some identifier at exactly one index, and no other
/// certificate with that identifier.
pub proof fn lemma_last_one_kept(given: Seq<CertView>, stored: Seq<CertView>, last: int)
    requires
        ascending(stored),
        by_kid(stored) == by_kid(given),
        0 <= last < given.len(),
        forall|later: int| last < later < given.len() ==> (#[trigger] given[later]).kid != given[last].kid,
    ensures
        exists|at: int|
            {
                &&& 0 <= at < stored.len()
                &&& #[trigger] stored[at] == given[last]
                &&& forall|other: int|
                    0 <= other < stored.len() && (#[trigger] stored[other]).kid == given[last].kid
                        ==> other == at
            },
{
    lemma_by_kid_last(given, last);
    lemma_by_kid_contains(stored, given[last].kid);
    let at = choose|at: int| 0 <= at < stored.len() && (#[trigger] stored[at]).kid == given[last].kid;
    lemma_by_kid_ascending(stored, at);
    assert forall|other: int|
        0 <= other < stored.len() && (#[trigger] stored[other]).kid == given[last].kid implies other
        == at by {
        lemma_precedes_irreflexive(given[last].kid);
        if other < at {
            assert(precedes(stored[other].kid, stored[at].kid));
        } else if at < other {
            assert(precedes(stored[at].kid, stored[other].kid));
        }
    }
    assert(stored[at] == given[last]);
}

/// Two certificates with the same identifier leave one entry: the second.
pub proof fn lemma_same_kid_twice(first: CertView, second: CertView, stored: Seq<CertView>)
    requires
        first.kid == second.kid,
        ascending(stored),
        by_kid(stored) == by_kid(seq![first, second]),
    ensures
        stored == seq![second],
{
    let given = seq![first, second];
    let one = seq![second];
    reveal_with_fuel(by_kid, 3);
    assert(by_kid(given) =~= by_kid(one));
    lemma_ascending_unique(stored, one);
}

/// Without its last certificate an ascending list is ascending, and holds
/// what it held but for that certificate's identifier.
proof fn lemma_drop_last_by_kid(certs: Seq<CertView>)
    requires
        ascending(certs),
        certs.len() > 0,
    ensures
        ascending(certs.drop_last()),
        by_kid(certs.drop_last()) == by_kid(certs).remove(certs.last().kid),
{
    let front = certs.drop_last();
    assert forall|i: int, j: int| 0 <= i < j < front.len() implies precedes(
        (#[trigger] front[i]).kid,
        (#[trigger] front[j]).kid,
    ) by {
        assert(precedes(certs[i].kid, certs[j].kid));
    }
    lemma_by_kid_contains(front, certs.last().kid);
    if by_kid(front).contains_key(certs.last().kid) {
        let i = choose|i: int| 0 <= i < front.len() && (#[trigger] front[i]).kid == certs.last().kid;
        assert(precedes(certs[i].kid, certs[certs.len() - 1].kid));
        lemma_precedes_irreflexive(certs.last().kid);
    }
    assert(by_kid(front) =~= by_kid(certs).remove(certs.last().kid));
}

/// Puts a certificate where an ascending list had one with the same
/// identifier: the list stays ascending and holds the new one in its place.
proof fn lemma_replace(certs: Seq<CertView>, at: int, cert: CertView)
    requires
        ascending(certs),
        0 <= at < certs.len(),
        certs[at].kid == cert.kid,
    ensures
        ascending(certs.update(at, cert)),
        by_kid(certs.update(at, cert)) == by_kid(certs).insert(cert.kid, cert),
{
    let after = certs.update(at, cert);
    assert forall|i: int, j: int| 0 <= i < j < after.len() implies precedes(
        (#[trigger] after[i]).kid,
        (#[trigger] after[j]).kid,
    ) by {
        assert(precedes(certs[i].kid, certs[j].kid));
    }
    assert forall|kid: Seq<char>|
        by_kid(after).contains_key(kid) <==> by_kid(certs).insert(cert.kid, cert).contains_key(
            kid,
        ) by {
        lemma_by_kid_contains(after, kid);
        lemma_by_kid_contains(certs, kid);
        if by_kid(after).contains_key(kid) {
            let i = choose|i: int| 0 <= i < after.len() && (#[trigger] after[i]).kid == kid;
            assert(certs[i].kid == kid);
        }
        if by_kid(certs).contains_key(kid) {
            let i = choose|i: int| 0 <= i < certs.len() && (#[trigger] certs[i]).kid == kid;
            assert(after[i].kid == kid);
        }
        assert(after[at].kid == cert.kid);
    }
    assert forall|kid: Seq<char>| by_kid(after).contains_key(kid) implies by_kid(after)[kid]
        == by_kid(certs).insert(cert.kid, cert)[kid] by {
        lemma_by_kid_contains(after, kid);
        let i = choose|i: int| 0 <= i < after.len() && (#[trigger] after[i]).kid == kid;
        lemma_by_kid_ascending(after, i);
        if kid != cert.kid {
            assert(i != at);
            lemma_by_kid_ascending(certs, i);
        } else {
            lemma_by_kid_ascending(after, at);
        }
    }
    assert(by_kid(after) =~= by_kid(certs).insert(cert.kid, cert));
}

/// Puts a certificate into an ascending list at the place where its
/// identifier belongs: the list stays ascending and holds one more.
proof fn lemma_insert(certs: Seq<CertView>, at: int, cert: CertView)
    requires
        ascending(certs),
        0 <= at <= certs.len(),
        forall|i: int| 0 <= i < at ==> precedes((#[trigger] certs[i]).kid, cert.kid),
        forall|i: int| at <= i < certs.len() ==> precedes(cert.kid, (#[trigger] certs[i]).kid),
    ensures
        ascending(certs.insert(at, cert)),
        by_kid(certs.insert(at, cert)) == by_kid(certs).insert(cert.kid, cert),
{
    let after = certs.insert(at, cert);
    assert forall|i: int, j: int| 0 <= i < j < after.len() implies precedes(
        (#[trigger] after[i]).kid,
        (#[trigger] after[j]).kid,
    ) by {
        if j < at {
            assert(precedes(certs[i].kid, certs[j].kid));
        } else if j == at {
            assert(precedes(certs[i].kid, cert.kid));
        } else if i < at {
            assert(precedes(certs[i].kid, cert.kid));
            assert(precedes(cert.kid, certs[j - 1].kid));
            lemma_precedes_transitive(certs[i].kid, cert.kid, certs[j - 1].kid);
        } else if i == at {
            assert(precedes(cert.kid, certs[j - 1].kid));
        } else {
            assert(precedes(certs[i - 1].kid, certs[j - 1].kid));
        }
    }
    assert forall|kid: Seq<char>|
        by_kid(after).contains_key(kid) <==> by_kid(certs).insert(cert.kid, cert).contains_key(
            kid,
        ) by {
        lemma_by_kid_contains(after, kid);
        lemma_by_kid_contains(certs, kid);
        if by_kid(after).contains_key(kid) && kid != cert.kid {
            let i = choose|i: int| 0 <= i < after.len() && (#[trigger] after[i]).kid == kid;
            if i < at {
                assert(certs[i].kid == kid);
            } else {
                assert(certs[i - 1].kid == kid);
            }
        }
        if by_kid(certs).contains_key(kid) {
            let i = choose|i: int| 0 <= i < certs.len() && (#[trigger] certs[i]).kid == kid;
            if i < at {
                assert(after[i].kid == kid);
            } else {
                assert(after[i + 1].kid == kid);
            }
        }
        assert(after[at].kid == cert.kid);
    }
    assert forall|kid: Seq<char>| by_kid(after).contains_key(kid) implies by_kid(after)[kid]
        == by_kid(certs).insert(cert.kid, cert)[kid] by {
        lemma_by_kid_contains(after, kid);
        let i = choose|i: int| 0 <= i < after.len() && (#[trigger] after[i]).kid == kid;
        lemma_by_kid_ascending(after, i);
        lemma_by_kid_ascending(after, at);
        if kid != cert.kid {
            if i < at {
                lemma_by_kid_ascending(certs, i);
            } else {
                lemma_by_kid_ascending(certs, i - 1);
            }
        }
    }
    assert(by_kid(after) =~= by_kid(certs).insert(cert.kid, cert));
}

/// Where an identifier stands in an ascending list: whether a certificate has
/// it, and the index of that certificate or, without one, the index at which
/// one would be put.
fn locate(list: &Vec<Cert>, kid: &str) -> (spot: (bool, usize))
    requires
        ascending(views(list@)),
    ensures
        spot.1 <= list.len(),
        forall|i: int| 0 <= i < spot.1 ==> precedes((#[trigger] list@[i])@.kid, kid@),
        spot.0 ==> spot.1 < list.len() && list@[spot.1 as int]@.kid == kid@,
        !spot.0 ==> forall|i: int|
            spot.1 <= i < list.len() ==> precedes(kid@, (#[trigger] list@[i])@.kid),
{
    let ghost certs = views(list@);
    let mut low: usize = 0;
    let mut high: usize = list.len();
    while low < high
        invariant
            certs == views(list@),
            ascending(certs),
            low <= high <= list.len(),
            forall|i: int| 0 <= i < low ==> precedes((#[trigger] list@[i])@.kid, kid@),
            forall|i: int| high <= i < list.len() ==> precedes(kid@, (#[trigger] list@[i])@.kid),
        decreases high - low,
    {
        let middle: usize = low + (high - low) / 2;
        let at = place(list[middle].kid(), kid);
        proof {
            assert(certs[middle as int] == list@[middle as int]@);
        }
        match at {
            Place::Before => {
                proof {
                    assert forall|i: int| 0 <= i < middle + 1 implies precedes(
                        (#[trigger] list@[i])@.kid,
                        kid@,
                    ) by {
                        if i < middle {
                            assert(precedes(certs[i].kid, certs[middle as int].kid));
                            lemma_precedes_transitive(certs[i].kid, certs[middle as int].kid, kid@);
                        }
                    }
                }
                low = middle + 1;
            },
            Place::Same => {
                proof {
                    assert forall|i: int| 0 <= i < middle implies precedes(
                        (#[trigger] list@[i])@.kid,
                        kid@,
                    ) by {
                        assert(precedes(certs[i].kid, certs[middle as int].kid));
                    }
                }
                return (true, middle);
            },
            Place::After => {
                proof {
                    assert forall|i: int| middle <= i < list.len() implies precedes(
                        kid@,
                        (#[trigger] list@[i])@.kid,
                    ) by {
                        if middle < i {
                            assert(precedes(certs[middle as int].kid, certs[i].kid));
                            lemma_precedes_transitive(kid@, certs[middle as int].kid, certs[i].kid);
                        }
                    }
                }
                high = middle;
            },
        }
    }
    (false, low)
}

/// Puts a certificate into an ascending list, in place of the one with the
/// same identifier if there is one.
fn put(list: &mut Vec<Cert>, cert: Cert)
    requires
        ascending(views(old(list)@)),
    ensures
        ascending(views(final(list)@)),
        by_kid(views(final(list)@)) == by_kid(views(old(list)@)).insert(cert@.kid, cert@),
{
    let ghost before = views(list@);
    let spot = locate(list, cert.kid());
    proof {
        assert forall|i: int| 0 <= i < before.len() implies (#[trigger] before[i]) == list@[i]@ by {}
    }
    if spot.0 {
        proof {
            lemma_replace(before, spot.1 as int, cert@);
        }
        list.set(spot.1, cert);
        assert(views(list@) =~= before.update(spot.1 as int, cert@));
    } else {
        proof {
            lemma_insert(before, spot.1 as int, cert@);
        }
        list.insert(spot.1, cert);
        assert(views(list@) =~= before.insert(spot.1 as int, cert@));
    }
}

/// The provider's keys: one certificate per key identifier, kept in
/// ascending order of the identifiers. Its view is the list in that order.
#[derive(Debug)]
pub struct KeyStore {
    certs: Vec<Cert>,
}

impl View for KeyStore {
    type V = Seq<CertView>;

    closed spec fn view(&self) -> Seq<CertView> {
        views(self.certs@)
    }
}

impl Clone for KeyStore {
    fn clone(&self) -> (copy: Self)
        ensures
            copy@ == self@,
    {
        proof {
            use_type_invariant(self);
        }
        let mut certs: Vec<Cert> = Vec::new();
        let mut next: usize = 0;
        while next < self.certs.len()
            invariant
                next <= self.certs.len(),
                certs.len() == next,
                forall|i: int| 0 <= i < next ==> (#[trigger] certs@[i])@ == self.certs@[i]@,
            decreases self.certs.len() - next,
        {
            certs.push(self.certs[next].clone());
            next += 1;
        }
        assert(views(certs@) =~= views(self.certs@));
        KeyStore { certs }
    }
}

impl KeyStore {
    #[verifier::type_invariant]
    spec fn ordered(self) -> bool {
        ascending(views(self.certs@))
    }

    /// A store without keys.
    pub fn new() -> (store: Self)
        ensures
            store@ == Seq::<CertView>::empty(),
    {
        KeyStore { certs: Vec::new() }
    }

    /// The store that holds the given certificates. Of several with the same
    /// identifier the last one is kept.
    pub fn from_certs(certs: Vec<Cert>) -> (store: Self)
        ensures
            ascending(store@),
            by_kid(store@) == by_kid(views(certs@)),
    {
        let ghost given = views(certs@);
        let mut list: Vec<Cert> = Vec::new();
        for cert in it: certs
            invariant
                given.len() == it.seq().len(),
                forall|i: int| 0 <= i < given.len() ==> given[i] == (#[trigger] it.seq()[i])@,
                ascending(views(list@)),
                by_kid(views(list@)) == by_kid(given.take(it.index() as int)),
        {
            proof {
                let done = it.index() as int;
                assert(given.take(done + 1).drop_last() =~= given.take(done));
            }
            put(&mut list, cert);
        }
        assert(given.take(given.len() as int) =~= given);
        KeyStore { certs: list }
    }

    /// The number of keys.
    pub fn len(&self) -> (count: usize)
        ensures
            count == self@.len(),
    {
        self.certs.len()
    }

    /// Whether the store holds no key.
    pub fn is_empty(&self) -> (empty: bool)
        ensures
            empty == (self@.len() == 0),
    {
        self.certs.len() == 0
    }

    /// The certificate with the given identifier, if the store holds one.
    pub fn get(&self, kid: &str) -> (found: Option<&Cert>)
        ensures
            ascending(self@),
            match found {
                Some(cert) => by_kid(self@).contains_key(kid@) && by_kid(self@)[kid@] == cert@,
                None => !by_kid(self@).contains_key(kid@),
            },
    {
        proof {
            use_type_invariant(self);
        }
        let spot = locate(&self.certs, kid);
        proof {
            lemma_by_kid_contains(self@, kid@);
            if spot.0 {
                lemma_by_kid_ascending(self@, spot.1 as int);
            } else if by_kid(self@).contains_key(kid@) {
                let i = choose|i: int| 0 <= i < self@.len() && (#[trigger] self@[i]).kid == kid@;
                assert(self@[i] == self.certs@[i]@);
                lemma_precedes_irreflexive(kid@);
            }
        }
        if spot.0 {
            Some(&self.certs[spot.1])
        } else {
            None
        }
    }

    /// Whether the store holds a certificate with the given identifier.
    pub fn contains_key(&self, kid: &str) -> (held: bool)
        ensures
            held == by_kid(self@).contains_key(kid@),
    {
        self.get(kid).is_some()
    }

    /// All certificates, in ascending order of their identifiers.
    pub fn all(&self) -> (list: Vec<&Cert>)
        ensures
            ascending(self@),
            ref_views(list@) == self@,
    {
        proof {
            use_type_invariant(self);
        }
        let mut list: Vec<&Cert> = Vec::new();
        let mut next: usize = 0;
        while next < self.certs.len()
            invariant
                next <= self.certs.len(),
                list.len() == next,
                forall|i: int| 0 <= i < next ==> (#[trigger] list@[i])@ == self.certs@[i]@,
            decreases self.certs.len() - next,
        {
            list.push(&self.certs[next]);
            next += 1;
        }
        list
    }
}

} // verus!
