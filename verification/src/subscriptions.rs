//! Stream subscription management.
//!
//! A subscription is identified by the canonical serialization of its
//! variant and parameters; the registry keeps at most one live
//! registration per canonical key.  Registration is recorded only
//! after the exchange session has confirmed the subscribe call, so a
//! failed session call leaves the registry untouched: the caller asks
//! `is_active` first, performs the session call only for a new key,
//! and then records the confirmed id.  `list` hands the reconnection
//! supervisor everything it must replay after a fresh session.

use vstd::prelude::*;
use vstd::string::StringExecFns;

verus! {

/// A stream subscription request, tagged by feed kind.
#[derive(Debug)]
pub enum Subscription {
    AllMids,
    Trades { coin: String },
    Candle { coin: String, interval: String },
    L2Book { coin: String },
    UserFills { user: String },
}

impl Clone for Subscription {
    fn clone(&self) -> (res: Self)
        ensures
            res == *self,
    {
        match self {
            Subscription::AllMids => Subscription::AllMids,
            Subscription::Trades { coin } => Subscription::Trades { coin: coin.clone() },
            Subscription::Candle { coin, interval } => Subscription::Candle {
                coin: coin.clone(),
                interval: interval.clone(),
            },
            Subscription::L2Book { coin } => Subscription::L2Book { coin: coin.clone() },
            Subscription::UserFills { user } => Subscription::UserFills { user: user.clone() },
        }
    }
}

/// The canonical key of a subscription: a tag naming the variant,
/// followed by its parameters, joined with `:`.  Venue symbols and
/// interval names do not contain the separator, so distinct
/// subscriptions get distinct keys.
pub open spec fn spec_key(sub: Subscription) -> Seq<char> {
    match sub {
        Subscription::AllMids => "allMids"@,
        Subscription::Trades { coin } => "trades:"@ + coin@,
        Subscription::Candle { coin, interval } => "candle:"@ + coin@ + ":"@ + interval@,
        Subscription::L2Book { coin } => "l2Book:"@ + coin@,
        Subscription::UserFills { user } => "userFills:"@ + user@,
    }
}

/// Builds the canonical key of a subscription.
pub fn canonical_key(sub: &Subscription) -> (k: String)
    ensures
        k@ == spec_key(*sub),
{
    match sub {
        Subscription::AllMids => String::from_str("allMids"),
        Subscription::Trades { coin } => {
            let mut s = String::from_str("trades:");
            s.append(coin.as_str());
            s
        },
        Subscription::Candle { coin, interval } => {
            let mut s = String::from_str("candle:");
            s.append(coin.as_str());
            s.append(":");
            s.append(interval.as_str());
            s
        },
        Subscription::L2Book { coin } => {
            let mut s = String::from_str("l2Book:");
            s.append(coin.as_str());
            s
        },
        Subscription::UserFills { user } => {
            let mut s = String::from_str("userFills:");
            s.append(user.as_str());
            s
        },
    }
}

/// One live registration: the canonical key, the subscription it
/// stands for, and the id the exchange session confirmed.
#[derive(Debug)]
pub struct ActiveSubscription {
    pub key: String,
    pub sub: Subscription,
    pub id: u32,
}

impl Clone for ActiveSubscription {
    fn clone(&self) -> (res: Self)
        ensures
            res == *self,
    {
        ActiveSubscription { key: self.key.clone(), sub: self.sub.clone(), id: self.id }
    }
}

/// Some registration carries this canonical key.
pub open spec fn key_active(s: Seq<ActiveSubscription>, key: Seq<char>) -> bool {
    exists|i: int| 0 <= i < s.len() && s[i].key@ == key
}

/// How many registrations carry this canonical key.
pub open spec fn count_key(s: Seq<ActiveSubscription>, key: Seq<char>) -> int
    decreases s.len(),
{
    if s.len() == 0 {
        0
    } else {
        count_key(s.drop_last(), key) + (if s.last().key@ == key {
            1int
        } else {
            0int
        })
    }
}

/// No two registrations share a canonical key.
pub open spec fn keys_distinct(s: Seq<ActiveSubscription>) -> bool {
    forall|i: int, j: int|
        0 <= i < j < s.len() ==> #[trigger] s[i].key@ != #[trigger] s[j].key@
}

/// A key is active exactly when its count is positive, and under
/// distinct keys the count never exceeds one.
pub proof fn lemma_count_key(s: Seq<ActiveSubscription>, key: Seq<char>)
    ensures
        (count_key(s, key) == 0) <==> !key_active(s, key),
        count_key(s, key) >= 0,
        keys_distinct(s) ==> count_key(s, key) <= 1,
    decreases s.len(),
{
    if s.len() > 0 {
        let s0 = s.drop_last();
        assert(forall|i: int| 0 <= i < s0.len() ==> s0[i] == s[i]);
        if keys_distinct(s) {
            assert(keys_distinct(s0));
        }
        lemma_count_key(s0, key);
        if count_key(s, key) >= 1 {
            if s.last().key@ == key {
                assert(key_active(s, key)) by {
                    assert(s[s.len() - 1].key@ == key);
                }
            } else {
                assert(key_active(s0, key));
                let i = choose|i: int| 0 <= i < s0.len() && s0[i].key@ == key;
                assert(s[i].key@ == key);
            }
        }
        if key_active(s, key) {
            let i = choose|i: int| 0 <= i < s.len() && s[i].key@ == key;
            if i == s.len() - 1 {
            } else {
                assert(s0[i].key@ == key);
                assert(key_active(s0, key));
            }
            assert(count_key(s, key) >= 1);
        }
        if keys_distinct(s) && s.last().key@ == key {
            if key_active(s0, key) {
                let i = choose|i: int| 0 <= i < s0.len() && s0[i].key@ == key;
                assert(s[i].key@ == s[s.len() - 1].key@);
                assert(false);
            }
        }
    }
}

/// What registering an entry does to the registry: nothing when its
/// key is already active, otherwise the entry is appended.
pub open spec fn registered(s: Seq<ActiveSubscription>, e: ActiveSubscription) -> Seq<
    ActiveSubscription,
> {
    if key_active(s, e.key@) {
        s
    } else {
        s.push(e)
    }
}

/// LAW: subscribing twice to an identical subscription is idempotent.
/// After one registration its key counts exactly one live entry, a
/// registration of the same key changes nothing, and because the
/// caller performs the session subscribe call only when the key is
/// not yet active, the session receives exactly one subscribe call
/// for the pair.
pub proof fn lemma_subscribe_idempotent(
    s: Seq<ActiveSubscription>,
    e: ActiveSubscription,
    e2: ActiveSubscription,
)
    requires
        keys_distinct(s),
        e2.key@ == e.key@,
    ensures
        count_key(registered(s, e), e.key@) == 1,
        key_active(registered(s, e), e.key@),
        registered(registered(s, e), e2) == registered(s, e),
        keys_distinct(registered(s, e)),
{
    lemma_count_key(s, e.key@);
    let r = registered(s, e);
    if key_active(s, e.key@) {
        lemma_count_key(r, e.key@);
        assert(count_key(r, e.key@) >= 1);
    } else {
        assert(r == s.push(e));
        assert(r.drop_last() =~= s);
        assert(r.last() == e);
        assert(count_key(r, e.key@) == count_key(s, e.key@) + 1);
        assert(keys_distinct(r)) by {
            assert forall|i: int, j: int| 0 <= i < j < r.len() implies #[trigger] r[i].key@
                != #[trigger] r[j].key@ by {
                if j < r.len() - 1 {
                    assert(r[i] == s[i] && r[j] == s[j]);
                } else {
                    assert(r[i] == s[i]);
                    if r[i].key@ == e.key@ {
                        assert(key_active(s, e.key@));
                    }
                }
            }
        }
    }
    assert(key_active(r, e.key@)) by {
        lemma_count_key(r, e.key@);
    }
    assert(registered(r, e2) == r);
}

/// Deduplicates and tracks the active stream subscriptions by
/// canonical key.
#[derive(Debug)]
pub struct SubscriptionRegistry {
    entries: Vec<ActiveSubscription>,
}

impl View for SubscriptionRegistry {
    type V = Seq<ActiveSubscription>;

    closed spec fn view(&self) -> Seq<ActiveSubscription> {
        self.entries@
    }
}

impl SubscriptionRegistry {
    /// Every entry's stored key is the canonical key of its
    /// subscription, and no key repeats.
    pub open spec fn wf(&self) -> bool {
        &&& keys_distinct(self@)
        &&& forall|i: int|
            0 <= i < self@.len() ==> #[trigger] self@[i].key@ == spec_key(self@[i].sub)
    }

    /// An empty registry.
    pub fn new() -> (r: Self)
        ensures
            r@ == Seq::<ActiveSubscription>::empty(),
            r.wf(),
    {
        SubscriptionRegistry { entries: Vec::new() }
    }

    /// Index of the entry with this key, if any.
    fn find_key_index(&self, key: &String) -> (r: Option<usize>)
        ensures
            (r matches Some(i) ==> i < self@.len() && self@[i as int].key@ == key@),
            r is None ==> !key_active(self@, key@),
    {
        let n = self.entries.len();
        let mut k: usize = 0;
        while k < n
            invariant
                k <= n,
                n == self@.len(),
                forall|j: int| 0 <= j < k ==> self@[j].key@ != key@,
            decreases n - k,
        {
            if self.entries[k].key == *key {
                return Some(k);
            }
            k += 1;
        }
        None
    }

    /// The subscription is already registered.
    pub fn is_active(&self, sub: &Subscription) -> (r: bool)
        ensures
            r == key_active(self@, spec_key(*sub)),
    {
        let key = canonical_key(sub);
        match self.find_key_index(&key) {
            Some(_) => {
                proof {
                    assert(key_active(self@, spec_key(*sub)));
                }
                true
            },
            None => false,
        }
    }

    /// How many live registrations carry this subscription's key:
    /// zero or one in a well-formed registry.
    pub fn active_count(&self, sub: &Subscription) -> (r: usize)
        ensures
            r as int == count_key(self@, spec_key(*sub)),
    {
        let key = canonical_key(sub);
        let n = self.entries.len();
        let mut count: usize = 0;
        let mut k: usize = 0;
        proof {
            assert(self@.take(0) =~= Seq::<ActiveSubscription>::empty());
        }
        while k < n
            invariant
                k <= n,
                n == self@.len(),
                count <= k,
                count as int == count_key(self@.take(k as int), key@),
            decreases n - k,
        {
            proof {
                assert(self@.take(k as int + 1).drop_last() =~= self@.take(k as int));
                assert(self@.take(k as int + 1).last() == self@[k as int]);
            }
            if self.entries[k].key == key {
                count += 1;
            }
            k += 1;
        }
        proof {
            assert(self@.take(n as int) =~= self@);
        }
        count
    }

    /// Records a registration the session has confirmed.  A key that
    /// is already active is left alone, so recording is idempotent.
    pub fn record(&mut self, sub: Subscription, id: u32)
        requires
            old(self).wf(),
        ensures
            final(self).wf(),
            exists|e: ActiveSubscription|
                #![all_triggers]
                e.key@ == spec_key(sub) && e.sub == sub && e.id == id && final(self)@ == registered(
                    old(self)@,
                    e,
                ),
            key_active(final(self)@, spec_key(sub)),
    {
        let key = canonical_key(&sub);
        match self.find_key_index(&key) {
            Some(_) => {
                proof {
                    let e = ActiveSubscription { key, sub, id };
                    assert(key_active(self@, e.key@));
                    assert(final(self)@ == registered(old(self)@, e));
                }
            },
            None => {
                let ghost prev = self@;
                let entry = ActiveSubscription { key, sub, id };
                self.entries.push(entry);
                proof {
                    assert(self@.drop_last() =~= prev);
                    assert forall|i: int, j: int| 0 <= i < j < self@.len() implies #[trigger] self@[i].key@
                        != #[trigger] self@[j].key@ by {
                        if j < self@.len() - 1 {
                            assert(self@[i] == prev[i] && self@[j] == prev[j]);
                        } else {
                            assert(self@[i] == prev[i]);
                            if self@[i].key@ == spec_key(sub) {
                                assert(key_active(prev, spec_key(sub)));
                            }
                        }
                    }
                    assert(self@[self@.len() - 1].key@ == spec_key(sub));
                }
            },
        }
    }

    /// The confirmed id of this subscription, if it is registered.
    /// The registry itself is untouched: the caller unsubscribes from
    /// the session first and removes the registration only once the
    /// session confirms.
    pub fn peek_id(&self, sub: &Subscription) -> (r: Option<u32>)
        requires
            self.wf(),
        ensures
            r is Some <==> key_active(self@, spec_key(*sub)),
            forall|i: int|
                0 <= i < self@.len() && #[trigger] self@[i].key@ == spec_key(*sub) ==> r == Some(
                    self@[i].id,
                ),
    {
        let key = canonical_key(sub);
        match self.find_key_index(&key) {
            Some(i) => {
                proof {
                    assert(key_active(self@, spec_key(*sub)));
                    assert forall|j: int|
                        0 <= j < self@.len() && #[trigger] self@[j].key@ == spec_key(*sub) implies j
                        == i as int by {
                        if j != i as int {
                            let a = vstd::math::min(i as int, j);
                            let b = vstd::math::max(i as int, j);
                            assert(self@[a].key@ != self@[b].key@);
                        }
                    }
                }
                Some(self.entries[i].id)
            },
            None => None,
        }
    }

    /// Drops the registration of this subscription, if any; a
    /// subscription that is not registered is a no-op.
    pub fn remove(&mut self, sub: &Subscription)
        requires
            old(self).wf(),
        ensures
            final(self).wf(),
            !key_active(old(self)@, spec_key(*sub)) ==> final(self)@ == old(self)@,
            forall|i: int|
                0 <= i < old(self)@.len() && #[trigger] old(self)@[i].key@ == spec_key(*sub) ==>
                    final(self)@ == old(self)@.remove(i),
            !key_active(final(self)@, spec_key(*sub)),
    {
        let key = canonical_key(sub);
        match self.find_key_index(&key) {
            Some(i) => {
                let ghost prev = self@;
                self.entries.remove(i);
                proof {
                    assert forall|a: int, b: int| 0 <= a < b < self@.len() implies #[trigger] self@[a].key@
                        != #[trigger] self@[b].key@ by {
                        let pa: int = if a < i as int {
                            a
                        } else {
                            a + 1
                        };
                        let pb: int = if b < i as int {
                            b
                        } else {
                            b + 1
                        };
                        assert(self@[a] == prev[pa] && self@[b] == prev[pb]);
                    }
                    assert forall|j: int|
                        0 <= j < prev.len() && #[trigger] prev[j].key@ == spec_key(*sub) implies j
                        == i as int by {
                        if j != i as int {
                            let a = vstd::math::min(i as int, j);
                            let b = vstd::math::max(i as int, j);
                            assert(prev[a].key@ != prev[b].key@);
                        }
                    }
                    assert(!key_active(self@, spec_key(*sub))) by {
                        if key_active(self@, spec_key(*sub)) {
                            let j = choose|j: int|
                                0 <= j < self@.len() && self@[j].key@ == spec_key(*sub);
                            let pj: int = if j < i as int {
                                j
                            } else {
                                j + 1
                            };
                            assert(self@[j] == prev[pj]);
                        }
                    }
                }
            },
            None => {},
        }
    }

    /// The registered subscriptions, in registration order: what a
    /// reconnection replays against a fresh session.
    pub fn list(&self) -> (r: Vec<Subscription>)
        ensures
            r@.len() == self@.len(),
            forall|i: int| 0 <= i < r@.len() ==> #[trigger] r@[i] == self@[i].sub,
    {
        let n = self.entries.len();
        let mut subs: Vec<Subscription> = Vec::new();
        let mut k: usize = 0;
        while k < n
            invariant
                k <= n,
                n == self@.len(),
                subs@.len() == k,
                forall|i: int| 0 <= i < k ==> #[trigger] subs@[i] == self@[i].sub,
            decreases n - k,
        {
            subs.push(self.entries[k].sub.clone());
            k += 1;
        }
        subs
    }

    /// How many subscriptions are registered.
    pub fn len(&self) -> (r: usize)
        ensures
            r == self@.len(),
    {
        self.entries.len()
    }
}

} // verus!
