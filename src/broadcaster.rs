//! A single-producer, many-receiver broadcast: each published event is sent to
//! every live subscription, and a subscription whose receiver is gone is
//! dropped on the first send that fails.
use std::sync::mpsc::{Receiver, Sender};
use vstd::prelude::*;

verus! {

/// What a broadcaster is, seen from outside.
///
/// A subscription is known by its identity, the number of subscriptions made
/// before it. An event is known by its number, the number of events published
/// before it.
pub struct BroadcastModel {
    /// The identities of the live subscriptions, oldest first.
    pub live: Seq<nat>,
    /// For each subscription ever made, indexed by identity, the numbers of the
    /// events that were handed to it.
    pub received: Seq<Seq<nat>>,
    /// How many events have been published.
    pub published: nat,
}

impl BroadcastModel {
    /// Live subscriptions are distinct and each was made at some point.
    pub open spec fn wf(self) -> bool {
        &&& self.live.no_duplicates()
        &&& forall|k: int| 0 <= k < self.live.len() ==> #[trigger] self.live[k] < self.received.len()
    }
}

/// The entries of `s` whose flag in `flags` is set, in their order.
pub open spec fn kept<A>(s: Seq<A>, flags: Seq<bool>) -> Seq<A>
    decreases s.len(),
{
    if s.len() == 0 {
        Seq::empty()
    } else {
        let rest = kept(s.drop_first(), flags.drop_first());
        if flags[0] {
            seq![s[0]] + rest
        } else {
            rest
        }
    }
}

/// The model after a new subscription was made.
pub open spec fn after_subscribe(m: BroadcastModel) -> BroadcastModel {
    BroadcastModel {
        live: m.live.push(m.received.len()),
        received: m.received.push(Seq::empty()),
        published: m.published,
    }
}

/// The model after an event was published, where `delivered[k]` tells whether
/// the send to the `k`-th live subscription succeeded. The ones that failed are
/// removed; the event reaches exactly the ones that remain.
pub open spec fn after_publish(m: BroadcastModel, delivered: Seq<bool>) -> BroadcastModel {
    let survivors = kept(m.live, delivered);
    BroadcastModel {
        live: survivors,
        received: Seq::new(
            m.received.len(),
            |id: int|
                if survivors.contains(id as nat) {
                    m.received[id].push(m.published)
                } else {
                    m.received[id]
                },
        ),
        published: m.published + 1,
    }
}

/// `post` follows `pre` by one publish, whatever the outcome of each send was.
pub open spec fn publish_step(pre: BroadcastModel, post: BroadcastModel) -> bool {
    exists|delivered: Seq<bool>|
        delivered.len() == pre.live.len() && post == #[trigger] after_publish(pre, delivered)
}

/// `post` follows `pre` by one subscribe.
pub open spec fn subscribe_step(pre: BroadcastModel, post: BroadcastModel) -> bool {
    post == after_subscribe(pre)
}

/// Unfolds `kept` on a suffix by one entry.
pub proof fn lemma_kept_suffix<A>(s: Seq<A>, flags: Seq<bool>, j: int)
    requires
        0 <= j < s.len(),
        s.len() == flags.len(),
    ensures
        kept(s.subrange(j, s.len() as int), flags.subrange(j, s.len() as int)) == (if flags[j] {
            seq![s[j]]
        } else {
            Seq::empty()
        }) + kept(s.subrange(j + 1, s.len() as int), flags.subrange(j + 1, s.len() as int)),
{
    let n = s.len() as int;
    assert(s.subrange(j, n).drop_first() =~= s.subrange(j + 1, n));
    assert(flags.subrange(j, n).drop_first() =~= flags.subrange(j + 1, n));
    if !flags[j] {
        assert(Seq::<A>::empty() + kept(s.subrange(j + 1, n), flags.subrange(j + 1, n)) =~= kept(
            s.subrange(j + 1, n),
            flags.subrange(j + 1, n),
        ));
    }
}

/// Unfolds `kept` by one entry.
pub proof fn lemma_kept_unfold<A>(s: Seq<A>, flags: Seq<bool>)
    requires
        s.len() > 0,
    ensures
        kept(s, flags) == (if flags[0] {
            seq![s[0]]
        } else {
            Seq::empty()
        }) + kept(s.drop_first(), flags.drop_first()),
{
    if !flags[0] {
        assert(Seq::<A>::empty() + kept(s.drop_first(), flags.drop_first()) =~= kept(
            s.drop_first(),
            flags.drop_first(),
        ));
    }
}

/// `kept` keeps as many entries whatever the entries are, and no more than
/// there were.
pub proof fn lemma_kept_len<A, B>(s: Seq<A>, t: Seq<B>, flags: Seq<bool>)
    requires
        s.len() == t.len(),
    ensures
        kept(s, flags).len() == kept(t, flags).len(),
        kept(s, flags).len() <= s.len(),
    decreases s.len(),
{
    if s.len() > 0 {
        lemma_kept_len(s.drop_first(), t.drop_first(), flags.drop_first());
    }
}

/// Each entry that `kept` keeps is a flagged entry of `s`.
pub proof fn lemma_kept_from<A>(s: Seq<A>, flags: Seq<bool>, j: int)
    requires
        0 <= j < kept(s, flags).len(),
        s.len() == flags.len(),
    ensures
        exists|k: int| 0 <= k < s.len() && flags[k] && s[k] == #[trigger] kept(s, flags)[j],
    decreases s.len(),
{
    if s.len() == 0 {
    } else {
        let rs = s.drop_first();
        let rf = flags.drop_first();
        lemma_kept_unfold(s, flags);
        if flags[0] && j == 0 {
            assert(s[0] == kept(s, flags)[0]);
        } else {
            let jj = if flags[0] { j - 1 } else { j };
            assert(kept(s, flags)[j] == kept(rs, rf)[jj]);
            lemma_kept_from(rs, rf, jj);
            let k = choose|k: int| 0 <= k < rs.len() && rf[k] && rs[k] == #[trigger] kept(rs, rf)[jj];
            assert(flags[k + 1] && s[k + 1] == kept(s, flags)[j]);
        }
    }
}

/// Each flagged entry of `s` is kept.
pub proof fn lemma_kept_to<A>(s: Seq<A>, flags: Seq<bool>, k: int)
    requires
        0 <= k < s.len(),
        s.len() == flags.len(),
        flags[k],
    ensures
        kept(s, flags).contains(s[k]),
    decreases s.len(),
{
    let rs = s.drop_first();
    let rf = flags.drop_first();
    lemma_kept_unfold(s, flags);
    if k == 0 {
        assert(kept(s, flags)[0] == s[0]);
    } else {
        lemma_kept_to(rs, rf, k - 1);
        let j = choose|j: int| 0 <= j < kept(rs, rf).len() && kept(rs, rf)[j] == rs[k - 1];
        if flags[0] {
            assert(kept(s, flags)[j + 1] == s[k]);
        } else {
            assert(kept(s, flags)[j] == s[k]);
        }
    }
}

/// `kept` makes no repeats where `s` has none.
pub proof fn lemma_kept_no_duplicates<A>(s: Seq<A>, flags: Seq<bool>)
    requires
        s.no_duplicates(),
        s.len() == flags.len(),
    ensures
        kept(s, flags).no_duplicates(),
    decreases s.len(),
{
    if s.len() > 0 {
        let rs = s.drop_first();
        let rf = flags.drop_first();
        let rest = kept(rs, rf);
        lemma_kept_unfold(s, flags);
        assert(rs.no_duplicates()) by {
            assert forall|i: int, j: int| 0 <= i < rs.len() && 0 <= j < rs.len() && i != j implies rs[i] != rs[j] by {
                assert(s[i + 1] != s[j + 1]);
            }
        }
        lemma_kept_no_duplicates(rs, rf);
        if flags[0] {
            let ks = kept(s, flags);
            assert forall|i: int, j: int| 0 <= i < ks.len() && 0 <= j < ks.len() && i != j implies ks[i] != ks[j] by {
                if i == 0 || j == 0 {
                    let o = if i == 0 { j } else { i };
                    lemma_kept_from(rs, rf, o - 1);
                    let k = choose|k: int| 0 <= k < rs.len() && rf[k] && rs[k] == #[trigger] rest[o - 1];
                    assert(s[k + 1] != s[0]);
                } else {
                    assert(rest[i - 1] != rest[j - 1]);
                }
            }
        }
    }
}

/// Publishing keeps the model well formed.
pub proof fn lemma_publish_wf(m: BroadcastModel, delivered: Seq<bool>)
    requires
        m.wf(),
        delivered.len() == m.live.len(),
    ensures
        after_publish(m, delivered).wf(),
        after_publish(m, delivered).received.len() == m.received.len(),
{
    let post = after_publish(m, delivered);
    lemma_kept_no_duplicates(m.live, delivered);
    assert forall|j: int| 0 <= j < post.live.len() implies #[trigger] post.live[j] < post.received.len() by {
        lemma_kept_from(m.live, delivered, j);
        let k = choose|k: int| 0 <= k < m.live.len() && delivered[k] && m.live[k] == #[trigger] kept(m.live, delivered)[j];
        assert(m.live[k] < m.received.len());
    }
}

/// A broadcast of values of type `T` to any number of subscriptions.
#[verifier::reject_recursive_types(T)]
pub struct Broadcaster<T> where T: Clone {
    subscribers: Vec<Sender<T>>,
    ids: Ghost<Seq<nat>>,
    received: Ghost<Seq<Seq<nat>>>,
    published: Ghost<nat>,
}

impl<T: Clone> View for Broadcaster<T> {
    type V = BroadcastModel;

    closed spec fn view(&self) -> BroadcastModel {
        BroadcastModel { live: self.ids@, received: self.received@, published: self.published@ }
    }
}

impl<T: Clone> Broadcaster<T> {
    /// Each live subscription has exactly one endpoint.
    pub closed spec fn endpoints_match(&self) -> bool {
        self.subscribers@.len() == self.ids@.len()
    }

    pub open spec fn wf(&self) -> bool {
        self.endpoints_match() && self@.wf()
    }

    /// The sending halves of the live subscriptions, in the order of `live`.
    pub closed spec fn endpoints(&self) -> Seq<Sender<T>> {
        self.subscribers@
    }

    /// A broadcaster with no subscriptions, before any event.
    pub fn new() -> (r: Self)
        ensures
            r.wf(),
            r@.live == Seq::<nat>::empty(),
            r@.received == Seq::<Seq<nat>>::empty(),
            r@.published == 0,
            r.endpoints() == Seq::<Sender<T>>::empty(),
    {
        Broadcaster {
            subscribers: Vec::new(),
            ids: Ghost(Seq::empty()),
            received: Ghost(Seq::empty()),
            published: Ghost(0),
        }
    }

    /// The number of live subscriptions.
    pub fn len(&self) -> (r: usize)
        requires
            self.wf(),
        ensures
            r == self@.live.len(),
    {
        self.subscribers.len()
    }

    /// Adds a subscription whose events go to `endpoint`; the caller keeps the
    /// receiving half of its channel.
    pub fn add_endpoint(&mut self, endpoint: Sender<T>)
        requires
            old(self).wf(),
        ensures
            final(self).wf(),
            final(self)@ == after_subscribe(old(self)@),
            final(self).endpoints() == old(self).endpoints().push(endpoint),
    {
        self.subscribers.push(endpoint);
        let ghost pre = self@;
        self.ids = Ghost(pre.live.push(pre.received.len()));
        self.received = Ghost(pre.received.push(Seq::empty()));
        proof {
            let m = self@;
            assert forall|k: int| 0 <= k < m.live.len() implies #[trigger] m.live[k] < m.received.len() by {
                if k < pre.live.len() {
                    assert(m.live[k] == pre.live[k]);
                }
            }
            assert forall|i: int, j: int| 0 <= i < m.live.len() && 0 <= j < m.live.len() && i != j implies m.live[i] != m.live[j] by {
                if i < pre.live.len() && j < pre.live.len() {
                    assert(pre.live[i] != pre.live[j]);
                } else if i < pre.live.len() {
                    assert(pre.live[i] < pre.received.len());
                } else {
                    assert(pre.live[j] < pre.received.len());
                }
            }
        }
    }

    /// Makes a new channel, adds its sending half as a new subscription, and
    /// returns its receiving half.
    pub fn subscribe(&mut self) -> (r: Receiver<T>)
        requires
            old(self).wf(),
        ensures
            final(self).wf(),
            final(self)@ == after_subscribe(old(self)@),
            final(self).endpoints().len() == old(self).endpoints().len() + 1,
            final(self).endpoints().subrange(0, old(self).endpoints().len() as int) == old(self).endpoints(),
    {
        let (s, r) = std::sync::mpsc::channel();
        let ghost before = self.endpoints();
        self.add_endpoint(s);
        assert(self.endpoints().subrange(0, before.len() as int) =~= before);
        r
    }

    /// Settles one publish once the outcome of each send is known:
    /// `delivered[k]` tells whether the send to the `k`-th live subscription
    /// succeeded. The endpoints whose send failed are removed, the others stay
    /// in their order, and the event counts as handed to exactly those.
    pub fn apply_outcomes(&mut self, delivered: &Vec<bool>)
        requires
            old(self).wf(),
            delivered@.len() == old(self)@.live.len(),
        ensures
            final(self).wf(),
            final(self)@ == after_publish(old(self)@, delivered@),
            final(self).endpoints() == kept(old(self).endpoints(), delivered@),
    {
        let n = self.subscribers.len();
        let ghost pre = self@;
        let ghost subs = self.subscribers@;
        let ghost flags = delivered@;
        // Walk backwards, so that a removal never shifts an endpoint that is
        // still to be looked at.
        let mut i: usize = n;
        while i > 0
            invariant
                i <= n,
                n == subs.len(),
                flags.len() == n,
                delivered@ == flags,
                self@ == pre,
                self.subscribers@ == subs.subrange(0, i as int) + kept(
                    subs.subrange(i as int, n as int),
                    flags.subrange(i as int, n as int),
                ),
            decreases i,
        {
            i = i - 1;
            proof {
                lemma_kept_suffix(subs, flags, i as int);
            }
            let ghost tail = kept(subs.subrange(i + 1, n as int), flags.subrange(i + 1, n as int));
            if !delivered[i] {
                self.subscribers.remove(i);
                assert(self.subscribers@ =~= subs.subrange(0, i as int) + tail);
                assert(tail =~= Seq::<Sender<T>>::empty() + tail);
            } else {
                assert(self.subscribers@ =~= subs.subrange(0, i as int) + (seq![subs[i as int]] + tail));
            }
        }
        proof {
            assert(subs.subrange(0, 0) + kept(subs.subrange(0, n as int), flags.subrange(0, n as int)) =~= kept(subs, flags)) by {
                assert(subs.subrange(0, n as int) =~= subs);
                assert(flags.subrange(0, n as int) =~= flags);
            }
            lemma_kept_len(subs, pre.live, flags);
            lemma_publish_wf(pre, flags);
        }
        let ghost post = after_publish(pre, flags);
        self.ids = Ghost(post.live);
        self.received = Ghost(post.received);
        self.published = Ghost(post.published);
    }

    /// Sends `value` to every live subscription, each independently; one
    /// whose receiver is gone is removed, and no failure stops the others.
    pub fn send_to_all(&mut self, value: T)
        requires
            old(self).wf(),
        ensures
            final(self).wf(),
            publish_step(old(self)@, final(self)@),
            exists|delivered: Seq<bool>|
                delivered.len() == old(self)@.live.len() && final(self)@ == #[trigger] after_publish(
                    old(self)@,
                    delivered,
                ) && final(self).endpoints() == kept(old(self).endpoints(), delivered),
            old(self)@.live.len() == 0 ==> final(self)@.live == old(self)@.live
                && final(self)@.received == old(self)@.received
                && final(self).endpoints() == old(self).endpoints(),
    {
        let n = self.subscribers.len();
        let mut delivered: Vec<bool> = Vec::new();
        let mut i: usize = 0;
        while i < n
            invariant
                i <= n,
                n == self.subscribers@.len(),
                delivered@.len() == i,
            decreases n - i,
        {
            let ok = self.subscribers[i].send(value.clone()).is_ok();
            delivered.push(ok);
            i = i + 1;
        }
        let ghost pre = self@;
        let ghost pre_endpoints = self.endpoints();
        self.apply_outcomes(&delivered);
        assert(delivered@.len() == pre.live.len() && self@ == after_publish(pre, delivered@)
            && self.endpoints() == kept(pre_endpoints, delivered@));
        proof {
            if pre.live.len() == 0 {
                assert(self@.live =~= pre.live);
                assert(self@.received =~= pre.received);
                assert(pre_endpoints.len() == 0);
                assert(self.endpoints() =~= pre_endpoints);
            }
        }
    }
}

} // verus!
