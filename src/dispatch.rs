//! A subscription handler: a registry of subscriptions that hands each value
//! to all of them, built on a broadcaster.
use crate::broadcaster::{after_publish, after_subscribe, kept, publish_step, BroadcastModel, Broadcaster};
use std::sync::mpsc::{Receiver, Sender};
use vstd::prelude::*;

verus! {

/// Hands each value to every subscription; a subscription whose receiver is
/// gone is dropped on the next send.
#[verifier::reject_recursive_types(T)]
pub struct SubscriptionHandler<T> where T: Clone {
    inner: Broadcaster<T>,
}

impl<T: Clone> View for SubscriptionHandler<T> {
    type V = BroadcastModel;

    closed spec fn view(&self) -> BroadcastModel {
        self.inner@
    }
}

impl<T: Clone> SubscriptionHandler<T> {
    pub closed spec fn wf(&self) -> bool {
        self.inner.wf()
    }

    /// The sending halves of the live subscriptions, in the order of `live`.
    pub closed spec fn endpoints(&self) -> Seq<Sender<T>> {
        self.inner.endpoints()
    }

    /// A handler with no subscriptions, before any value.
    pub fn new() -> (r: Self)
        ensures
            r.wf(),
            r@.wf(),
            r@.live == Seq::<nat>::empty(),
            r@.received == Seq::<Seq<nat>>::empty(),
            r@.published == 0,
            r.endpoints() == Seq::<Sender<T>>::empty(),
    {
        SubscriptionHandler { inner: Broadcaster::new() }
    }

    /// Sends `value` to every live subscription and removes those whose
    /// receiver is gone; the others all get it.
    pub fn send_to_all(&mut self, value: T)
        requires
            old(self).wf(),
        ensures
            final(self).wf(),
            final(self)@.wf(),
            publish_step(old(self)@, final(self)@),
            exists|delivered: Seq<bool>|
                delivered.len() == old(self)@.live.len() && final(self)@ == #[trigger] after_publish(
                    old(self)@,
                    delivered,
                ) && final(self).endpoints() == kept(old(self).endpoints(), delivered),
            old(self)@.live.len() == 0 ==> final(self)@.live == old(self)@.live
                && final(self)@.received == old(self)@.received
                && final(self).endpoints() == old(self).endpoints(),
    {
        let ghost pre = self@;
        let ghost pre_endpoints = self.endpoints();
        assert(pre == self.inner@ && pre_endpoints == self.inner.endpoints());
        self.inner.send_to_all(value);
        proof {
            let d = choose|d: Seq<bool>|
                d.len() == pre.live.len() && self.inner@ == #[trigger] after_publish(pre, d)
                    && self.inner.endpoints() == kept(pre_endpoints, d);
            assert(self@ == after_publish(pre, d) && self.endpoints() == kept(pre_endpoints, d));
            assert(d.len() == pre.live.len());
        }
    }

    /// Settles one send to all from the outcome of each send, as
    /// [`Broadcaster::apply_outcomes`] does.
    pub fn apply_outcomes(&mut self, delivered: &Vec<bool>)
        requires
            old(self).wf(),
            delivered@.len() == old(self)@.live.len(),
        ensures
            final(self).wf(),
            final(self)@.wf(),
            final(self)@ == after_publish(old(self)@, delivered@),
            final(self).endpoints() == kept(old(self).endpoints(), delivered@),
    {
        self.inner.apply_outcomes(delivered);
    }

    /// The number of live subscriptions.
    pub fn len(&self) -> (r: usize)
        requires
            self.wf(),
        ensures
            r == self@.live.len(),
    {
        self.inner.len()
    }

    /// Adds a subscription whose events go to `endpoint`.
    pub fn add_endpoint(&mut self, endpoint: Sender<T>)
        requires
            old(self).wf(),
        ensures
            final(self).wf(),
            final(self)@.wf(),
            final(self)@ == after_subscribe(old(self)@),
            final(self).endpoints() == old(self).endpoints().push(endpoint),
    {
        self.inner.add_endpoint(endpoint);
    }

    /// Makes a new subscription and returns its receiving half.
    pub fn subscribe(&mut self) -> (r: Receiver<T>)
        requires
            old(self).wf(),
        ensures
            final(self).wf(),
            final(self)@.wf(),
            final(self)@ == after_subscribe(old(self)@),
            final(self).endpoints().len() == old(self).endpoints().len() + 1,
            final(self).endpoints().subrange(0, old(self).endpoints().len() as int) == old(self).endpoints(),
    {
        self.inner.subscribe()
    }
}

} // verus!
