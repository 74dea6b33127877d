//! Laws over histories of a broadcaster: what a subscription receives over
//! any run of subscribes and publishes.
use crate::broadcaster::{
    after_publish, after_subscribe, kept, lemma_kept_from, lemma_kept_to, lemma_publish_wf,
    publish_step, subscribe_step, BroadcastModel,
};
use vstd::prelude::*;

verus! {

/// One step of a broadcaster: a subscribe, or a publish with any outcome.
pub open spec fn broadcast_step(pre: BroadcastModel, post: BroadcastModel) -> bool {
    subscribe_step(pre, post) || publish_step(pre, post)
}

/// A run of a broadcaster from a well-formed start, one step at a time.
pub open spec fn valid_history(h: Seq<BroadcastModel>) -> bool {
    &&& h.len() > 0
    &&& h[0].wf()
    &&& forall|k: int| 0 <= k < h.len() - 1 ==> #[trigger] broadcast_step(h[k], h[k + 1])
}

/// The event numbers from `a` up to, not including, `b`.
pub open spec fn event_range(a: nat, b: nat) -> Seq<nat> {
    Seq::new((b - a) as nat, |k: int| (a + k) as nat)
}

/// One step keeps the model well formed and only adds to it.
proof fn lemma_step(pre: BroadcastModel, post: BroadcastModel)
    requires
        pre.wf(),
        broadcast_step(pre, post),
    ensures
        post.wf(),
        pre.received.len() <= post.received.len(),
        pre.published <= post.published,
        forall|id: nat| id < pre.received.len() && !pre.live.contains(id) ==> !post.live.contains(id)
            && post.received[id as int] == pre.received[id as int],
        forall|id: nat| id < pre.received.len() && post.live.contains(id) ==> pre.live.contains(id)
            && post.received[id as int] == pre.received[id as int] + event_range(pre.published, post.published),
{
    if subscribe_step(pre, post) {
        assert forall|k: int| 0 <= k < post.live.len() implies #[trigger] post.live[k] < post.received.len() by {
            if k < pre.live.len() {
                assert(post.live[k] == pre.live[k]);
            }
        }
        assert forall|i: int, j: int| 0 <= i < post.live.len() && 0 <= j < post.live.len() && i != j implies post.live[i] != post.live[j] by {
            if i < pre.live.len() && j < pre.live.len() {
                assert(pre.live[i] != pre.live[j]);
            } else if i < pre.live.len() {
                assert(pre.live[i] < pre.received.len());
            } else {
                assert(pre.live[j] < pre.received.len());
            }
        }
        assert forall|id: nat| id < pre.received.len() && !pre.live.contains(id) implies !post.live.contains(id)
            && post.received[id as int] == pre.received[id as int] by {
            if post.live.contains(id) {
                let k = choose|k: int| 0 <= k < post.live.len() && post.live[k] == id;
                if k < pre.live.len() {
                    assert(pre.live[k] == id);
                }
            }
        }
        assert forall|id: nat| id < pre.received.len() && post.live.contains(id) implies pre.live.contains(id)
            && post.received[id as int] == pre.received[id as int] + event_range(pre.published, post.published) by {
            let k = choose|k: int| 0 <= k < post.live.len() && post.live[k] == id;
            assert(k < pre.live.len());
            assert(pre.live[k] == id);
            assert(pre.received[id as int] + event_range(pre.published, post.published) =~= pre.received[id as int]);
        }
    } else {
        let delivered = choose|delivered: Seq<bool>|
            delivered.len() == pre.live.len() && post == #[trigger] after_publish(pre, delivered);
        lemma_publish_wf(pre, delivered);
        assert forall|id: nat| id < pre.received.len() && !pre.live.contains(id) implies !post.live.contains(id)
            && post.received[id as int] == pre.received[id as int] by {
            if post.live.contains(id) {
                let j = choose|j: int| 0 <= j < post.live.len() && post.live[j] == id;
                lemma_kept_from(pre.live, delivered, j);
            }
        }
        assert forall|id: nat| id < pre.received.len() && post.live.contains(id) implies pre.live.contains(id)
            && post.received[id as int] == pre.received[id as int] + event_range(pre.published, post.published) by {
            let j = choose|j: int| 0 <= j < post.live.len() && post.live[j] == id;
            lemma_kept_from(pre.live, delivered, j);
            assert(pre.received[id as int].push(pre.published) =~= pre.received[id as int] + event_range(
                pre.published,
                post.published,
            ));
        }
    }
}

/// Every state of a valid history is well formed, and counts only grow.
proof fn lemma_history(h: Seq<BroadcastModel>, i: int, j: int)
    requires
        valid_history(h),
        0 <= i <= j < h.len(),
    ensures
        h[j].wf(),
        h[i].received.len() <= h[j].received.len(),
        h[i].published <= h[j].published,
    decreases j,
{
    if j > 0 {
        if i < j {
            lemma_history(h, i, j - 1);
        }
        lemma_history(h, 0, j - 1);
        assert(broadcast_step(h[j - 1], h[(j - 1) + 1]));
        lemma_step(h[j - 1], h[j]);
    }
}

/// A subscription that is live at two points of a history was live all along
/// and received, in between, every event published in between, in the order
/// they were published, and nothing else.
pub proof fn law_live_subscription_receives_every_event(h: Seq<BroadcastModel>, i: int, j: int, id: nat)
    requires
        valid_history(h),
        0 <= i <= j < h.len(),
        h[i].live.contains(id),
        h[j].live.contains(id),
    ensures
        forall|k: int| i <= k <= j ==> #[trigger] h[k].live.contains(id),
        h[j].received[id as int] == h[i].received[id as int] + event_range(h[i].published, h[j].published),
    decreases j - i,
{
    lemma_history(h, i, i);
    let m = h[i];
    let p = choose|p: int| 0 <= p < m.live.len() && m.live[p] == id;
    assert(m.live[p] < m.received.len());
    if i == j {
        assert(h[i].received[id as int] + event_range(h[i].published, h[j].published) =~= h[i].received[id as int]);
    } else {
        lemma_history(h, i, j - 1);
        lemma_history(h, 0, j - 1);
        assert(broadcast_step(h[j - 1], h[(j - 1) + 1]));
        lemma_step(h[j - 1], h[j]);
        law_live_subscription_receives_every_event(h, i, j - 1, id);
        lemma_history(h, i, j);
        assert(h[i].received[id as int] + event_range(h[i].published, h[j - 1].published) + event_range(
            h[j - 1].published,
            h[j].published,
        ) =~= h[i].received[id as int] + event_range(h[i].published, h[j].published));
    }
}

/// A subscription that is not live at some point of a history is never live
/// again, and receives nothing from then on.
pub proof fn law_removed_subscription_receives_nothing(h: Seq<BroadcastModel>, i: int, j: int, id: nat)
    requires
        valid_history(h),
        0 <= i <= j < h.len(),
        id < h[i].received.len(),
        !h[i].live.contains(id),
    ensures
        !h[j].live.contains(id),
        h[j].received[id as int] == h[i].received[id as int],
    decreases j - i,
{
    if i < j {
        law_removed_subscription_receives_nothing(h, i, j - 1, id);
        lemma_history(h, i, j - 1);
        lemma_history(h, 0, j - 1);
        assert(broadcast_step(h[j - 1], h[(j - 1) + 1]));
        lemma_step(h[j - 1], h[j]);
    }
}

/// In one publish, a live subscription whose send succeeds stays live and
/// receives the event; one whose send fails is removed and receives nothing.
pub proof fn law_publish_outcome(m: BroadcastModel, delivered: Seq<bool>, k: int)
    requires
        m.wf(),
        delivered.len() == m.live.len(),
        0 <= k < m.live.len(),
    ensures
        delivered[k] ==> after_publish(m, delivered).live.contains(m.live[k])
            && after_publish(m, delivered).received[m.live[k] as int] == m.received[m.live[k] as int].push(m.published),
        !delivered[k] ==> !after_publish(m, delivered).live.contains(m.live[k])
            && after_publish(m, delivered).received[m.live[k] as int] == m.received[m.live[k] as int],
        after_publish(m, delivered).published == m.published + 1,
{
    let id = m.live[k];
    assert(id < m.received.len());
    if delivered[k] {
        lemma_kept_to(m.live, delivered, k);
    } else {
        if kept(m.live, delivered).contains(id) {
            let j = choose|j: int| 0 <= j < kept(m.live, delivered).len() && kept(m.live, delivered)[j] == id;
            lemma_kept_from(m.live, delivered, j);
            let q = choose|q: int| 0 <= q < m.live.len() && delivered[q] && m.live[q] == #[trigger] kept(m.live, delivered)[j];
            assert(m.live[q] == m.live[k]);
        }
    }
}

/// Subscribes in a row, with no publish among them, add exactly one live
/// subscription each: none is lost and none is counted twice.
pub proof fn law_subscribes_register_once(h: Seq<BroadcastModel>)
    requires
        h.len() > 0,
        h[0].wf(),
        forall|k: int| 0 <= k < h.len() - 1 ==> #[trigger] subscribe_step(h[k], h[k + 1]),
    ensures
        h.last().live == h[0].live + Seq::new((h.len() - 1) as nat, |k: int| (h[0].received.len() + k) as nat),
        h.last().live.len() == h[0].live.len() + h.len() - 1,
        h.last().live.no_duplicates(),
    decreases h.len(),
{
    if h.len() == 1 {
        assert(h[0].live + Seq::new(0, |k: int| (h[0].received.len() + k) as nat) =~= h[0].live);
    } else {
        let g = h.drop_last();
        assert forall|k: int| 0 <= k < g.len() - 1 implies #[trigger] subscribe_step(g[k], g[k + 1]) by {
            assert(subscribe_step(h[k], h[k + 1]));
        }
        law_subscribes_register_once(g);
        assert forall|k: int| 0 <= k < h.len() - 1 implies #[trigger] broadcast_step(h[k], h[k + 1]) by {
            assert(subscribe_step(h[k], h[k + 1]));
        }
        lemma_history(h, 0, h.len() - 1);
        lemma_history(h, 0, h.len() - 2);
        assert(subscribe_step(h[h.len() - 2], h[(h.len() - 2) + 1]));
        let last = h[h.len() - 2];
        assert(last.received.len() == h[0].received.len() + h.len() - 2) by {
            assert forall|k: int| 0 <= k < h.len() implies #[trigger] h[k].received.len() == h[0].received.len() + k by {
                lemma_received_grows(h, k);
            }
        }
        assert(h.last().live =~= h[0].live + Seq::new((h.len() - 1) as nat, |k: int| (h[0].received.len() + k) as nat));
    }
}

/// Along subscribes only, each step makes one subscription.
proof fn lemma_received_grows(h: Seq<BroadcastModel>, k: int)
    requires
        0 <= k < h.len(),
        forall|k: int| 0 <= k < h.len() - 1 ==> #[trigger] subscribe_step(h[k], h[k + 1]),
    ensures
        h[k].received.len() == h[0].received.len() + k,
    decreases k,
{
    if k > 0 {
        lemma_received_grows(h, k - 1);
        assert(subscribe_step(h[k - 1], h[(k - 1) + 1]));
    }
}

} // verus!
