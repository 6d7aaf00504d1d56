//! The webhook registry: an in-memory store of webhooks keyed by identifier.
//! Delivery over HTTP is the caller's concern.

use vstd::prelude::*;
use crate::strutil::str_eq_str;

verus! {

/// A registered webhook.
pub struct Webhook {
    pub id: String,
    pub url: String,
    pub secret: String,
    pub events: Vec<String>,
}

/// Deep equality of two webhooks: every field agrees at the view level.
pub open spec fn webhook_eq(a: Webhook, b: Webhook) -> bool {
    &&& a.id@ == b.id@
    &&& a.url@ == b.url@
    &&& a.secret@ == b.secret@
    &&& a.events.deep_view() == b.events.deep_view()
}

impl Clone for Webhook {
    fn clone(&self) -> (res: Self)
        ensures
            webhook_eq(res, *self),
    {
        let res = Webhook {
            id: self.id.clone(),
            url: self.url.clone(),
            secret: self.secret.clone(),
            events: self.events.clone(),
        };
        proof {
            assert(res.events.deep_view() =~= self.events.deep_view());
        }
        res
    }
}

/// Some webhook in `hooks` carries this identifier.
pub open spec fn spec_has_webhook(hooks: Seq<Webhook>, id: Seq<char>) -> bool {
    exists|j: int| 0 <= j < hooks.len() && #[trigger] hooks[j].id@ == id
}

/// Webhook identifiers are pairwise distinct.
pub open spec fn wf_webhooks(hooks: Seq<Webhook>) -> bool {
    forall|j: int, k: int|
        0 <= j < k < hooks.len() ==> #[trigger] hooks[j].id@ != #[trigger] hooks[k].id@
}

/// The in-memory webhook store.
pub struct WebhookState {
    webhooks: Vec<Webhook>,
}

impl View for WebhookState {
    type V = Seq<Webhook>;

    closed spec fn view(&self) -> Seq<Webhook> {
        self.webhooks@
    }
}

impl Default for WebhookState {
    /// An empty store.
    fn default() -> (r: Self)
        ensures
            r@ == Seq::<Webhook>::empty(),
            wf_webhooks(r@),
    {
        let r = WebhookState { webhooks: Vec::new() };
        proof {
            assert(r@ =~= Seq::<Webhook>::empty());
        }
        r
    }
}

impl WebhookState {
    /// Stores a webhook under its identifier: a new identifier is appended, a
    /// known one has its entry replaced.
    pub fn add_webhook(&mut self, webhook: Webhook)
        requires
            wf_webhooks(old(self)@),
        ensures
            wf_webhooks(final(self)@),
            !spec_has_webhook(old(self)@, webhook.id@) ==> final(self)@ == old(self)@.push(webhook),
            spec_has_webhook(old(self)@, webhook.id@) ==> forall|j: int|
                0 <= j < old(self)@.len() && #[trigger] old(self)@[j].id@ == webhook.id@ ==> final(self)@ == old(self)@.update(j, webhook),
    {
        let ghost pre = self@;
        let n = self.webhooks.len();
        let mut i: usize = 0;
        while i < n
            invariant
                pre == old(self)@,
                n == self@.len(),
                self@ == pre,
                wf_webhooks(pre),
                i <= n,
                forall|j: int| 0 <= j < i ==> #[trigger] pre[j].id@ != webhook.id@,
            decreases n - i,
        {
            if str_eq_str(self.webhooks[i].id.as_str(), webhook.id.as_str()) {
                proof {
                    assert forall|k: int| 0 <= k < pre.len() && #[trigger] pre[k].id@
                        == webhook.id@ implies k == i by {
                        if k != i {
                            assert(pre[k].id@ != pre[i as int].id@);
                        }
                    }
                }
                self.webhooks.remove(i);
                self.webhooks.insert(i, webhook);
                proof {
                    assert(self@ =~= pre.update(i as int, self@[i as int]));
                    assert forall|a: int, b: int| 0 <= a < b < self@.len()
                        implies #[trigger] self@[a].id@ != #[trigger] self@[b].id@ by {
                        assert(pre[a].id@ != pre[b].id@);
                    }
                }
                return ;
            }
            i += 1;
        }
        self.webhooks.push(webhook);
        proof {
            assert forall|a: int, b: int| 0 <= a < b < self@.len()
                implies #[trigger] self@[a].id@ != #[trigger] self@[b].id@ by {
                if b < self@.len() - 1 {
                    assert(pre[a].id@ != pre[b].id@);
                } else {
                    assert(self@[a] == pre[a]);
                }
            }
        }
    }

    /// A point-in-time copy of every registered webhook.
    pub fn list_webhooks(&self) -> (r: Vec<Webhook>)
        ensures
            r@.len() == self@.len(),
            forall|j: int| 0 <= j < self@.len() ==> webhook_eq(#[trigger] r@[j], self@[j]),
    {
        let n = self.webhooks.len();
        let mut out: Vec<Webhook> = Vec::new();
        let mut i: usize = 0;
        while i < n
            invariant
                n == self@.len(),
                i <= n,
                out@.len() == i,
                forall|j: int| 0 <= j < i ==> webhook_eq(#[trigger] out@[j], self@[j]),
            decreases n - i,
        {
            out.push(self.webhooks[i].clone());
            i += 1;
        }
        out
    }

    /// The delivery address stored for an identifier, if any: what a trigger
    /// needs before posting.
    pub fn webhook_url(&self, id: &str) -> (r: Option<String>)
        ensures
            match r {
                Some(u) => exists|j: int|
                    0 <= j < self@.len() && #[trigger] self@[j].id@ == id@ && self@[j].url@ == u@,
                None => !spec_has_webhook(self@, id@),
            },
    {
        let n = self.webhooks.len();
        let mut i: usize = 0;
        while i < n
            invariant
                n == self@.len(),
                i <= n,
                forall|j: int| 0 <= j < i ==> #[trigger] self@[j].id@ != id@,
            decreases n - i,
        {
            if str_eq_str(self.webhooks[i].id.as_str(), id) {
                return Some(self.webhooks[i].url.clone());
            }
            i += 1;
        }
        None
    }
}

} // verus!
