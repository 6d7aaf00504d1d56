//! The remote-node registry: an in-memory store of remote build nodes keyed
//! by identifier. Health checks and remote execution are the caller's
//! concern.

use vstd::prelude::*;
use crate::strutil::str_eq_str;

verus! {

/// A remote build node, addressed as `user@host:port`.
pub struct RemoteNode {
    pub id: String,
    pub address: String,
    pub status: String,
}

/// Deep equality of two remote nodes.
pub open spec fn remote_node_eq(a: RemoteNode, b: RemoteNode) -> bool {
    a.id@ == b.id@ && a.address@ == b.address@ && a.status@ == b.status@
}

impl Clone for RemoteNode {
    fn clone(&self) -> (res: Self)
        ensures
            remote_node_eq(res, *self),
    {
        RemoteNode {
            id: self.id.clone(),
            address: self.address.clone(),
            status: self.status.clone(),
        }
    }
}

impl Default for RemoteNode {
    /// A node with every field empty.
    fn default() -> (r: Self)
        ensures
            r.id@ == Seq::<char>::empty(),
            r.address@ == Seq::<char>::empty(),
            r.status@ == Seq::<char>::empty(),
    {
        RemoteNode { id: String::new(), address: String::new(), status: String::new() }
    }
}

/// Some node in `nodes` carries this identifier.
pub open spec fn spec_has_remote(nodes: Seq<RemoteNode>, id: Seq<char>) -> bool {
    exists|j: int| 0 <= j < nodes.len() && #[trigger] nodes[j].id@ == id
}

/// Remote-node identifiers are pairwise distinct.
pub open spec fn wf_remotes(nodes: Seq<RemoteNode>) -> bool {
    forall|j: int, k: int|
        0 <= j < k < nodes.len() ==> #[trigger] nodes[j].id@ != #[trigger] nodes[k].id@
}

/// The in-memory remote-node store.
pub struct RemoteNodeManager {
    nodes: Vec<RemoteNode>,
}

impl View for RemoteNodeManager {
    type V = Seq<RemoteNode>;

    closed spec fn view(&self) -> Seq<RemoteNode> {
        self.nodes@
    }
}

impl Default for RemoteNodeManager {
    /// An empty store.
    fn default() -> (r: Self)
        ensures
            r@ == Seq::<RemoteNode>::empty(),
            wf_remotes(r@),
    {
        let r = RemoteNodeManager { nodes: Vec::new() };
        proof {
            assert(r@ =~= Seq::<RemoteNode>::empty());
        }
        r
    }
}

impl RemoteNodeManager {
    /// Stores a node under its identifier: a new identifier is appended, a
    /// known one has its entry replaced.
    pub fn add_remote_node(&mut self, node: RemoteNode)
        requires
            wf_remotes(old(self)@),
        ensures
            wf_remotes(final(self)@),
            !spec_has_remote(old(self)@, node.id@) ==> final(self)@ == old(self)@.push(node),
            spec_has_remote(old(self)@, node.id@) ==> forall|j: int|
                0 <= j < old(self)@.len() && #[trigger] old(self)@[j].id@ == node.id@ ==> final(self)@ == old(self)@.update(j, node),
    {
        let ghost pre = self@;
        let n = self.nodes.len();
        let mut i: usize = 0;
        while i < n
            invariant
                pre == old(self)@,
                n == self@.len(),
                self@ == pre,
                wf_remotes(pre),
                i <= n,
                forall|j: int| 0 <= j < i ==> #[trigger] pre[j].id@ != node.id@,
            decreases n - i,
        {
            if str_eq_str(self.nodes[i].id.as_str(), node.id.as_str()) {
                proof {
                    assert forall|k: int| 0 <= k < pre.len() && #[trigger] pre[k].id@ == node.id@
                        implies k == i by {
                        if k != i {
                            assert(pre[k].id@ != pre[i as int].id@);
                        }
                    }
                }
                self.nodes.remove(i);
                self.nodes.insert(i, node);
                proof {
                    assert(self@ =~= pre.update(i as int, self@[i as int]));
                    assert forall|a: int, b: int| 0 <= a < b < self@.len()
                        implies #[trigger] self@[a].id@ != #[trigger] self@[b].id@ by {
                        assert(pre[a].id@ != pre[b].id@);
                    }
                }
                return ;
            }
            i += 1;
        }
        self.nodes.push(node);
        proof {
            assert forall|a: int, b: int| 0 <= a < b < self@.len()
                implies #[trigger] self@[a].id@ != #[trigger] self@[b].id@ by {
                if b < self@.len() - 1 {
                    assert(pre[a].id@ != pre[b].id@);
                } else {
                    assert(self@[a] == pre[a]);
                }
            }
        }
    }

    /// A point-in-time copy of every registered remote node.
    pub fn list_remote_nodes(&self) -> (r: Vec<RemoteNode>)
        ensures
            r@.len() == self@.len(),
            forall|j: int| 0 <= j < self@.len() ==> remote_node_eq(#[trigger] r@[j], self@[j]),
    {
        let n = self.nodes.len();
        let mut out: Vec<RemoteNode> = Vec::new();
        let mut i: usize = 0;
        while i < n
            invariant
                n == self@.len(),
                i <= n,
                out@.len() == i,
                forall|j: int| 0 <= j < i ==> remote_node_eq(#[trigger] out@[j], self@[j]),
            decreases n - i,
        {
            out.push(self.nodes[i].clone());
            i += 1;
        }
        out
    }
}

} // verus!
