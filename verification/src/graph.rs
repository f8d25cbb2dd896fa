use vstd::prelude::*;
use vstd::string::StringExecFns;

use crate::edge::apply_setter;
use crate::edge::Edge;
use crate::edge::EdgeSetter;
use crate::edge::EdgeType;
use crate::ids::dec_rep;
use crate::ids::lemma_dec_rep_injective;
use crate::ids::lemma_dec_rep_no_underscore;
use crate::ids::lemma_prefixed_ids_differ;
use crate::ids::u64_to_dec;
use crate::node::bins_of;
use crate::node::data_kind;
use crate::node::kind_for_type;
use crate::node::node_type_tag;
use crate::node::texts_of;
use crate::node::DataError;
use crate::node::DataKind;
use crate::node::DataValue;
use crate::node::Node;
use crate::node::NodeType;
use crate::store::Store;

verus! {

/// The identifier minted for counter value `n` and a node type: the counter
/// in decimal, an underscore, then the type's display tag.
pub open spec fn node_id_seq(n: nat, t: NodeType) -> Seq<char> {
    dec_rep(n) + "_"@ + node_type_tag(t)
}

/// The shared identifier of the two records of an undirected connection.
pub open spec fn undirected_edge_id(a: Seq<char>, b: Seq<char>) -> Seq<char> {
    a + "_"@ + b + "_undirected"@
}

/// The identifier of a directed connection's single record.
pub open spec fn directed_edge_id(a: Seq<char>, b: Seq<char>) -> Seq<char> {
    a + "_"@ + b + "_directed"@
}

/// The two nodes agree on everything but their edge mappings.
pub open spec fn same_but_edges(a: Node, b: Node) -> bool {
    b.id == a.id && b.node_type == a.node_type && b.data == a.data && b.creation_time
        == a.creation_time && b.modification_time == a.modification_time
}

/// The two nodes agree on everything but their payloads.
pub open spec fn same_but_data(a: Node, b: Node) -> bool {
    b.id == a.id && b.node_type == a.node_type && b.edges == a.edges && b.creation_time
        == a.creation_time && b.modification_time == a.modification_time
}

/// A freshly built edge record: the given identifier, endpoints and type, no
/// weight, no label, not blocked, and both timestamps equal.
pub open spec fn fresh_edge(
    e: Edge,
    id: Seq<char>,
    from: Seq<char>,
    to: Seq<char>,
    t: EdgeType,
) -> bool {
    e.edge_id@ == id && e.start_node_id@ == from && e.end_node_id@ == to && e.edge_type == t
        && e.weight is None && e.label is None && !e.blocked && e.created_at == e.updated_at
}

/// Whether the node stored under `k` owns an edge record with identifier
/// `eid`.
pub open spec fn owns_edge(nodes: Map<Seq<char>, Node>, k: Seq<char>, eid: Seq<char>) -> bool {
    nodes.contains_key(k) && nodes[k].edges@.contains_key(eid)
}

/// Whether any stored node owns an edge record with identifier `eid`.
pub open spec fn some_node_owns(nodes: Map<Seq<char>, Node>, eid: Seq<char>) -> bool {
    exists|k: Seq<char>| owns_edge(nodes, k, eid)
}

/// How one edge mutation changes the graph: if no stored node owns a record
/// under `eid` nothing changes, otherwise exactly one owned record, on
/// exactly one owning node, has the setter applied. With the two mirror
/// records of an undirected connection this touches whichever record the
/// walk meets first and leaves the other one as it was.
pub open spec fn edge_updated(pre: Graph, post: Graph, eid: Seq<char>, setter: EdgeSetter) -> bool {
    &&& post.base_id == pre.base_id
    &&& post.root == pre.root
    &&& (!some_node_owns(pre.nodes@, eid) ==> post == pre)
    &&& (some_node_owns(pre.nodes@, eid) ==> exists|k: Seq<char>|
        #[trigger] owns_edge(pre.nodes@, k, eid) && post.nodes@ == pre.nodes@.insert(
            k,
            post.nodes@[k],
        ) && same_but_edges(pre.nodes@[k], post.nodes@[k]) && post.nodes@[k].edges@
            == pre.nodes@[k].edges@.insert(eid, apply_setter(pre.nodes@[k].edges@[eid], setter)))
}

/// The node mapping after removing the record `eid` from the nodes keyed by
/// `owners`: keys outside the mapping are skipped, every other node keeps
/// everything but that one record.
pub open spec fn edge_removed(
    pre: Map<Seq<char>, Node>,
    post: Map<Seq<char>, Node>,
    owners: Set<Seq<char>>,
    eid: Seq<char>,
) -> bool {
    &&& post.dom() == pre.dom()
    &&& forall|k: Seq<char>|
        #[trigger] pre.contains_key(k) ==> if owners.contains(k) {
            same_but_edges(pre[k], post[k]) && post[k].edges@ == pre[k].edges@.remove(eid)
        } else {
            post[k] == pre[k]
        }
}

fn make_node_id(n: u64, t: NodeType) -> (r: String)
    ensures
        r@ == node_id_seq(n as nat, t),
{
    let mut s = u64_to_dec(n);
    s.append("_");
    s.append(t.tag());
    s
}

fn make_undirected_id(a: &str, b: &str) -> (r: String)
    ensures
        r@ == undirected_edge_id(a@, b@),
{
    let mut s = a.to_owned();
    s.append("_");
    s.append(b);
    s.append("_undirected");
    s
}

fn make_directed_id(a: &str, b: &str) -> (r: String)
    ensures
        r@ == directed_edge_id(a@, b@),
{
    let mut s = a.to_owned();
    s.append("_");
    s.append(b);
    s.append("_directed");
    s
}

/// The aggregate owning all nodes by identifier, responsible for identifier
/// generation, node lifecycle and edge lifecycle. Edges are never held by
/// the graph itself: every edge record lives inside its owning node.
pub struct Graph {
    pub nodes: Store<Node>,
    pub base_id: u64,
    pub root: Option<Node>,
}

impl Graph {
    /// Builds an empty graph whose counter starts at one, holding a root
    /// node under the reserved identifier `"0_root"`. The root stands apart
    /// from the node mapping and takes no part in lookups unless a caller
    /// stores it explicitly.
    pub fn new() -> (r: Graph)
        ensures
            r.nodes@ == Map::<Seq<char>, Node>::empty(),
            r.base_id == 1,
            r.root matches Some(n) && n.id@ == "0_root"@ && n.node_type == NodeType::Primary
                && n.edges@ == Map::<Seq<char>, Edge>::empty() && data_kind(n.data)
                == DataKind::Absent,
    {
        let root_id: String = "0_root".to_owned();
        let root_node = Node::new(NodeType::Primary, root_id);
        Graph { nodes: Store::new(), base_id: 1, root: Some(root_node) }
    }

    /// Mints a node: allocates the next counter value, formats the
    /// identifier as the counter followed by an underscore and the type's
    /// tag, and hands back the constructed node without storing it. A node
    /// minted and never stored leaves its counter value skipped for good.
    pub fn create_node(&mut self, node_type: NodeType) -> (r: (Node, String))
        requires
            old(self).base_id < u64::MAX,
        ensures
            final(self).base_id == old(self).base_id + 1,
            final(self).nodes == old(self).nodes,
            final(self).root == old(self).root,
            r.1@ == node_id_seq(old(self).base_id as nat, node_type),
            r.0.id@ == r.1@,
            r.0.node_type == node_type,
            r.0.edges@ == Map::<Seq<char>, Edge>::empty(),
            data_kind(r.0.data) == kind_for_type(node_type),
            texts_of(r.0.data) == Seq::<Seq<char>>::empty(),
            bins_of(r.0.data) == Seq::<Seq<u8>>::empty(),
    {
        let id = make_node_id(self.base_id, node_type);
        self.base_id = self.base_id + 1;
        let id_out = id.clone();
        let node = Node::new(node_type, id);
        (node, id_out)
    }

    /// Stores a node, keyed by its own identifier; a node already stored
    /// under the same identifier is silently overwritten.
    pub fn add_node(&mut self, node: Node)
        ensures
            final(self).nodes@ == old(self).nodes@.insert(node.id@, node),
            final(self).base_id == old(self).base_id,
            final(self).root == old(self).root,
    {
        let k = node.id.clone();
        self.nodes.insert(k, node);
    }

    /// Looks a stored node up by identifier.
    pub fn get_node_by_id(&self, id: &str) -> (r: Option<&Node>)
        ensures
            match r {
                Some(n) => self.nodes@.contains_key(id@) && *n == self.nodes@[id@],
                None => !self.nodes@.contains_key(id@),
            },
    {
        self.nodes.get(id)
    }

    /// Appends a text value to the payload of the node with the given
    /// identifier. A missing node and a payload of the wrong shape are
    /// reported, and leave the graph unchanged.
    pub fn add_text_data(&mut self, node_id: &str, data: &str) -> (r: Result<(), DataError>)
        ensures
            final(self).base_id == old(self).base_id,
            final(self).root == old(self).root,
            !old(self).nodes@.contains_key(node_id@) ==> *final(self) == *old(self) && r
                == Err::<(), DataError>(DataError::NoSuchNode),
            old(self).nodes@.contains_key(node_id@) ==> ({
                let n0 = old(self).nodes@[node_id@];
                let n1 = final(self).nodes@[node_id@];
                &&& final(self).nodes@ == old(self).nodes@.insert(node_id@, n1)
                &&& same_but_data(n0, n1)
                &&& data_kind(n1.data) == data_kind(n0.data)
                &&& (r is Ok <==> (data_kind(n0.data) == DataKind::Text || data_kind(n0.data)
                    == DataKind::Composite))
                &&& (r is Ok ==> texts_of(n1.data) == texts_of(n0.data).push(data@) && bins_of(
                    n1.data,
                ) == bins_of(n0.data))
                &&& (!(r is Ok) ==> n1.data == n0.data && r == Err::<(), DataError>(
                    if data_kind(n0.data) == DataKind::Absent {
                        DataError::NoPayload
                    } else {
                        DataError::WrongKind
                    },
                ))
            }),
    {
        match self.nodes.take(node_id) {
            None => Err(DataError::NoSuchNode),
            Some((k, mut node)) => {
                let res = node.add_data(DataValue::Text(data.to_owned()));
                let ghost n1 = node;
                self.nodes.insert(k, node);
                proof {
                    assert(self.nodes@ =~= old(self).nodes@.insert(node_id@, n1));
                }
                res
            },
        }
    }

    /// Appends a binary value to the payload of the node with the given
    /// identifier. A missing node and a payload of the wrong shape are
    /// reported, and leave the graph unchanged.
    pub fn add_binary_data(&mut self, node_id: &str, data: Vec<u8>) -> (r: Result<(), DataError>)
        ensures
            final(self).base_id == old(self).base_id,
            final(self).root == old(self).root,
            !old(self).nodes@.contains_key(node_id@) ==> *final(self) == *old(self) && r
                == Err::<(), DataError>(DataError::NoSuchNode),
            old(self).nodes@.contains_key(node_id@) ==> ({
                let n0 = old(self).nodes@[node_id@];
                let n1 = final(self).nodes@[node_id@];
                &&& final(self).nodes@ == old(self).nodes@.insert(node_id@, n1)
                &&& same_but_data(n0, n1)
                &&& data_kind(n1.data) == data_kind(n0.data)
                &&& (r is Ok <==> (data_kind(n0.data) == DataKind::Binary || data_kind(n0.data)
                    == DataKind::Composite))
                &&& (r is Ok ==> bins_of(n1.data) == bins_of(n0.data).push(data@) && texts_of(
                    n1.data,
                ) == texts_of(n0.data))
                &&& (!(r is Ok) ==> n1.data == n0.data && r == Err::<(), DataError>(
                    if data_kind(n0.data) == DataKind::Absent {
                        DataError::NoPayload
                    } else {
                        DataError::WrongKind
                    },
                ))
            }),
    {
        match self.nodes.take(node_id) {
            None => Err(DataError::NoSuchNode),
            Some((k, mut node)) => {
                let res = node.add_data(DataValue::Binary(data));
                let ghost n1 = node;
                self.nodes.insert(k, node);
                proof {
                    assert(self.nodes@ =~= old(self).nodes@.insert(node_id@, n1));
                }
                res
            },
        }
    }

    /// Removes the node with the given identifier from the mapping. Edge
    /// records held by other nodes that point at the removed identifier are
    /// deliberately left in place: they dangle, and deleting a node does not
    /// cascade into its peers.
    pub fn delete_node(&mut self, node_id: &str)
        ensures
            final(self).nodes@ == old(self).nodes@.remove(node_id@),
            final(self).base_id == old(self).base_id,
            final(self).root == old(self).root,
    {
        self.nodes.remove(node_id);
    }

    /// Looks an edge up by identifier, walking all stored nodes and
    /// returning the first record met. Which record that is, when several
    /// nodes hold one under the same identifier (as the two mirror records
    /// of an undirected connection do), is left open.
    pub fn get_edge_by_id(&self, edge_id: &str) -> (r: Option<&Edge>)
        ensures
            match r {
                Some(e) => exists|k: Seq<char>|
                    #[trigger] owns_edge(self.nodes@, k, edge_id@) && *e
                        == self.nodes@[k].edges@[edge_id@],
                None => !some_node_owns(self.nodes@, edge_id@),
            },
    {
        let n = self.nodes.n_entries();
        let mut i: usize = 0;
        while i < n
            invariant
                n == self.nodes.spec_len(),
                i <= n,
                forall|ii: int|
                    0 <= ii < self.nodes.spec_len() ==> #[trigger] self.nodes@.contains_key(
                        self.nodes.key_at(ii),
                    ),
                forall|k: Seq<char>|
                    #[trigger] self.nodes@.contains_key(k) ==> exists|ii: int|
                        0 <= ii < self.nodes.spec_len() && self.nodes.key_at(ii) == k,
                forall|j: int|
                    0 <= j < i ==> !(#[trigger] self.nodes@[self.nodes.key_at(
                        j,
                    )]).edges@.contains_key(edge_id@),
            decreases n - i,
        {
            let (k, node) = self.nodes.entry_at(i);
            if let Some(e) = node.get_edge(edge_id) {
                proof {
                    assert(owns_edge(self.nodes@, k@, edge_id@));
                }
                return Some(e);
            }
            i += 1;
        }
        proof {
            assert forall|k: Seq<char>| #[trigger]
                self.nodes@.contains_key(k) implies !self.nodes@[k].edges@.contains_key(
                edge_id@,
            ) by {
                let ii = choose|ii: int|
                    0 <= ii < self.nodes.spec_len() && self.nodes.key_at(ii) == k;
                assert(!(self.nodes@[self.nodes.key_at(ii)]).edges@.contains_key(edge_id@));
            }
        }
        None
    }

    /// Collects all edge records of the node with the given identifier, or
    /// reports absence when the node is missing or holds no edges.
    pub fn get_all_edges_of_node(&self, node_id: &str) -> (r: Option<Vec<&Edge>>)
        ensures
            match r {
                None => !self.nodes@.contains_key(node_id@) || self.nodes@[node_id@].edges@
                    == Map::<Seq<char>, Edge>::empty(),
                Some(v) => self.nodes@.contains_key(node_id@) && ({
                    let node = self.nodes@[node_id@];
                    &&& node.edges@ != Map::<Seq<char>, Edge>::empty()
                    &&& v@.len() == node.edges.spec_len()
                    &&& (forall|i: int|
                        #![trigger v@[i]]
                        0 <= i < v@.len() ==> node.edges@.contains_value(*v@[i]))
                    &&& (forall|k: Seq<char>|
                        #[trigger] node.edges@.contains_key(k) ==> exists|i: int|
                            0 <= i < v@.len() && *v@[i] == node.edges@[k])
                }),
            },
    {
        match self.get_node_by_id(node_id) {
            None => None,
            Some(node) => node.get_all_edges(),
        }
    }

    /// Builds the two records of an undirected connection: one edge from
    /// `start_node_id` to `end_node_id` and its mirror with the endpoints
    /// swapped, sharing one identifier and one pair of timestamps. Each
    /// record lands in its endpoint's mapping; a missing endpoint silently
    /// loses its side, with no rollback of the other.
    pub fn add_undirected_edge(&mut self, start_node_id: &str, end_node_id: &str)
        ensures
            final(self).base_id == old(self).base_id,
            final(self).root == old(self).root,
            final(self).nodes@.dom() == old(self).nodes@.dom(),
            ({
                let eid = undirected_edge_id(start_node_id@, end_node_id@);
                &&& (forall|k: Seq<char>|
                    #[trigger] old(self).nodes@.contains_key(k) && k != start_node_id@ && k
                        != end_node_id@ ==> final(self).nodes@[k] == old(self).nodes@[k])
                &&& (!old(self).nodes@.contains_key(start_node_id@)
                    && !old(self).nodes@.contains_key(end_node_id@)
                    ==> *final(self) == *old(self))
                &&& (old(self).nodes@.contains_key(start_node_id@) ==> same_but_edges(
                    old(self).nodes@[start_node_id@],
                    final(self).nodes@[start_node_id@],
                ))
                &&& (old(self).nodes@.contains_key(end_node_id@) ==> same_but_edges(
                    old(self).nodes@[end_node_id@],
                    final(self).nodes@[end_node_id@],
                ))
                &&& (old(self).nodes@.contains_key(start_node_id@) && start_node_id@
                    != end_node_id@ ==> ({
                    let n1 = final(self).nodes@[start_node_id@];
                    n1.edges@ == old(self).nodes@[start_node_id@].edges@.insert(eid, n1.edges@[eid])
                        && fresh_edge(
                        n1.edges@[eid],
                        eid,
                        start_node_id@,
                        end_node_id@,
                        EdgeType::Undirected,
                    )
                }))
                &&& (old(self).nodes@.contains_key(end_node_id@) ==> ({
                    let n2 = final(self).nodes@[end_node_id@];
                    n2.edges@ == old(self).nodes@[end_node_id@].edges@.insert(eid, n2.edges@[eid])
                        && fresh_edge(
                        n2.edges@[eid],
                        eid,
                        end_node_id@,
                        start_node_id@,
                        EdgeType::Undirected,
                    )
                }))
                &&& (old(self).nodes@.contains_key(start_node_id@)
                    && old(self).nodes@.contains_key(end_node_id@) && start_node_id@
                    != end_node_id@ ==> ({
                    let ea = final(self).nodes@[start_node_id@].edges@[eid];
                    let eb = final(self).nodes@[end_node_id@].edges@[eid];
                    ea.created_at == eb.created_at && ea.updated_at == eb.updated_at
                }))
            }),
    {
        let edge_id = make_undirected_id(start_node_id, end_node_id);
        let edge = Edge::new(edge_id, start_node_id.to_owned(), end_node_id.to_owned());
        let reversed_edge = edge.reverse();
        let ghost m0 = self.nodes@;
        if let Some((k, mut start_node)) = self.nodes.take(start_node_id) {
            start_node.add_edge(edge);
            let ghost n1 = start_node;
            self.nodes.insert(k, start_node);
            proof {
                assert(self.nodes@ =~= m0.insert(start_node_id@, n1));
            }
        }
        let ghost m1 = self.nodes@;
        if let Some((k, mut end_node)) = self.nodes.take(end_node_id) {
            end_node.add_edge(reversed_edge);
            let ghost n2 = end_node;
            self.nodes.insert(k, end_node);
            proof {
                assert(self.nodes@ =~= m1.insert(end_node_id@, n2));
            }
        }
        proof {
            assert(self.nodes@.dom() =~= m0.dom());
        }
    }

    /// Builds the single record of a directed connection from
    /// `start_node_id` to `end_node_id` and stores it in the source node's
    /// mapping; the target node gets no record of it. A missing source node
    /// makes this a silent no-op.
    pub fn add_directed_edge(&mut self, start_node_id: &str, end_node_id: &str)
        ensures
            final(self).base_id == old(self).base_id,
            final(self).root == old(self).root,
            final(self).nodes@.dom() == old(self).nodes@.dom(),
            !old(self).nodes@.contains_key(start_node_id@) ==> *final(self) == *old(self),
            (forall|k: Seq<char>|
                #[trigger] old(self).nodes@.contains_key(k) && k != start_node_id@
                    ==> final(self).nodes@[k] == old(self).nodes@[k]),
            old(self).nodes@.contains_key(start_node_id@) ==> ({
                let eid = directed_edge_id(start_node_id@, end_node_id@);
                let n1 = final(self).nodes@[start_node_id@];
                &&& same_but_edges(old(self).nodes@[start_node_id@], n1)
                &&& n1.edges@ == old(self).nodes@[start_node_id@].edges@.insert(
                    eid,
                    n1.edges@[eid],
                )
                &&& fresh_edge(n1.edges@[eid], eid, start_node_id@, end_node_id@, EdgeType::Directed)
            }),
    {
        let edge_id = make_directed_id(start_node_id, end_node_id);
        let mut edge = Edge::new(edge_id, start_node_id.to_owned(), end_node_id.to_owned());
        edge.set_type(EdgeType::Directed);
        let ghost m0 = self.nodes@;
        if let Some((k, mut start_node)) = self.nodes.take(start_node_id) {
            start_node.add_edge(edge);
            let ghost n1 = start_node;
            self.nodes.insert(k, start_node);
            proof {
                assert(self.nodes@ =~= m0.insert(start_node_id@, n1));
            }
        }
        proof {
            assert(self.nodes@.dom() =~= m0.dom());
        }
    }

    fn find_owner(&self, edge_id: &str) -> (r: Option<String>)
        ensures
            match r {
                Some(k) => owns_edge(self.nodes@, k@, edge_id@),
                None => !some_node_owns(self.nodes@, edge_id@),
            },
    {
        let n = self.nodes.n_entries();
        let mut i: usize = 0;
        while i < n
            invariant
                n == self.nodes.spec_len(),
                i <= n,
                forall|ii: int|
                    0 <= ii < self.nodes.spec_len() ==> #[trigger] self.nodes@.contains_key(
                        self.nodes.key_at(ii),
                    ),
                forall|k: Seq<char>|
                    #[trigger] self.nodes@.contains_key(k) ==> exists|ii: int|
                        0 <= ii < self.nodes.spec_len() && self.nodes.key_at(ii) == k,
                forall|j: int|
                    0 <= j < i ==> !(#[trigger] self.nodes@[self.nodes.key_at(
                        j,
                    )]).edges@.contains_key(edge_id@),
            decreases n - i,
        {
            let (k, node) = self.nodes.entry_at(i);
            if node.get_edge(edge_id).is_some() {
                proof {
                    assert(owns_edge(self.nodes@, k@, edge_id@));
                }
                return Some(k.clone());
            }
            i += 1;
        }
        proof {
            assert forall|k: Seq<char>| #[trigger]
                self.nodes@.contains_key(k) implies !self.nodes@[k].edges@.contains_key(
                edge_id@,
            ) by {
                let ii = choose|ii: int|
                    0 <= ii < self.nodes.spec_len() && self.nodes.key_at(ii) == k;
                assert(!(self.nodes@[self.nodes.key_at(ii)]).edges@.contains_key(edge_id@));
            }
        }
        None
    }

    fn set_edge_field(&mut self, edge_id: &str, setter: EdgeSetter)
        ensures
            edge_updated(*old(self), *final(self), edge_id@, setter),
    {
        let owner = self.find_owner(edge_id);
        match owner {
            None => {},
            Some(owner_id) => {
                let taken = self.nodes.take(owner_id.as_str());
                match taken {
                    None => {
                        // the walk just found this node in the mapping
                        proof {
                            assert(false);
                        }
                    },
                    Some((nk, mut node)) => {
                        let taken_edge = node.edges.take(edge_id);
                        match taken_edge {
                            None => {
                                // the walk found the record on this very node
                                proof {
                                    assert(false);
                                }
                            },
                            Some((ek, mut e)) => {
                                e.apply(setter);
                                let ghost e1 = e;
                                node.edges.insert(ek, e);
                                let ghost n1 = node;
                                self.nodes.insert(nk, node);
                                proof {
                                    assert(n1.edges@ =~= old(self).nodes@[owner_id@]
                                        .edges@.insert(edge_id@, e1));
                                    assert(self.nodes@ =~= old(self).nodes@.insert(owner_id@, n1));
                                    assert(owns_edge(old(self).nodes@, owner_id@, edge_id@));
                                }
                            },
                        }
                    },
                }
            },
        }
    }

    /// Rewrites the type tag of the first record found under the given edge
    /// identifier; with an undirected connection's mirror pair the other
    /// record keeps its tag (a documented asymmetry of mutation by
    /// identifier). An unknown identifier is a silent no-op.
    pub fn set_edge_type(&mut self, edge_id: &str, edge_type: EdgeType)
        ensures
            edge_updated(*old(self), *final(self), edge_id@, EdgeSetter::Kind(edge_type)),
    {
        self.set_edge_field(edge_id, EdgeSetter::Kind(edge_type));
    }

    /// Sets the weight of the first record found under the given edge
    /// identifier, overwriting any weight it had; the mirror record of an
    /// undirected connection keeps its own. An unknown identifier is a
    /// silent no-op.
    pub fn set_edge_weight(&mut self, edge_id: &str, weight: i64)
        ensures
            edge_updated(*old(self), *final(self), edge_id@, EdgeSetter::Weight(weight)),
    {
        self.set_edge_field(edge_id, EdgeSetter::Weight(weight));
    }

    /// Sets the label of the first record found under the given edge
    /// identifier; the mirror record of an undirected connection keeps its
    /// own. An unknown identifier is a silent no-op.
    pub fn set_ege_label(&mut self, edge_id: &str, label: &str)
        ensures
            exists|l: String|
                #![auto]
                l@ == label@ && edge_updated(
                    *old(self),
                    *final(self),
                    edge_id@,
                    EdgeSetter::Label(l),
                ),
    {
        let l = label.to_owned();
        let ghost lv = l;
        self.set_edge_field(edge_id, EdgeSetter::Label(l));
        proof {
            assert(lv@ == label@ && edge_updated(
                *old(self),
                *self,
                edge_id@,
                EdgeSetter::Label(lv),
            ));
        }
    }

    /// Sets the blocked flag of the first record found under the given edge
    /// identifier; the mirror record of an undirected connection keeps its
    /// own. An unknown identifier is a silent no-op.
    pub fn set_edge_blocked(&mut self, edge_id: &str, blocked: bool)
        ensures
            edge_updated(*old(self), *final(self), edge_id@, EdgeSetter::Blocked(blocked)),
    {
        self.set_edge_field(edge_id, EdgeSetter::Blocked(blocked));
    }

    fn remove_edge_from(&mut self, node_id: &str, edge_id: &str)
        ensures
            final(self).base_id == old(self).base_id,
            final(self).root == old(self).root,
            final(self).nodes@.dom() == old(self).nodes@.dom(),
            !old(self).nodes@.contains_key(node_id@) ==> *final(self) == *old(self),
            old(self).nodes@.contains_key(node_id@) ==> final(self).nodes@
                == old(self).nodes@.insert(node_id@, final(self).nodes@[node_id@]) && same_but_edges(
                old(self).nodes@[node_id@],
                final(self).nodes@[node_id@],
            ) && final(self).nodes@[node_id@].edges@ == old(self).nodes@[node_id@].edges@.remove(
                edge_id@,
            ),
    {
        let ghost m0 = self.nodes@;
        match self.nodes.take(node_id) {
            None => {},
            Some((k, mut node)) => {
                node.remove_edge(edge_id);
                let ghost n1 = node;
                self.nodes.insert(k, node);
                proof {
                    assert(self.nodes@ =~= m0.insert(node_id@, n1));
                    assert(self.nodes@.dom() =~= m0.dom());
                }
            },
        }
        proof {
            assert(self.nodes@.dom() =~= m0.dom());
        }
    }

    fn delete_undirected_edge(&mut self, edge_id: &str, start_node_id: &str, end_node_id: &str)
        ensures
            final(self).base_id == old(self).base_id,
            final(self).root == old(self).root,
            edge_removed(
                old(self).nodes@,
                final(self).nodes@,
                set![start_node_id@, end_node_id@],
                edge_id@,
            ),
    {
        let ghost m0 = self.nodes@;
        self.remove_edge_from(start_node_id, edge_id);
        let ghost m1 = self.nodes@;
        self.remove_edge_from(end_node_id, edge_id);
        proof {
            let owners = set![start_node_id@, end_node_id@];
            assert(self.nodes@.dom() =~= m0.dom());
            assert forall|k: Seq<char>| #[trigger] m0.contains_key(k) implies (if owners.contains(
                k,
            ) {
                same_but_edges(m0[k], self.nodes@[k]) && self.nodes@[k].edges@
                    == m0[k].edges@.remove(edge_id@)
            } else {
                self.nodes@[k] == m0[k]
            }) by {
                if k == start_node_id@ && k == end_node_id@ {
                    assert(self.nodes@[k].edges@ =~= m0[k].edges@.remove(edge_id@));
                } else if k == start_node_id@ {
                    assert(m1[k] == self.nodes@[k]);
                } else if k == end_node_id@ {
                    assert(m1[k] == m0[k]);
                } else {
                    assert(m1[k] == m0[k]);
                    assert(self.nodes@[k] == m1[k]);
                }
            }
        }
    }

    fn delete_directed_edge(&mut self, edge_id: &str, start_node_id: &str)
        ensures
            final(self).base_id == old(self).base_id,
            final(self).root == old(self).root,
            edge_removed(old(self).nodes@, final(self).nodes@, set![start_node_id@], edge_id@),
    {
        let ghost m0 = self.nodes@;
        self.remove_edge_from(start_node_id, edge_id);
        proof {
            let owners = set![start_node_id@];
            assert(self.nodes@.dom() =~= m0.dom());
            assert forall|k: Seq<char>| #[trigger] m0.contains_key(k) implies (if owners.contains(
                k,
            ) {
                same_but_edges(m0[k], self.nodes@[k]) && self.nodes@[k].edges@
                    == m0[k].edges@.remove(edge_id@)
            } else {
                self.nodes@[k] == m0[k]
            }) by {
                if k == start_node_id@ {
                } else {
                    assert(self.nodes@[k] == m0[k]);
                }
            }
        }
    }

    /// Deletes an edge by identifier, dispatching on the type tag of the
    /// first record found: an undirected record is removed from both of its
    /// endpoints' mappings, a directed one only from its source's, and a
    /// record without a type is left alone. An unknown identifier is a
    /// silent no-op.
    pub fn delete_edge(&mut self, edge_id: &str)
        ensures
            final(self).base_id == old(self).base_id,
            final(self).root == old(self).root,
            !some_node_owns(old(self).nodes@, edge_id@) ==> *final(self) == *old(self),
            some_node_owns(old(self).nodes@, edge_id@) ==> exists|k: Seq<char>|
                #[trigger] owns_edge(old(self).nodes@, k, edge_id@) && ({
                    let e = old(self).nodes@[k].edges@[edge_id@];
                    match e.edge_type {
                        EdgeType::NoType => *final(self) == *old(self),
                        EdgeType::Directed => edge_removed(
                            old(self).nodes@,
                            final(self).nodes@,
                            set![e.start_node_id@],
                            edge_id@,
                        ),
                        EdgeType::Undirected => edge_removed(
                            old(self).nodes@,
                            final(self).nodes@,
                            set![e.start_node_id@, e.end_node_id@],
                            edge_id@,
                        ),
                    }
                }),
    {
        let found = self.find_edge_info(edge_id);
        match found {
            None => {},
            Some((t, start_id, end_id)) => {
                match t {
                    EdgeType::Undirected => {
                        self.delete_undirected_edge(edge_id, start_id.as_str(), end_id.as_str());
                    },
                    EdgeType::Directed => {
                        self.delete_directed_edge(edge_id, start_id.as_str());
                    },
                    EdgeType::NoType => {},
                }
            },
        }
    }

    fn find_edge_info(&self, edge_id: &str) -> (r: Option<(EdgeType, String, String)>)
        ensures
            match r {
                Some(info) => exists|k: Seq<char>|
                    #[trigger] owns_edge(self.nodes@, k, edge_id@) && ({
                        let e = self.nodes@[k].edges@[edge_id@];
                        info.0 == e.edge_type && info.1@ == e.start_node_id@ && info.2@
                            == e.end_node_id@
                    }),
                None => !some_node_owns(self.nodes@, edge_id@),
            },
    {
        match self.get_edge_by_id(edge_id) {
            None => None,
            Some(e) => {
                let info = (e.get_type(), e.get_start_node_id().to_owned(),
                e.get_end_node_id().to_owned());
                proof {
                    let k = choose|k: Seq<char>|
                        #[trigger] owns_edge(self.nodes@, k, edge_id@) && *e
                            == self.nodes@[k].edges@[edge_id@];
                    assert(owns_edge(self.nodes@, k, edge_id@));
                }
                Some(info)
            },
        }
    }
}

/// Law: identifiers minted for distinct counter values never collide,
/// whatever node types they carry: the counter, written in decimal, runs to
/// the first underscore of the identifier. Minting increments the counter
/// and never reuses a value, so an identifier handed out once is never
/// handed out again by the same graph.
pub proof fn lemma_minted_ids_injective(n1: nat, t1: NodeType, n2: nat, t2: NodeType)
    requires
        n1 != n2,
    ensures
        node_id_seq(n1, t1) != node_id_seq(n2, t2),
{
    lemma_dec_rep_injective(n1, n2);
    lemma_dec_rep_no_underscore(n1);
    lemma_dec_rep_no_underscore(n2);
    lemma_prefixed_ids_differ(dec_rep(n1), node_type_tag(t1), dec_rep(n2), node_type_tag(t2));
}

/// Law: deleting one node leaves every other stored node, with all of its
/// edges, exactly as it was, while lookups of the deleted identifier report
/// absence.
pub proof fn lemma_delete_node_preserves_others(
    nodes: Map<Seq<char>, Node>,
    deleted: Seq<char>,
    other: Seq<char>,
)
    requires
        nodes.contains_key(other),
        other != deleted,
    ensures
        !nodes.remove(deleted).contains_key(deleted),
        nodes.remove(deleted).contains_key(other),
        nodes.remove(deleted)[other] == nodes[other],
{
}

} // verus!
