use vstd::prelude::*;

use crate::clock::now_secs;
use crate::edge::Edge;
use crate::store::Store;

verus! {

/// The category of a node, fixed at construction; it determines which
/// payload variant the node carries.
#[derive(Clone, Copy, PartialEq, Eq, Structural, Debug)]
pub enum NodeType {
    /// A node with a central or structural role; it carries no payload.
    Primary,
    /// A node holding both text and binary entries.
    Data,
    /// A node holding text entries only.
    Text,
    /// A node holding binary entries only.
    Binary,
    /// The default category for a node outside every other one; it carries
    /// no payload.
    NoType,
}

impl Default for NodeType {
    fn default() -> (r: Self)
        ensures
            r == NodeType::NoType,
    {
        NodeType::NoType
    }
}

/// The display tag of a node type, as it appears inside minted node
/// identifiers.
pub open spec fn node_type_tag(t: NodeType) -> Seq<char> {
    match t {
        NodeType::Primary => "Primary"@,
        NodeType::Data => "Data"@,
        NodeType::Text => "Text"@,
        NodeType::Binary => "Binary"@,
        NodeType::NoType => "None"@,
    }
}

impl NodeType {
    /// The display tag of this node type.
    pub fn tag(&self) -> (r: &'static str)
        ensures
            r@ == node_type_tag(*self),
    {
        match *self {
            NodeType::Primary => "Primary",
            NodeType::Data => "Data",
            NodeType::Text => "Text",
            NodeType::Binary => "Binary",
            NodeType::NoType => "None",
        }
    }
}

/// The payload a node carries: text entries, binary entries, both, or none.
#[derive(Clone)]
pub enum NodeData {
    /// Text entries only.
    Text(Vec<String>),
    /// Binary entries only.
    Binary(Vec<Vec<u8>>),
    /// Both text and binary entries.
    Composite { text: Vec<String>, binary: Vec<Vec<u8>> },
    /// No payload at all.
    NoData,
}

/// The shape of a payload, without its contents.
#[derive(Clone, Copy, PartialEq, Eq, Structural, Debug)]
pub enum DataKind {
    Text,
    Binary,
    Composite,
    Absent,
}

/// One value to append to a node's payload: the kind of the value is fixed
/// at the call boundary, so a mismatch with the node's payload variant is an
/// explicit, reported error rather than a silent one.
pub enum DataValue {
    Text(String),
    Binary(Vec<u8>),
}

/// Why an append of payload data was rejected.
#[derive(Clone, Copy, PartialEq, Eq, Structural, Debug)]
pub enum DataError {
    /// The value's kind does not match the node's payload variant.
    WrongKind,
    /// The node's type carries no payload at all.
    NoPayload,
    /// No node with the given identifier is stored in the graph.
    NoSuchNode,
}

/// The shape of a payload value.
pub open spec fn data_kind(d: NodeData) -> DataKind {
    match d {
        NodeData::Text(_) => DataKind::Text,
        NodeData::Binary(_) => DataKind::Binary,
        NodeData::Composite { .. } => DataKind::Composite,
        NodeData::NoData => DataKind::Absent,
    }
}

/// The text entries of a payload, as character sequences.
pub open spec fn texts_of(d: NodeData) -> Seq<Seq<char>> {
    match d {
        NodeData::Text(v) => v.deep_view(),
        NodeData::Composite { text, .. } => text.deep_view(),
        _ => Seq::empty(),
    }
}

/// The binary entries of a payload, as byte sequences.
pub open spec fn bins_of(d: NodeData) -> Seq<Seq<u8>> {
    match d {
        NodeData::Binary(v) => v.deep_view(),
        NodeData::Composite { binary, .. } => binary.deep_view(),
        _ => Seq::empty(),
    }
}

/// Whether a payload accepts an appended value: text goes into text-only and
/// composite payloads, binary into binary-only and composite ones; a payload
/// of no shape accepts nothing.
pub open spec fn accepts(d: NodeData, v: DataValue) -> bool {
    match v {
        DataValue::Text(_) => data_kind(d) == DataKind::Text || data_kind(d)
            == DataKind::Composite,
        DataValue::Binary(_) => data_kind(d) == DataKind::Binary || data_kind(d)
            == DataKind::Composite,
    }
}

/// The payload shape that each node type carries from construction.
pub open spec fn kind_for_type(t: NodeType) -> DataKind {
    match t {
        NodeType::Primary => DataKind::Absent,
        NodeType::Data => DataKind::Composite,
        NodeType::Text => DataKind::Text,
        NodeType::Binary => DataKind::Binary,
        NodeType::NoType => DataKind::Absent,
    }
}

/// An identified vertex owning its outgoing edge records (keyed by edge
/// identifier) and one payload variant, with creation and modification
/// timestamps (seconds since the Unix epoch).
pub struct Node {
    pub id: String,
    pub node_type: NodeType,
    pub edges: Store<Edge>,
    pub data: NodeData,
    pub creation_time: u64,
    pub modification_time: u64,
}

impl Node {
    /// Builds a node of the given type under the given identifier, with no
    /// edges, the empty payload variant that the type prescribes, and both
    /// timestamps holding the clock reading at construction.
    pub fn new(node_type: NodeType, id: String) -> (r: Node)
        ensures
            r.id == id,
            r.node_type == node_type,
            r.edges@ == Map::<Seq<char>, Edge>::empty(),
            data_kind(r.data) == kind_for_type(node_type),
            texts_of(r.data) == Seq::<Seq<char>>::empty(),
            bins_of(r.data) == Seq::<Seq<u8>>::empty(),
            r.creation_time == r.modification_time,
    {
        let data = match node_type {
            NodeType::Primary => NodeData::NoData,
            NodeType::Data => NodeData::Composite { text: Vec::new(), binary: Vec::new() },
            NodeType::Text => NodeData::Text(Vec::new()),
            NodeType::Binary => NodeData::Binary(Vec::new()),
            NodeType::NoType => NodeData::NoData,
        };
        proof {
            assert(texts_of(data) =~= Seq::<Seq<char>>::empty());
            assert(bins_of(data) =~= Seq::<Seq<u8>>::empty());
        }
        let creation_time = now_secs();
        Node {
            node_type,
            id,
            edges: Store::new(),
            data,
            creation_time,
            modification_time: creation_time,
        }
    }

    /// Appends one value to the payload. The value lands in the matching
    /// list of a text-only, binary-only or composite payload; any other
    /// combination is rejected with the reason, and the node is unchanged.
    pub fn add_data(&mut self, value: DataValue) -> (r: Result<(), DataError>)
        ensures
            final(self).id == old(self).id,
            final(self).node_type == old(self).node_type,
            final(self).edges == old(self).edges,
            final(self).creation_time == old(self).creation_time,
            final(self).modification_time == old(self).modification_time,
            data_kind(final(self).data) == data_kind(old(self).data),
            r is Ok <==> accepts(old(self).data, value),
            !accepts(old(self).data, value) ==> final(self).data == old(self).data && r
                == Err::<(), DataError>(
                if data_kind(old(self).data) == DataKind::Absent {
                    DataError::NoPayload
                } else {
                    DataError::WrongKind
                },
            ),
            accepts(old(self).data, value) ==> match value {
                DataValue::Text(s) => texts_of(final(self).data) == texts_of(
                    old(self).data,
                ).push(s@) && bins_of(final(self).data) == bins_of(old(self).data),
                DataValue::Binary(b) => bins_of(final(self).data) == bins_of(
                    old(self).data,
                ).push(b@) && texts_of(final(self).data) == texts_of(old(self).data),
            },
    {
        let mut d = NodeData::NoData;
        std::mem::swap(&mut d, &mut self.data);
        let ghost d0 = d;
        match (d, value) {
            (NodeData::Text(mut ts), DataValue::Text(s)) => {
                let ghost sv = s@;
                ts.push(s);
                self.data = NodeData::Text(ts);
                proof {
                    assert(texts_of(self.data) =~~= texts_of(d0).push(sv));
                }
                Ok(())
            },
            (NodeData::Text(ts), DataValue::Binary(_)) => {
                self.data = NodeData::Text(ts);
                Err(DataError::WrongKind)
            },
            (NodeData::Binary(mut bs), DataValue::Binary(b)) => {
                let ghost bv = b@;
                bs.push(b);
                self.data = NodeData::Binary(bs);
                proof {
                    assert(bins_of(self.data) =~~= bins_of(d0).push(bv));
                }
                Ok(())
            },
            (NodeData::Binary(bs), DataValue::Text(_)) => {
                self.data = NodeData::Binary(bs);
                Err(DataError::WrongKind)
            },
            (NodeData::Composite { mut text, binary }, DataValue::Text(s)) => {
                let ghost sv = s@;
                text.push(s);
                self.data = NodeData::Composite { text, binary };
                proof {
                    assert(texts_of(self.data) =~~= texts_of(d0).push(sv));
                    assert(bins_of(self.data) =~~= bins_of(d0));
                }
                Ok(())
            },
            (NodeData::Composite { text, mut binary }, DataValue::Binary(b)) => {
                let ghost bv = b@;
                binary.push(b);
                self.data = NodeData::Composite { text, binary };
                proof {
                    assert(bins_of(self.data) =~~= bins_of(d0).push(bv));
                    assert(texts_of(self.data) =~~= texts_of(d0));
                }
                Ok(())
            },
            (NodeData::NoData, _) => {
                self.data = NodeData::NoData;
                Err(DataError::NoPayload)
            },
        }
    }

    pub fn get_type(&self) -> (r: &NodeType)
        ensures
            *r == self.node_type,
    {
        &self.node_type
    }

    pub fn get_id(&self) -> (r: &str)
        ensures
            r@ == self.id@,
    {
        self.id.as_str()
    }

    /// Looks up the owned edge record with the given identifier.
    pub fn get_edge(&self, edge_id: &str) -> (r: Option<&Edge>)
        ensures
            match r {
                Some(e) => self.edges@.contains_key(edge_id@) && *e == self.edges@[edge_id@],
                None => !self.edges@.contains_key(edge_id@),
            },
    {
        self.edges.get(edge_id)
    }

    /// Collects the owned edge records, or reports that there are none: an
    /// empty edge mapping and an absent collection are the same observable
    /// state.
    pub fn get_all_edges(&self) -> (r: Option<Vec<&Edge>>)
        ensures
            match r {
                None => self.edges@ == Map::<Seq<char>, Edge>::empty(),
                Some(v) => self.edges@ != Map::<Seq<char>, Edge>::empty() && v@.len()
                    == self.edges.spec_len() && (forall|i: int|
                    #![trigger v@[i]]
                    0 <= i < v@.len() ==> self.edges@.contains_value(*v@[i])) && (forall|
                    k: Seq<char>,
                |
                    #[trigger] self.edges@.contains_key(k) ==> exists|i: int|
                        0 <= i < v@.len() && *v@[i] == self.edges@[k]),
            },
    {
        if self.edges.is_empty() {
            None
        } else {
            let _ = self.edges.n_entries();
            let vs = self.edges.values();
            proof {
                assert forall|i: int|
                    #![trigger vs@[i]]
                    0 <= i < vs@.len() implies self.edges@.contains_value(*vs@[i]) by {
                    let k = self.edges.key_at(i);
                    assert(self.edges@.contains_key(k));
                    assert(self.edges@[k] == *vs@[i]);
                    assert(self.edges@.dom().contains(k) && self.edges@[k] == *vs@[i]);
                }
                assert forall|k: Seq<char>| #[trigger] self.edges@.contains_key(k) implies exists|
                    i: int,
                |
                    0 <= i < vs@.len() && *vs@[i] == self.edges@[k] by {
                    let i = choose|i: int|
                        0 <= i < self.edges.spec_len() && self.edges.key_at(i) == k;
                    assert(0 <= i < vs@.len() && *vs@[i] == self.edges@[k]);
                }
            }
            Some(vs)
        }
    }

    /// Inserts an edge record, keyed by the edge's own identifier at the
    /// time of insertion, overwriting any record under the same key. The
    /// edge's source endpoint is not checked against this node's identifier.
    pub fn add_edge(&mut self, edge: Edge)
        ensures
            final(self).edges@ == old(self).edges@.insert(edge.edge_id@, edge),
            *final(self) == (Node { edges: final(self).edges, ..*old(self) }),
    {
        let k = edge.edge_id.clone();
        self.edges.insert(k, edge);
    }

    /// Removes the edge record with the given identifier; absent identifiers
    /// leave the node unchanged.
    pub fn remove_edge(&mut self, edge_id: &str)
        ensures
            final(self).edges@ == old(self).edges@.remove(edge_id@),
            *final(self) == (Node { edges: final(self).edges, ..*old(self) }),
    {
        self.edges.remove(edge_id);
    }

    pub fn get_data(&self) -> (r: &NodeData)
        ensures
            *r == self.data,
    {
        &self.data
    }

    pub fn set_data(&mut self, data: NodeData)
        ensures
            final(self).data == data,
            *final(self) == (Node { data: final(self).data, ..*old(self) }),
    {
        self.data = data;
    }

    pub fn set_type(&mut self, node_type: NodeType)
        ensures
            final(self).node_type == node_type,
            *final(self) == (Node { node_type: node_type, ..*old(self) }),
    {
        self.node_type = node_type;
    }

    pub fn set_id(&mut self, id: String)
        ensures
            final(self).id == id,
            *final(self) == (Node { id: final(self).id, ..*old(self) }),
    {
        self.id = id;
    }

    pub fn get_creation_time(&self) -> (r: u64)
        ensures
            r == self.creation_time,
    {
        self.creation_time
    }

    pub fn get_modification_time(&self) -> (r: u64)
        ensures
            r == self.modification_time,
    {
        self.modification_time
    }

    /// Sets the modification timestamp. No mutation path updates it on its
    /// own: refreshing the timestamp is a separate, caller-driven step.
    pub fn set_modification_time(&mut self, modification_time: u64)
        ensures
            final(self).modification_time == modification_time,
            *final(self) == (Node { modification_time: modification_time, ..*old(self) }),
    {
        self.modification_time = modification_time;
    }
}

} // verus!
