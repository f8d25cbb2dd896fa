use vstd::prelude::*;

use crate::clock::now_secs;

verus! {

/// The kind of connection an [`Edge`] records. `NoType` marks an unset or
/// invalid kind; no construction path of this crate produces it.
#[derive(Clone, Copy, PartialEq, Eq, Structural, Debug)]
pub enum EdgeType {
    Directed,
    Undirected,
    NoType,
}

/// A single directed connection record between two node identifiers, carrying
/// a type tag, an optional weight, an optional label, a blocked flag and
/// creation/modification timestamps (seconds since the Unix epoch).
///
/// An undirected connection is represented by two `Edge` records sharing one
/// identifier, one owned by each endpoint node, each oriented from its owner
/// to the peer.
pub struct Edge {
    pub edge_id: String,
    pub edge_type: EdgeType,
    pub weight: Option<i64>,
    pub start_node_id: String,
    pub end_node_id: String,
    pub label: Option<String>,
    pub created_at: u64,
    pub updated_at: u64,
    pub blocked: bool,
}

/// One in-place update of a mutable edge field, as performed by the
/// corresponding setter.
pub enum EdgeSetter {
    Kind(EdgeType),
    Weight(i64),
    Label(String),
    Blocked(bool),
}

/// The edge value that one field setter leaves behind: exactly the named
/// field is replaced, every other field keeps its value.
pub open spec fn apply_setter(e: Edge, s: EdgeSetter) -> Edge {
    match s {
        EdgeSetter::Kind(t) => Edge { edge_type: t, ..e },
        EdgeSetter::Weight(w) => Edge { weight: Some(w), ..e },
        EdgeSetter::Label(l) => Edge { label: Some(l), ..e },
        EdgeSetter::Blocked(b) => Edge { blocked: b, ..e },
    }
}

/// The edge value left behind by a sequence of field setters, applied in
/// order.
pub open spec fn apply_setters(e: Edge, ss: Seq<EdgeSetter>) -> Edge
    decreases ss.len(),
{
    if ss.len() == 0 {
        e
    } else {
        apply_setter(apply_setters(e, ss.drop_last()), ss.last())
    }
}

impl Edge {
    /// Builds a fresh edge between the two given node identifiers. The type
    /// starts out `Undirected`, weight and label are absent, the edge is not
    /// blocked, and both timestamps hold the clock reading at construction.
    pub fn new(edge_id: String, start_node_id: String, end_node_id: String) -> (r: Edge)
        ensures
            r.edge_id == edge_id,
            r.start_node_id == start_node_id,
            r.end_node_id == end_node_id,
            r.edge_type == EdgeType::Undirected,
            r.weight is None,
            r.label is None,
            !r.blocked,
            r.created_at == r.updated_at,
    {
        let now = now_secs();
        Edge {
            edge_id,
            start_node_id,
            end_node_id,
            edge_type: EdgeType::Undirected,
            label: None,
            weight: None,
            created_at: now,
            updated_at: now,
            blocked: false,
        }
    }

    /// Returns the peer-side record of this edge: a copy with the two
    /// endpoint identifiers swapped and every other field preserved.
    pub fn reverse(&self) -> (r: Edge)
        ensures
            r.edge_id == self.edge_id,
            r.start_node_id == self.end_node_id,
            r.end_node_id == self.start_node_id,
            r.edge_type == self.edge_type,
            r.weight == self.weight,
            r.label == self.label,
            r.created_at == self.created_at,
            r.updated_at == self.updated_at,
            r.blocked == self.blocked,
    {
        Edge {
            edge_id: self.edge_id.clone(),
            edge_type: self.edge_type,
            weight: self.weight,
            start_node_id: self.end_node_id.clone(),
            end_node_id: self.start_node_id.clone(),
            label: (match &self.label {
                Some(s) => Some(s.clone()),
                None => None,
            }),
            created_at: self.created_at,
            updated_at: self.updated_at,
            blocked: self.blocked,
        }
    }

    pub fn set_start_node_id(&mut self, start_node_id: &str)
        ensures
            final(self).start_node_id@ == start_node_id@,
            *final(self) == (Edge { start_node_id: final(self).start_node_id, ..*old(self) }),
    {
        self.start_node_id = start_node_id.to_owned();
    }

    pub fn set_end_node_id(&mut self, end_node_id: &str)
        ensures
            final(self).end_node_id@ == end_node_id@,
            *final(self) == (Edge { end_node_id: final(self).end_node_id, ..*old(self) }),
    {
        self.end_node_id = end_node_id.to_owned();
    }

    pub fn get_start_node_id(&self) -> (r: &str)
        ensures
            r@ == self.start_node_id@,
    {
        self.start_node_id.as_str()
    }

    pub fn get_end_node_id(&self) -> (r: &str)
        ensures
            r@ == self.end_node_id@,
    {
        self.end_node_id.as_str()
    }

    pub fn get_type(&self) -> (r: EdgeType)
        ensures
            r == self.edge_type,
    {
        self.edge_type
    }

    pub fn set_type(&mut self, edge_type: EdgeType)
        ensures
            *final(self) == apply_setter(*old(self), EdgeSetter::Kind(edge_type)),
    {
        self.edge_type = edge_type;
    }

    pub fn get_weight(&self) -> (r: Option<i64>)
        ensures
            r == self.weight,
    {
        self.weight
    }

    /// Sets the weight; a weight once set can be overwritten but never
    /// removed again.
    pub fn set_weight(&mut self, weight: i64)
        ensures
            *final(self) == apply_setter(*old(self), EdgeSetter::Weight(weight)),
    {
        self.weight = Some(weight);
    }

    pub fn get_id(&self) -> (r: &str)
        ensures
            r@ == self.edge_id@,
    {
        self.edge_id.as_str()
    }

    pub fn set_id(&mut self, id: &str)
        ensures
            final(self).edge_id@ == id@,
            *final(self) == (Edge { edge_id: final(self).edge_id, ..*old(self) }),
    {
        self.edge_id = id.to_owned();
    }

    pub fn set_label(&mut self, label: &str)
        ensures
            final(self).label matches Some(l) && l@ == label@,
            *final(self) == (Edge { label: final(self).label, ..*old(self) }),
            exists|l: String|
                l@ == label@ && *final(self) == apply_setter(
                    *old(self),
                    EdgeSetter::Label(l),
                ),
    {
        self.label = Some(label.to_owned());
    }

    pub fn get_label(&self) -> (r: Option<&str>)
        ensures
            match self.label {
                Some(l) => r matches Some(s) && s@ == l@,
                None => r is None,
            },
    {
        match &self.label {
            Some(l) => Some(l.as_str()),
            None => None,
        }
    }

    pub fn is_blocked(&self) -> (r: bool)
        ensures
            r == self.blocked,
    {
        self.blocked
    }

    pub fn set_blocked(&mut self, blocked: bool)
        ensures
            *final(self) == apply_setter(*old(self), EdgeSetter::Blocked(blocked)),
    {
        self.blocked = blocked;
    }

    /// Applies one field setter, handed as a value.
    pub fn apply(&mut self, setter: EdgeSetter)
        ensures
            *final(self) == apply_setter(*old(self), setter),
    {
        match setter {
            EdgeSetter::Kind(t) => self.edge_type = t,
            EdgeSetter::Weight(w) => self.weight = Some(w),
            EdgeSetter::Label(l) => self.label = Some(l),
            EdgeSetter::Blocked(b) => self.blocked = b,
        }
    }

    pub fn get_creation_time(&self) -> (r: u64)
        ensures
            r == self.created_at,
    {
        self.created_at
    }

    pub fn get_modification_time(&self) -> (r: u64)
        ensures
            r == self.updated_at,
    {
        self.updated_at
    }

    /// Refreshes the modification timestamp from the clock. No other
    /// operation touches `updated_at`: data changes and timestamp refreshes
    /// are deliberately separate, and callers orchestrate both.
    pub fn set_modification_time(&mut self)
        ensures
            *final(self) == (Edge { updated_at: final(self).updated_at, ..*old(self) }),
    {
        self.updated_at = now_secs();
    }
}

/// Law: the field setters touch nothing but their own field. A sequence of
/// setter applications leaves the identifier, the endpoints and both
/// timestamps exactly as they were, and leaves each of the four settable
/// fields unchanged whenever the sequence contains no setter for it.
pub proof fn lemma_setters_touch_only_their_field(e: Edge, ss: Seq<EdgeSetter>)
    ensures
        apply_setters(e, ss).edge_id == e.edge_id,
        apply_setters(e, ss).start_node_id == e.start_node_id,
        apply_setters(e, ss).end_node_id == e.end_node_id,
        apply_setters(e, ss).created_at == e.created_at,
        apply_setters(e, ss).updated_at == e.updated_at,
        (forall|i: int| 0 <= i < ss.len() ==> !(ss[i] is Kind)) ==> apply_setters(e, ss).edge_type
            == e.edge_type,
        (forall|i: int| 0 <= i < ss.len() ==> !(ss[i] is Weight)) ==> apply_setters(e, ss).weight
            == e.weight,
        (forall|i: int| 0 <= i < ss.len() ==> !(ss[i] is Label)) ==> apply_setters(e, ss).label
            == e.label,
        (forall|i: int| 0 <= i < ss.len() ==> !(ss[i] is Blocked)) ==> apply_setters(e, ss).blocked
            == e.blocked,
    decreases ss.len(),
{
    if ss.len() > 0 {
        lemma_setters_touch_only_their_field(e, ss.drop_last());
    }
}

/// Law: the matching getter reflects the value most recently set. If the
/// setter at position `i` is the last one in the sequence that touches the
/// weight, the weight afterwards is exactly the value it carried; the same
/// holds for the type, the label and the blocked flag.
pub proof fn lemma_last_setter_wins(e: Edge, ss: Seq<EdgeSetter>, i: int)
    requires
        0 <= i < ss.len(),
        forall|j: int| i < j < ss.len() ==> !((ss[j] is Kind) == (ss[i] is Kind)
            && (ss[j] is Weight) == (ss[i] is Weight) && (ss[j] is Label) == (ss[i] is Label)
            && (ss[j] is Blocked) == (ss[i] is Blocked)),
    ensures
        ss[i] matches EdgeSetter::Kind(t) ==> apply_setters(e, ss).edge_type == t,
        ss[i] matches EdgeSetter::Weight(w) ==> apply_setters(e, ss).weight == Some(w),
        ss[i] matches EdgeSetter::Label(l) ==> apply_setters(e, ss).label == Some(l),
        ss[i] matches EdgeSetter::Blocked(b) ==> apply_setters(e, ss).blocked == b,
    decreases ss.len(),
{
    if i == ss.len() - 1 {
        assert(apply_setters(e, ss) == apply_setter(apply_setters(e, ss.drop_last()), ss.last()));
    } else {
        lemma_last_setter_wins(e, ss.drop_last(), i);
        assert(ss.drop_last()[i] == ss[i]);
    }
}

} // verus!
