//! The collaboration graph manager: a bounded-degree graph of collaborators
//! per document, updated only through guarded, all-or-nothing commits.
//!
//! The degree table mirrors the coordination store; `sync_degree` lets the
//! surrounding program refresh it from the store, and `add_collaboration`
//! commits an edge only under the degree-bound precondition, re-checked
//! against the table at commit time.

use vstd::prelude::*;
use vstd::string::StringExecFns;

use crate::errors::FileverseError;
use crate::wire::str_eq;

verus! {

/// The default bound on a collaborator's degree in one document.
pub const MAX_COLLABORATORS: u32 = 8;

/// One collaborator's degree within one document.
#[derive(Debug, Clone)]
pub struct DegreeEntry {
    pub doc_id: String,
    pub node_id: String,
    pub degree: u32,
}

/// One committed collaboration edge.
#[derive(Debug, Clone)]
pub struct EdgeRecord {
    pub doc_id: String,
    pub from: String,
    pub to: String,
    pub collaboration_type: String,
}

/// The degree the table holds for a document/collaborator pair: the first
/// matching entry, or zero when none is held.
pub open spec fn spec_degree_in(entries: Seq<DegreeEntry>, doc: Seq<char>, node: Seq<char>)
    -> u32
    decreases entries.len(),
{
    if entries.len() == 0 {
        0u32
    } else if entries[0].doc_id@ == doc && entries[0].node_id@ == node {
        entries[0].degree
    } else {
        spec_degree_in(entries.drop_first(), doc, node)
    }
}

/// The mathematical values of the committed edges.
pub open spec fn edge_records_view(s: Seq<EdgeRecord>)
    -> Seq<(Seq<char>, Seq<char>, Seq<char>, Seq<char>)> {
    s.map_values(|e: EdgeRecord| (e.doc_id@, e.from@, e.to@, e.collaboration_type@))
}

/// The collaboration types the graph accepts.
pub open spec fn spec_valid_type(ty: Seq<char>) -> bool {
    ty == "edit"@ || ty == "comment"@ || ty == "review"@
}

/// A pair's degree with the bumps of earlier commits overlaid on the graph.
pub open spec fn overlaid_degree(g: CollaborativeGraph, doc: Seq<char>,
    bumped: Map<Seq<char>, u32>, node: Seq<char>) -> u32 {
    if bumped.dom().contains(node) {
        bumped[node]
    } else {
        g.spec_degree(doc, node)
    }
}

/// Whether a run of edges commits in order under the degree bound, starting
/// from the graph with `bumped` overlaid.
pub open spec fn edges_admissible_from(g: CollaborativeGraph, doc: Seq<char>,
    bumped: Map<Seq<char>, u32>, edges: Seq<crate::document::EdgeView>) -> bool
    decreases edges.len(),
{
    if edges.len() == 0 {
        true
    } else {
        let e = edges[0];
        let df = overlaid_degree(g, doc, bumped, e.from);
        let dt = overlaid_degree(g, doc, bumped, e.to);
        &&& spec_valid_type(e.collaboration_type)
        &&& df < g.spec_max()
        &&& dt < g.spec_max()
        &&& edges_admissible_from(g, doc, bumped.insert(e.from, (df + 1) as u32).insert(
            e.to, (dt + 1) as u32), edges.drop_first())
    }
}

/// Whether a document's edges all commit in order under the degree bound.
pub open spec fn spec_edges_admissible(g: CollaborativeGraph, doc: Seq<char>,
    edges: Seq<crate::document::EdgeView>) -> bool {
    edges_admissible_from(g, doc, Map::<Seq<char>, u32>::empty(), edges)
}

/// Skipping entries that do not match leaves the looked-up degree unchanged.
proof fn lemma_degree_skip(entries: Seq<DegreeEntry>, i: int, doc: Seq<char>,
    node: Seq<char>)
    requires
        0 <= i <= entries.len(),
        forall|j: int| 0 <= j < i ==> !((#[trigger] entries[j]).doc_id@ == doc
            && entries[j].node_id@ == node),
    ensures
        spec_degree_in(entries, doc, node) == spec_degree_in(entries.skip(i), doc, node),
    decreases i,
{
    if i > 0 {
        assert(entries.drop_first().skip(i - 1) =~= entries.skip(i));
        assert forall|j: int| 0 <= j < i - 1 implies !((#[trigger]
            entries.drop_first()[j]).doc_id@ == doc && entries.drop_first()[j].node_id@
            == node) by {
            assert(entries.drop_first()[j] == entries[j + 1]);
        };
        lemma_degree_skip(entries.drop_first(), i - 1, doc, node);
    } else {
        assert(entries.skip(0) =~= entries);
    }
}

/// Updating the first matching entry sets exactly that pair's degree.
proof fn lemma_degree_update(entries: Seq<DegreeEntry>, i: int, e2: DegreeEntry,
    d2: Seq<char>, n2: Seq<char>)
    requires
        0 <= i < entries.len(),
        entries[i].doc_id@ == e2.doc_id@,
        entries[i].node_id@ == e2.node_id@,
        forall|j: int| 0 <= j < i ==> !((#[trigger] entries[j]).doc_id@ == e2.doc_id@
            && entries[j].node_id@ == e2.node_id@),
    ensures
        spec_degree_in(entries.update(i, e2), e2.doc_id@, e2.node_id@) == e2.degree,
        !(d2 == e2.doc_id@ && n2 == e2.node_id@) ==> spec_degree_in(entries.update(i, e2),
            d2, n2) == spec_degree_in(entries, d2, n2),
    decreases i,
{
    if i == 0 {
        assert(entries.update(0, e2)[0] == e2);
        assert(entries.update(0, e2).drop_first() =~= entries.drop_first());
    } else {
        assert(entries.update(i, e2)[0] == entries[0]);
        assert(entries.update(i, e2).drop_first() =~= entries.drop_first().update(i - 1,
            e2));
        assert(entries.drop_first()[i - 1] == entries[i]);
        assert forall|j: int| 0 <= j < i - 1 implies !((#[trigger]
            entries.drop_first()[j]).doc_id@ == e2.doc_id@
            && entries.drop_first()[j].node_id@ == e2.node_id@) by {
            assert(entries.drop_first()[j] == entries[j + 1]);
        };
        lemma_degree_update(entries.drop_first(), i - 1, e2, d2, n2);
    }
}

/// Appending an entry for a pair the table does not hold sets exactly that
/// pair's degree.
proof fn lemma_degree_push(entries: Seq<DegreeEntry>, e: DegreeEntry, d2: Seq<char>,
    n2: Seq<char>)
    requires
        forall|j: int| 0 <= j < entries.len() ==> !((#[trigger] entries[j]).doc_id@
            == e.doc_id@ && entries[j].node_id@ == e.node_id@),
    ensures
        spec_degree_in(entries.push(e), e.doc_id@, e.node_id@) == e.degree,
        !(d2 == e.doc_id@ && n2 == e.node_id@) ==> spec_degree_in(entries.push(e), d2, n2)
            == spec_degree_in(entries, d2, n2),
    decreases entries.len(),
{
    if entries.len() == 0 {
        assert(entries.push(e)[0] == e);
        assert(entries.push(e).drop_first() =~= Seq::<DegreeEntry>::empty());
        assert(spec_degree_in(Seq::<DegreeEntry>::empty(), e.doc_id@, e.node_id@) == 0);
        assert(spec_degree_in(Seq::<DegreeEntry>::empty(), d2, n2) == 0);
        assert(spec_degree_in(entries, d2, n2) == 0);
    } else {
        assert(entries.push(e)[0] == entries[0]);
        assert(entries.push(e).drop_first() =~= entries.drop_first().push(e));
        assert forall|j: int| 0 <= j < entries.drop_first().len() implies !((#[trigger]
            entries.drop_first()[j]).doc_id@ == e.doc_id@
            && entries.drop_first()[j].node_id@ == e.node_id@) by {
            assert(entries.drop_first()[j] == entries[j + 1]);
        };
        assert(!(entries[0].doc_id@ == e.doc_id@ && entries[0].node_id@ == e.node_id@));
        lemma_degree_push(entries.drop_first(), e, d2, n2);
    }
}

/// The bounded-degree collaboration graph of every document.
pub struct CollaborativeGraph {
    degrees: Vec<DegreeEntry>,
    edges: Vec<EdgeRecord>,
    max_collaborators: u32,
}

impl CollaborativeGraph {
    /// The degree held for a document/collaborator pair.
    pub closed spec fn spec_degree(&self, doc: Seq<char>, node: Seq<char>) -> u32 {
        spec_degree_in(self.degrees@, doc, node)
    }

    pub closed spec fn spec_max(&self) -> u32 {
        self.max_collaborators
    }

    pub closed spec fn spec_edges(&self)
        -> Seq<(Seq<char>, Seq<char>, Seq<char>, Seq<char>)> {
        edge_records_view(self.edges@)
    }

    pub closed spec fn spec_entries(&self) -> Seq<DegreeEntry> {
        self.degrees@
    }

    /// Every held degree respects the bound.
    pub open spec fn bounded(&self) -> bool {
        forall|i: int| 0 <= i < self.spec_entries().len()
            ==> (#[trigger] self.spec_entries()[i]).degree <= self.spec_max()
    }

    /// A fresh graph with the default degree bound and nothing committed.
    pub fn new() -> (r: Self)
        ensures
            r.spec_max() == MAX_COLLABORATORS,
            r.spec_entries() == Seq::<DegreeEntry>::empty(),
            r.spec_edges().len() == 0,
            r.bounded(),
    {
        CollaborativeGraph {
            degrees: Vec::new(),
            edges: Vec::new(),
            max_collaborators: MAX_COLLABORATORS,
        }
    }

    /// The index of the first entry for a pair, when the table holds one.
    fn find_degree_index(&self, doc_id: &str, collaborator: &str) -> (r: Option<usize>)
        ensures
            r matches Some(i) ==> {
                &&& i < self.spec_entries().len()
                &&& self.spec_entries()[i as int].doc_id@ == doc_id@
                &&& self.spec_entries()[i as int].node_id@ == collaborator@
                &&& forall|j: int| 0 <= j < i ==> !((#[trigger]
                    self.spec_entries()[j]).doc_id@ == doc_id@
                    && self.spec_entries()[j].node_id@ == collaborator@)
            },
            r is None ==> forall|j: int| 0 <= j < self.spec_entries().len()
                ==> !((#[trigger] self.spec_entries()[j]).doc_id@ == doc_id@
                    && self.spec_entries()[j].node_id@ == collaborator@),
    {
        let n = self.degrees.len();
        let mut i: usize = 0;
        while i < n
            invariant
                n == self.spec_entries().len(),
                i <= n,
                forall|j: int| 0 <= j < i ==> !((#[trigger] self.spec_entries()[j]).doc_id@
                    == doc_id@ && self.spec_entries()[j].node_id@ == collaborator@),
            decreases n - i,
        {
            let entry = &self.degrees[i];
            if str_eq(entry.doc_id.as_str(), doc_id) && str_eq(entry.node_id.as_str(),
                collaborator) {
                return Some(i);
            }
            i = i + 1;
        }
        None
    }

    /// Reads a collaborator's degree for a document.
    pub fn get_collaborator_degree(&self, doc_id: &str, collaborator: &str) -> (r: u32)
        ensures
            r == self.spec_degree(doc_id@, collaborator@),
    {
        match self.find_degree_index(doc_id, collaborator) {
            Some(i) => {
                proof {
                    assert forall|j: int| 0 <= j < i implies !((#[trigger]
                        self.degrees@[j]).doc_id@ == doc_id@
                        && self.degrees@[j].node_id@ == collaborator@) by {
                        assert(self.degrees@[j] == self.spec_entries()[j]);
                    };
                    lemma_degree_skip(self.degrees@, i as int, doc_id@, collaborator@);
                    assert(self.degrees@.skip(i as int)[0] == self.degrees@[i as int]);
                }
                self.degrees[i].degree
            },
            None => {
                proof {
                    assert forall|j: int| 0 <= j < self.degrees@.len() implies !((#[trigger]
                        self.degrees@[j]).doc_id@ == doc_id@
                        && self.degrees@[j].node_id@ == collaborator@) by {
                        assert(self.degrees@[j] == self.spec_entries()[j]);
                    };
                    lemma_degree_skip(self.degrees@, self.degrees@.len() as int, doc_id@,
                        collaborator@);
                    assert(self.degrees@.skip(self.degrees@.len() as int)
                        =~= Seq::<DegreeEntry>::empty());
                }
                0
            },
        }
    }

    /// Installs a degree observed in the coordination store, replacing what
    /// the table holds for exactly that pair.
    pub fn sync_degree(&mut self, doc_id: &str, collaborator: &str, degree: u32)
        ensures
            final(self).spec_max() == old(self).spec_max(),
            final(self).spec_edges() == old(self).spec_edges(),
            final(self).spec_degree(doc_id@, collaborator@) == degree,
            forall|d2: Seq<char>, n2: Seq<char>| !(d2 == doc_id@ && n2 == collaborator@)
                ==> #[trigger] final(self).spec_degree(d2, n2)
                    == old(self).spec_degree(d2, n2),
            old(self).bounded() && degree <= old(self).spec_max() ==> final(self).bounded(),
    {
        let entry = DegreeEntry {
            doc_id: String::from_str(doc_id),
            node_id: String::from_str(collaborator),
            degree,
        };
        match self.find_degree_index(doc_id, collaborator) {
            Some(i) => {
                proof {
                    assert forall|j: int| 0 <= j < i implies !((#[trigger]
                        self.degrees@[j]).doc_id@ == entry.doc_id@
                        && self.degrees@[j].node_id@ == entry.node_id@) by {
                        assert(self.degrees@[j] == self.spec_entries()[j]);
                    };
                    assert forall|d2: Seq<char>, n2: Seq<char>| true implies
                        spec_degree_in(self.degrees@.update(i as int, entry), d2, n2)
                            == (if d2 == doc_id@ && n2 == collaborator@ { degree } else {
                            spec_degree_in(self.degrees@, d2, n2) }) by {
                        lemma_degree_update(self.degrees@, i as int, entry, d2, n2);
                    };
                }
                let slot = vstd::std_specs::vec::vec_index_mut(&mut self.degrees, i);
                *slot = entry;
            },
            None => {
                proof {
                    assert forall|j: int| 0 <= j < self.degrees@.len() implies !((#[trigger]
                        self.degrees@[j]).doc_id@ == entry.doc_id@
                        && self.degrees@[j].node_id@ == entry.node_id@) by {
                        assert(self.degrees@[j] == self.spec_entries()[j]);
                    };
                    assert forall|d2: Seq<char>, n2: Seq<char>| true implies
                        spec_degree_in(self.degrees@.push(entry), d2, n2)
                            == (if d2 == doc_id@ && n2 == collaborator@ { degree } else {
                            spec_degree_in(self.degrees@, d2, n2) }) by {
                        lemma_degree_push(self.degrees@, entry, d2, n2);
                    };
                }
                self.degrees.push(entry);
            },
        }
        proof {
            if old(self).bounded() && degree <= old(self).spec_max() {
                assert forall|k: int| 0 <= k < self.spec_entries().len() implies
                    (#[trigger] self.spec_entries()[k]).degree <= self.spec_max() by {
                    if 0 <= k < old(self).spec_entries().len() {
                        assert(old(self).spec_entries()[k].degree <= old(self).spec_max());
                    }
                };
            }
        }
    }

    /// Adds a collaboration edge under the degree bound.
    ///
    /// Rejects unknown collaboration types; rejects the edge when either
    /// endpoint already stands at the bound, so the ninth edge of a
    /// collaborator at degree eight always fails; and otherwise commits the
    /// edge and both incremented degrees together.  A bounded table stays
    /// bounded under every sequence of such commits.
    pub fn add_collaboration(&mut self, doc_id: &str, from: &str, to: &str,
        collaboration_type: &str) -> (r: Result<(), FileverseError>)
        ensures
            final(self).spec_max() == old(self).spec_max(),
            !spec_valid_type(collaboration_type@) ==> {
                &&& (r matches Err(e) && e matches
                    FileverseError::CollaborativeDegreeViolation(m)
                    && m@ == "Invalid collaboration type"@)
                &&& *final(self) == *old(self)
            },
            spec_valid_type(collaboration_type@)
                && old(self).spec_degree(doc_id@, from@) >= old(self).spec_max() ==> {
                &&& (r matches Err(e) && e matches
                    FileverseError::CollaborativeDegreeViolation(m)
                    && m@ == "Collaborator "@ + from@ + " at max degree"@)
                &&& *final(self) == *old(self)
            },
            spec_valid_type(collaboration_type@)
                && old(self).spec_degree(doc_id@, from@) < old(self).spec_max()
                && old(self).spec_degree(doc_id@, to@) >= old(self).spec_max() ==> {
                &&& (r matches Err(e) && e matches
                    FileverseError::CollaborativeDegreeViolation(m)
                    && m@ == "Collaborator "@ + to@ + " at max degree"@)
                &&& *final(self) == *old(self)
            },
            spec_valid_type(collaboration_type@)
                && old(self).spec_degree(doc_id@, from@) < old(self).spec_max()
                && old(self).spec_degree(doc_id@, to@) < old(self).spec_max() ==> {
                &&& r == Ok::<(), FileverseError>(())
                &&& final(self).spec_degree(doc_id@, from@)
                    == old(self).spec_degree(doc_id@, from@) + 1
                &&& final(self).spec_degree(doc_id@, to@)
                    == old(self).spec_degree(doc_id@, to@) + 1
                &&& forall|d2: Seq<char>, n2: Seq<char>|
                    !(d2 == doc_id@ && (n2 == from@ || n2 == to@))
                    ==> #[trigger] final(self).spec_degree(d2, n2)
                        == old(self).spec_degree(d2, n2)
                &&& final(self).spec_edges() == old(self).spec_edges().push((doc_id@,
                    from@, to@, collaboration_type@))
            },
            old(self).bounded() ==> final(self).bounded(),
    {
        if !(str_eq(collaboration_type, "edit") || str_eq(collaboration_type, "comment")
            || str_eq(collaboration_type, "review")) {
            return Err(FileverseError::CollaborativeDegreeViolation(String::from_str(
                "Invalid collaboration type")));
        }
        let from_degree = self.get_collaborator_degree(doc_id, from);
        let to_degree = self.get_collaborator_degree(doc_id, to);
        if from_degree >= self.max_collaborators {
            let mut message = String::from_str("Collaborator ");
            message.append(from);
            message.append(" at max degree");
            return Err(FileverseError::CollaborativeDegreeViolation(message));
        }
        if to_degree >= self.max_collaborators {
            let mut message = String::from_str("Collaborator ");
            message.append(to);
            message.append(" at max degree");
            return Err(FileverseError::CollaborativeDegreeViolation(message));
        }
        self.sync_degree(doc_id, from, from_degree + 1);
        let ghost mid = *self;
        proof {
            assert(mid.spec_degree(doc_id@, from@) == from_degree + 1);
            assert forall|d2: Seq<char>, n2: Seq<char>| !(d2 == doc_id@ && n2 == from@)
                implies #[trigger] mid.spec_degree(d2, n2)
                    == old(self).spec_degree(d2, n2) by {
                assert(self.spec_degree(d2, n2) == old(self).spec_degree(d2, n2));
            };
            if old(self).bounded() {
                assert(mid.bounded());
            }
        }
        self.sync_degree(doc_id, to, to_degree + 1);
        let ghost mid2 = *self;
        proof {
            assert(mid2.spec_degree(doc_id@, to@) == to_degree + 1);
            assert forall|d2: Seq<char>, n2: Seq<char>|
                !(d2 == doc_id@ && (n2 == from@ || n2 == to@))
                implies #[trigger] mid2.spec_degree(d2, n2)
                    == old(self).spec_degree(d2, n2) by {
                assert(self.spec_degree(d2, n2) == mid.spec_degree(d2, n2));
                assert(mid.spec_degree(d2, n2) == old(self).spec_degree(d2, n2));
            };
            if from@ == to@ {
                assert(mid2.spec_degree(doc_id@, from@) == to_degree + 1);
            } else {
                assert(self.spec_degree(doc_id@, from@) == mid.spec_degree(doc_id@,
                    from@));
                assert(mid2.spec_degree(doc_id@, from@) == from_degree + 1);
            }
            if old(self).bounded() {
                assert(mid2.bounded());
            }
        }
        self.edges.push(EdgeRecord {
            doc_id: String::from_str(doc_id),
            from: String::from_str(from),
            to: String::from_str(to),
            collaboration_type: String::from_str(collaboration_type),
        });
        proof {
            assert(self.degrees@ == mid2.degrees@);
            assert(self.max_collaborators == mid2.max_collaborators);
            assert forall|d2: Seq<char>, n2: Seq<char>|
                !(d2 == doc_id@ && (n2 == from@ || n2 == to@))
                implies #[trigger] self.spec_degree(d2, n2)
                    == old(self).spec_degree(d2, n2) by {
                assert(self.spec_degree(d2, n2) == spec_degree_in(self.degrees@, d2, n2));
                assert(mid2.spec_degree(d2, n2) == spec_degree_in(mid2.degrees@, d2, n2));
            };
            assert(self.spec_degree(doc_id@, from@) == mid2.spec_degree(doc_id@, from@));
            assert(self.spec_degree(doc_id@, to@) == mid2.spec_degree(doc_id@, to@));
            if old(self).bounded() {
                assert forall|k: int| 0 <= k < self.spec_entries().len() implies
                    (#[trigger] self.spec_entries()[k]).degree <= self.spec_max() by {
                    assert(self.spec_entries()[k] == mid2.spec_entries()[k]);
                    assert(mid2.spec_entries()[k].degree <= mid2.spec_max());
                };
            }
            assert(edge_records_view(self.edges@) =~= old(self).spec_edges().push((doc_id@,
                from@, to@, collaboration_type@)));
        }
        Ok(())
    }

    /// Flags a document whose degree table shows a collaborator past twice
    /// the bound: a sign the store was tampered with out of band.
    pub fn check_eclipse_attack(&self, doc_id: &str) -> (r: bool)
        ensures
            r == exists|i: int| 0 <= i < self.spec_entries().len()
                && (#[trigger] self.spec_entries()[i]).doc_id@ == doc_id@
                && self.spec_entries()[i].degree > 2 * self.spec_max(),
    {
        let n = self.degrees.len();
        let threshold: u64 = 2 * (self.max_collaborators as u64);
        let mut i: usize = 0;
        while i < n
            invariant
                n == self.spec_entries().len(),
                i <= n,
                threshold == 2 * self.spec_max(),
                forall|j: int| 0 <= j < i ==> !((#[trigger] self.spec_entries()[j]).doc_id@
                    == doc_id@ && self.spec_entries()[j].degree > 2 * self.spec_max()),
            decreases n - i,
        {
            let entry = &self.degrees[i];
            if str_eq(entry.doc_id.as_str(), doc_id) && (entry.degree as u64) > threshold {
                return true;
            }
            i = i + 1;
        }
        false
    }
}

} // verus!
