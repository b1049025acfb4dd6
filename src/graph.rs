use vstd::prelude::*;

verus! {

/// A reference from an operator to the state table it keeps: a placeholder
/// id local to the graph until the catalog has assigned the real one.
#[derive(Clone, Copy, Debug, PartialEq, Eq, Structural)]
pub enum TableRef {
    Placeholder(u32),
    Real(u32),
}

/// The body of one operator node.
#[derive(Clone, Copy, Debug, PartialEq, Eq, Structural)]
pub enum NodeBody {
    /// Reads from a connector source.
    Source { source_id: u32 },
    /// Keeps durable state in an internal table.
    StateTable { table: TableRef },
    /// Any other operator.
    Other,
}

/// An operator node and the fragment it belongs to.
#[derive(Clone, Copy, Debug, PartialEq, Eq, Structural)]
pub struct GraphNode {
    pub fragment_id: u32,
    pub body: NodeBody,
}

/// A materialized fragment graph: its operator nodes, the placeholder ids of
/// the internal tables to be cataloged, and the designated table and DML
/// fragments.
pub struct StreamFragmentGraph {
    pub nodes: Vec<GraphNode>,
    pub internal_tables: Vec<u32>,
    pub table_fragment_id: Option<u32>,
    pub dml_fragment_id: Option<u32>,
}

/// The real id that `ids` assigns to placeholder `p`: the first pair whose key is `p`.
pub open spec fn lookup(ids: Seq<(u32, u32)>, p: u32) -> Option<u32>
    decreases ids.len(),
{
    if ids.len() == 0 {
        None
    } else if ids[0].0 == p {
        Some(ids[0].1)
    } else {
        lookup(ids.drop_first(), p)
    }
}

/// A node after the source id has been propagated into it.
pub open spec fn with_source(n: GraphNode, source_id: u32) -> GraphNode {
    match n.body {
        NodeBody::Source { .. } => GraphNode { fragment_id: n.fragment_id, body: NodeBody::Source { source_id } },
        _ => n,
    }
}

/// A node after its placeholder, if any, has been replaced by its real id.
pub open spec fn refilled(n: GraphNode, ids: Seq<(u32, u32)>) -> GraphNode {
    match n.body {
        NodeBody::StateTable { table: TableRef::Placeholder(p) } => match lookup(ids, p) {
            Some(rid) => GraphNode {
                fragment_id: n.fragment_id,
                body: NodeBody::StateTable { table: TableRef::Real(rid) },
            },
            None => n,
        },
        _ => n,
    }
}

pub open spec fn is_placeholder(n: GraphNode) -> bool {
    n.body matches NodeBody::StateTable { table: TableRef::Placeholder(_) }
}

/// Every placeholder that a node refers to has an entry in `ids`.
pub open spec fn covers(nodes: Seq<GraphNode>, ids: Seq<(u32, u32)>) -> bool {
    forall|i: int|
        0 <= i < nodes.len() && (#[trigger] placeholder_of(nodes[i])) is Some ==> lookup(
            ids,
            placeholder_of(nodes[i])->0,
        ) is Some
}

/// The placeholder id a node refers to, if any.
pub open spec fn placeholder_of(n: GraphNode) -> Option<u32> {
    match n.body {
        NodeBody::StateTable { table: TableRef::Placeholder(p) } => Some(p),
        _ => None,
    }
}

/// Every placeholder id of the list has an entry in `ids`.
pub open spec fn covers_list(internal: Seq<u32>, ids: Seq<(u32, u32)>) -> bool {
    forall|k: int| 0 <= k < internal.len() ==> (#[trigger] lookup(ids, internal[k])) is Some
}

/// Every placeholder that a node refers to is among the internal tables.
pub open spec fn placeholders_declared(nodes: Seq<GraphNode>, internal: Seq<u32>) -> bool {
    forall|i: int|
        0 <= i < nodes.len() && (#[trigger] placeholder_of(nodes[i])) is Some ==> internal.contains(
            placeholder_of(nodes[i])->0,
        )
}

/// The pairs give a real id to each internal table, in the list's order.
pub open spec fn keyed_by(internal: Seq<u32>, ids: Seq<(u32, u32)>) -> bool {
    ids.len() == internal.len() && forall|i: int| 0 <= i < ids.len() ==> (#[trigger] ids[i]).0 == internal[i]
}

/// Distinct placeholders are given distinct real ids.
pub open spec fn injective(ids: Seq<(u32, u32)>) -> bool {
    forall|p: u32, q: u32|
        p != q && #[trigger] lookup(ids, p) is Some && #[trigger] lookup(ids, q) is Some
            ==> lookup(ids, p) != lookup(ids, q)
}

impl StreamFragmentGraph {
    /// Sets the source id of every source-reading node to `source_id`.
    pub fn fill_source_id(&mut self, source_id: u32)
        ensures
            final(self).nodes@.len() == old(self).nodes@.len(),
            forall|i: int|
                0 <= i < old(self).nodes@.len() ==> final(self).nodes@[i] == with_source(
                    old(self).nodes@[i],
                    source_id,
                ),
            final(self).internal_tables@ == old(self).internal_tables@,
            final(self).table_fragment_id == old(self).table_fragment_id,
            final(self).dml_fragment_id == old(self).dml_fragment_id,
    {
        let n = self.nodes.len();
        let mut i: usize = 0;
        while i < n
            invariant
                n == old(self).nodes@.len(),
                self.nodes@.len() == n,
                i <= n,
                forall|k: int| 0 <= k < i ==> self.nodes@[k] == with_source(old(self).nodes@[k], source_id),
                forall|k: int| i <= k < n ==> self.nodes@[k] == old(self).nodes@[k],
                self.internal_tables@ == old(self).internal_tables@,
                self.table_fragment_id == old(self).table_fragment_id,
                self.dml_fragment_id == old(self).dml_fragment_id,
            decreases n - i,
        {
            let node = self.nodes[i];
            if let NodeBody::Source { .. } = node.body {
                self.nodes.set(i, GraphNode { fragment_id: node.fragment_id, body: NodeBody::Source { source_id } });
            }
            i = i + 1;
        }
    }

    /// Whether every placeholder that a node refers to is among the internal
    /// tables; a graph that fails this has a dangling reference.
    pub fn placeholders_are_declared(&self) -> (r: bool)
        ensures
            r == placeholders_declared(self.nodes@, self.internal_tables@),
    {
        let n = self.nodes.len();
        let mut i: usize = 0;
        while i < n
            invariant
                n == self.nodes@.len(),
                i <= n,
                forall|k: int|
                    0 <= k < i && (#[trigger] placeholder_of(self.nodes@[k])) is Some
                        ==> self.internal_tables@.contains(placeholder_of(self.nodes@[k])->0),
            decreases n - i,
        {
            let node = self.nodes[i];
            if let NodeBody::StateTable { table: TableRef::Placeholder(p) } = node.body {
                let mut found = false;
                let mut j: usize = 0;
                while j < self.internal_tables.len()
                    invariant
                        j <= self.internal_tables@.len(),
                        found ==> self.internal_tables@.contains(p),
                        !found ==> forall|m: int| 0 <= m < j ==> self.internal_tables@[m] != p,
                    decreases self.internal_tables@.len() - j,
                {
                    if self.internal_tables[j] == p {
                        found = true;
                    }
                    j = j + 1;
                }
                assert(placeholder_of(self.nodes@[i as int]) == Some(p));
                if !found {
                    return false;
                }
            }
            i = i + 1;
        }
        true
    }

    /// Whether `ids` gives a real id to every placeholder of the nodes and of
    /// the list of internal tables, as a refill needs.
    pub fn ids_cover(&self, ids: &Vec<(u32, u32)>) -> (r: bool)
        ensures
            r == (covers(self.nodes@, ids@) && covers_list(self.internal_tables@, ids@)),
    {
        let n = self.nodes.len();
        let mut i: usize = 0;
        while i < n
            invariant
                n == self.nodes@.len(),
                i <= n,
                forall|k: int|
                    0 <= k < i && (#[trigger] placeholder_of(self.nodes@[k])) is Some ==> lookup(
                        ids@,
                        placeholder_of(self.nodes@[k])->0,
                    ) is Some,
            decreases n - i,
        {
            let node = self.nodes[i];
            if let NodeBody::StateTable { table: TableRef::Placeholder(p) } = node.body {
                if find_real_id(ids, p).is_none() {
                    assert(placeholder_of(self.nodes@[i as int]) == Some(p));
                    return false;
                }
            }
            i = i + 1;
        }
        let m = self.internal_tables.len();
        let mut k: usize = 0;
        while k < m
            invariant
                m == self.internal_tables@.len(),
                k <= m,
                covers(self.nodes@, ids@),
                forall|j: int| 0 <= j < k ==> (#[trigger] lookup(ids@, self.internal_tables@[j])) is Some,
            decreases m - k,
        {
            if find_real_id(ids, self.internal_tables[k]).is_none() {
                return false;
            }
            k = k + 1;
        }
        true
    }

    /// Rewrites every placeholder, in the nodes and in the list of internal
    /// tables, to the real id that `ids` gives it; every placeholder must
    /// have an entry, so none is left.
    pub fn refill_internal_table_ids(&mut self, ids: &Vec<(u32, u32)>)
        requires
            covers(old(self).nodes@, ids@),
            covers_list(old(self).internal_tables@, ids@),
        ensures
            final(self).nodes@.len() == old(self).nodes@.len(),
            forall|i: int|
                0 <= i < old(self).nodes@.len() ==> final(self).nodes@[i] == refilled(
                    old(self).nodes@[i],
                    ids@,
                ),
            final(self).internal_tables@.len() == old(self).internal_tables@.len(),
            forall|k: int|
                0 <= k < old(self).internal_tables@.len() ==> Some(#[trigger] final(self).internal_tables@[k])
                    == lookup(ids@, old(self).internal_tables@[k]),
            final(self).table_fragment_id == old(self).table_fragment_id,
            final(self).dml_fragment_id == old(self).dml_fragment_id,
    {
        let n = self.nodes.len();
        let mut i: usize = 0;
        while i < n
            invariant
                n == old(self).nodes@.len(),
                self.nodes@.len() == n,
                i <= n,
                forall|k: int| 0 <= k < i ==> self.nodes@[k] == refilled(old(self).nodes@[k], ids@),
                forall|k: int| i <= k < n ==> self.nodes@[k] == old(self).nodes@[k],
                self.internal_tables@ == old(self).internal_tables@,
                self.table_fragment_id == old(self).table_fragment_id,
                self.dml_fragment_id == old(self).dml_fragment_id,
            decreases n - i,
        {
            let node = self.nodes[i];
            if let NodeBody::StateTable { table: TableRef::Placeholder(p) } = node.body {
                match find_real_id(ids, p) {
                    Some(rid) => {
                        self.nodes.set(
                            i,
                            GraphNode {
                                fragment_id: node.fragment_id,
                                body: NodeBody::StateTable { table: TableRef::Real(rid) },
                            },
                        );
                    },
                    None => {},
                }
            }
            i = i + 1;
        }
        let m = self.internal_tables.len();
        let mut k: usize = 0;
        while k < m
            invariant
                m == old(self).internal_tables@.len(),
                self.internal_tables@.len() == m,
                k <= m,
                covers_list(old(self).internal_tables@, ids@),
                forall|j: int| 0 <= j < k ==> Some(#[trigger] self.internal_tables@[j]) == lookup(ids@, old(self).internal_tables@[j]),
                forall|j: int| k <= j < m ==> self.internal_tables@[j] == old(self).internal_tables@[j],
                self.nodes@.len() == n,
                forall|j: int| 0 <= j < n ==> self.nodes@[j] == refilled(old(self).nodes@[j], ids@),
                self.table_fragment_id == old(self).table_fragment_id,
                self.dml_fragment_id == old(self).dml_fragment_id,
            decreases m - k,
        {
            let p = self.internal_tables[k];
            assert(lookup(ids@, old(self).internal_tables@[k as int]) is Some);
            match find_real_id(ids, p) {
                Some(rid) => {
                    self.internal_tables.set(k, rid);
                },
                None => {},
            }
            k = k + 1;
        }
    }
}

/// The real id assigned to placeholder `p`, searching the pairs in order.
pub fn find_real_id(ids: &Vec<(u32, u32)>, p: u32) -> (r: Option<u32>)
    ensures
        r == lookup(ids@, p),
{
    let mut i: usize = 0;
    assert(ids@.subrange(0, ids@.len() as int) =~= ids@);
    while i < ids.len()
        invariant
            i <= ids@.len(),
            lookup(ids@, p) == lookup(ids@.subrange(i as int, ids@.len() as int), p),
        decreases ids@.len() - i,
    {
        let (k, v) = ids[i];
        assert(ids@.subrange(i as int, ids@.len() as int).drop_first() =~= ids@.subrange(
            i + 1,
            ids@.len() as int,
        ));
        if k == p {
            return Some(v);
        }
        i = i + 1;
    }
    None
}

/// Where `p` first appears among the keys of `ids`.
pub open spec fn first_index(ids: Seq<(u32, u32)>, p: u32) -> int
    decreases ids.len(),
{
    if ids.len() == 0 {
        0
    } else if ids[0].0 == p {
        0
    } else {
        1 + first_index(ids.drop_first(), p)
    }
}

proof fn lemma_lookup_at(ids: Seq<(u32, u32)>, p: u32)
    ensures
        lookup(ids, p) is Some ==> 0 <= first_index(ids, p) < ids.len() && ids[first_index(ids, p)].0
            == p && lookup(ids, p) == Some(ids[first_index(ids, p)].1),
        lookup(ids, p) is None ==> forall|i: int| 0 <= i < ids.len() ==> (#[trigger] ids[i]).0 != p,
    decreases ids.len(),
{
    if ids.len() > 0 && ids[0].0 != p {
        lemma_lookup_at(ids.drop_first(), p);
        if lookup(ids, p) is None {
            assert forall|i: int| 0 <= i < ids.len() implies (#[trigger] ids[i]).0 != p by {
                if i > 0 {
                    assert(ids[i] == ids.drop_first()[i - 1]);
                }
            }
        }
    }
}

/// Ids handed out one after another from `base` are distinct.
pub proof fn lemma_sequential_ids_injective(ids: Seq<(u32, u32)>, base: int)
    requires
        forall|i: int| 0 <= i < ids.len() ==> (#[trigger] ids[i]).1 == base + i,
    ensures
        injective(ids),
{
    assert forall|p: u32, q: u32|
        p != q && #[trigger] lookup(ids, p) is Some && #[trigger] lookup(ids, q) is Some
            implies lookup(ids, p) != lookup(ids, q) by {
        lemma_lookup_at(ids, p);
        lemma_lookup_at(ids, q);
        let i = first_index(ids, p);
        let j = first_index(ids, q);
        assert(ids[i].1 == base + i);
        assert(ids[j].1 == base + j);
    }
}

/// Pairs whose keys are the graph's internal tables cover every placeholder
/// that the graph's nodes refer to.
pub proof fn lemma_internal_tables_covered(nodes: Seq<GraphNode>, internal: Seq<u32>, ids: Seq<(u32, u32)>)
    requires
        placeholders_declared(nodes, internal),
        keyed_by(internal, ids),
    ensures
        covers(nodes, ids),
        covers_list(internal, ids),
{
    assert forall|k: int| 0 <= k < internal.len() implies (#[trigger] lookup(ids, internal[k])) is Some by {
        lemma_lookup_at(ids, internal[k]);
        assert(ids[k].0 == internal[k]);
    }
    assert forall|i: int|
        0 <= i < nodes.len() && (#[trigger] placeholder_of(nodes[i])) is Some implies lookup(
            ids,
            placeholder_of(nodes[i])->0,
        ) is Some by {
        let p = placeholder_of(nodes[i])->0;
        let k = choose|k: int| 0 <= k < internal.len() && internal[k] == p;
        lemma_lookup_at(ids, p);
        assert(ids[k].0 == p);
    }
}

/// After a refill that covers the graph, no placeholder is left; nodes
/// that shared a placeholder share its real table, and, when the catalog
/// assigned distinct ids, nodes with different placeholders get different
/// real tables.
pub proof fn lemma_refill_exactly_once(before: Seq<GraphNode>, after: Seq<GraphNode>, ids: Seq<(u32, u32)>)
    requires
        covers(before, ids),
        after.len() == before.len(),
        forall|i: int| 0 <= i < before.len() ==> after[i] == refilled(#[trigger] before[i], ids),
    ensures
        forall|i: int| 0 <= i < after.len() ==> !is_placeholder(#[trigger] after[i]),
        forall|i: int, j: int|
            0 <= i < before.len() && 0 <= j < before.len() && (#[trigger] placeholder_of(before[i])) is Some
                && placeholder_of(before[i]) == #[trigger] placeholder_of(before[j]) ==> after[i].body
                == after[j].body,
        injective(ids) ==> forall|i: int, j: int|
            0 <= i < before.len() && 0 <= j < before.len() && (#[trigger] placeholder_of(before[i])) is Some
                && (#[trigger] placeholder_of(before[j])) is Some && placeholder_of(before[i]) != placeholder_of(
                before[j],
            ) ==> after[i].body != after[j].body,
{
    assert forall|i: int| 0 <= i < after.len() implies !is_placeholder(#[trigger] after[i]) by {
        assert(after[i] == refilled(before[i], ids));
        if is_placeholder(before[i]) {
            assert(placeholder_of(before[i]) is Some);
        }
    }
    assert forall|i: int, j: int|
        0 <= i < before.len() && 0 <= j < before.len() && (#[trigger] placeholder_of(before[i])) is Some
            && placeholder_of(before[i]) == #[trigger] placeholder_of(before[j]) implies after[i].body
            == after[j].body by {
        assert(after[i] == refilled(before[i], ids));
        assert(after[j] == refilled(before[j], ids));
    }
    if injective(ids) {
        assert forall|i: int, j: int|
            0 <= i < before.len() && 0 <= j < before.len() && (#[trigger] placeholder_of(before[i])) is Some
                && (#[trigger] placeholder_of(before[j])) is Some && placeholder_of(before[i]) != placeholder_of(
                before[j],
            ) implies after[i].body != after[j].body by {
            assert(after[i] == refilled(before[i], ids));
            assert(after[j] == refilled(before[j], ids));
            let p = placeholder_of(before[i])->0;
            let q = placeholder_of(before[j])->0;
            assert(lookup(ids, p) is Some);
            assert(lookup(ids, q) is Some);
        }
    }
}

} // verus!
