//! The assignment of neighbors to nodes that a `topology` request carries.

use vstd::prelude::*;

verus! {

/// The views of a sequence of strings, one for one.
pub open spec fn texts(names: Seq<String>) -> Seq<Seq<char>> {
    names.map_values(|name: String| name@)
}

/// Which nodes are the neighbors of which, as a mathematical value: one
/// entry for each node that has an assignment.
pub type TopologyView = Seq<(Seq<char>, Seq<Seq<char>>)>;

/// The names without those that came before: each name stays where it
/// stood first.
pub open spec fn without_repeats(names: Seq<Seq<char>>) -> Seq<Seq<char>>
    decreases names.len(),
{
    if names.len() == 0 {
        Seq::empty()
    } else {
        let before = without_repeats(names.drop_last());
        if before.contains(names.last()) {
            before
        } else {
            before.push(names.last())
        }
    }
}

/// Whether some entry assigns neighbors to `node`.
pub open spec fn assigns(topology: TopologyView, node: Seq<char>) -> bool {
    exists|i: int| 0 <= i < topology.len() && (#[trigger] topology[i]).0 == node
}

/// The neighbors that the first entry for `node` assigns to it; none where
/// no entry does.
pub open spec fn neighbors_in(topology: TopologyView, node: Seq<char>) -> Seq<Seq<char>>
    decreases topology.len(),
{
    if topology.len() == 0 {
        Seq::empty()
    } else if topology[0].0 == node {
        topology[0].1
    } else {
        neighbors_in(topology.drop_first(), node)
    }
}

/// The topology in which `node` has the given neighbors: its first entry is
/// replaced where it stands, and a node without one gets a new last entry.
pub open spec fn with_entry(
    topology: TopologyView,
    node: Seq<char>,
    neighbors: Seq<Seq<char>>,
) -> TopologyView
    decreases topology.len(),
{
    if topology.len() == 0 {
        seq![(node, neighbors)]
    } else if topology[0].0 == node {
        seq![(node, neighbors)] + topology.drop_first()
    } else {
        seq![topology[0]] + with_entry(topology.drop_first(), node, neighbors)
    }
}

/// No node has two entries, and no entry names a neighbor twice.
pub open spec fn well_formed(topology: TopologyView) -> bool {
    &&& forall|i: int, j: int|
        0 <= i < j < topology.len() ==> (#[trigger] topology[i]).0 != (#[trigger] topology[j]).0
    &&& forall|i: int| 0 <= i < topology.len() ==> (#[trigger] topology[i]).1.no_duplicates()
}

/// Dropping repeated names leaves no name twice, keeps every name that
/// occurs and adds none.
pub proof fn lemma_without_repeats(names: Seq<Seq<char>>)
    ensures
        without_repeats(names).no_duplicates(),
        forall|name: Seq<char>| without_repeats(names).contains(name) <==> names.contains(name),
        without_repeats(names).len() <= names.len(),
    decreases names.len(),
{
    if names.len() > 0 {
        let front = names.drop_last();
        lemma_without_repeats(front);
        let before = without_repeats(front);
        assert forall|name: Seq<char>| without_repeats(names).contains(name) <==> names.contains(
            name,
        ) by {
            if names.contains(name) {
                let i = choose|i: int| 0 <= i < names.len() && names[i] == name;
                if i < names.len() - 1 {
                    assert(front[i] == name);
                    assert(front.contains(name));
                    assert(before.contains(name));
                    let k = choose|k: int| 0 <= k < before.len() && before[k] == name;
                    assert(without_repeats(names)[k] == name);
                } else if !before.contains(names.last()) {
                    assert(without_repeats(names)[before.len() as int] == name);
                }
            }
            if without_repeats(names).contains(name) {
                let k = choose|k: int|
                    0 <= k < without_repeats(names).len() && without_repeats(names)[k] == name;
                if k < before.len() {
                    assert(before[k] == name);
                    assert(before.contains(name));
                    assert(front.contains(name));
                    let i = choose|i: int| 0 <= i < front.len() && front[i] == name;
                    assert(names[i] == name);
                } else {
                    assert(names[names.len() - 1] == name);
                }
            }
        }
    }
}

/// A sequence that names nothing twice is what is left of itself.
pub proof fn lemma_without_repeats_fixed(names: Seq<Seq<char>>)
    requires
        names.no_duplicates(),
    ensures
        without_repeats(names) == names,
    decreases names.len(),
{
    if names.len() > 0 {
        let front = names.drop_last();
        lemma_without_repeats_fixed(front);
        if front.contains(names.last()) {
            let i = choose|i: int| 0 <= i < front.len() && front[i] == names.last();
            assert(names[i] == names[names.len() - 1]);
        }
        assert(front.push(names.last()) =~= names);
    }
}

/// Replacing the entry at the first place where `node` stands is what
/// `with_entry` does, and so is appending one where `node` stands nowhere.
pub proof fn lemma_with_entry(
    topology: TopologyView,
    node: Seq<char>,
    neighbors: Seq<Seq<char>>,
    at: int,
)
    requires
        0 <= at <= topology.len(),
        forall|i: int| 0 <= i < at ==> (#[trigger] topology[i]).0 != node,
        at < topology.len() ==> topology[at].0 == node,
    ensures
        at < topology.len() ==> with_entry(topology, node, neighbors) == topology.update(
            at,
            (node, neighbors),
        ),
        at == topology.len() ==> with_entry(topology, node, neighbors) == topology.push(
            (node, neighbors),
        ),
    decreases topology.len(),
{
    if topology.len() == 0 {
        assert(seq![(node, neighbors)] =~= topology.push((node, neighbors)));
    } else if at == 0 {
        assert(seq![(node, neighbors)] + topology.drop_first() =~= topology.update(
            0,
            (node, neighbors),
        ));
    } else {
        let rest = topology.drop_first();
        assert(topology[0].0 != node);
        assert forall|i: int| 0 <= i < at - 1 implies (#[trigger] rest[i]).0 != node by {
            assert(rest[i] == topology[i + 1]);
        }
        lemma_with_entry(rest, node, neighbors, at - 1);
        if at < topology.len() {
            assert(seq![topology[0]] + rest.update(at - 1, (node, neighbors)) =~= topology.update(
                at,
                (node, neighbors),
            ));
        } else {
            assert(seq![topology[0]] + rest.push((node, neighbors)) =~= topology.push(
                (node, neighbors),
            ));
        }
    }
}

/// A well-formed topology stays so when a node gets neighbors among which
/// none is named twice.
pub proof fn lemma_with_entry_well_formed(
    topology: TopologyView,
    node: Seq<char>,
    neighbors: Seq<Seq<char>>,
)
    requires
        well_formed(topology),
        neighbors.no_duplicates(),
    ensures
        well_formed(with_entry(topology, node, neighbors)),
{
    if assigns(topology, node) {
        let at = choose|i: int|
            0 <= i < topology.len() && (#[trigger] topology[i]).0 == node;
        assert forall|i: int| 0 <= i < at implies (#[trigger] topology[i]).0 != node by {
            assert(topology[i].0 != topology[at].0);
        }
        lemma_with_entry(topology, node, neighbors, at);
    } else {
        assert forall|i: int| 0 <= i < topology.len() implies (#[trigger] topology[i]).0
            != node by {}
        lemma_with_entry(topology, node, neighbors, topology.len() as int);
    }
}

/// The neighbors of `node` are those of the entry at the first place where
/// it stands, and none where it stands nowhere.
pub proof fn lemma_neighbors_in(topology: TopologyView, node: Seq<char>, at: int)
    requires
        0 <= at <= topology.len(),
        forall|i: int| 0 <= i < at ==> (#[trigger] topology[i]).0 != node,
        at < topology.len() ==> topology[at].0 == node,
    ensures
        at < topology.len() ==> neighbors_in(topology, node) == topology[at].1,
        at == topology.len() ==> neighbors_in(topology, node) == Seq::<Seq<char>>::empty(),
    decreases topology.len(),
{
    if topology.len() > 0 && at > 0 {
        let rest = topology.drop_first();
        assert(topology[0].0 != node);
        assert forall|i: int| 0 <= i < at - 1 implies (#[trigger] rest[i]).0 != node by {
            assert(rest[i] == topology[i + 1]);
        }
        lemma_neighbors_in(rest, node, at - 1);
    }
}

/// Which nodes are the neighbors of which. No node has two assignments, and
/// no node is named twice among the neighbors of another.
#[derive(Debug, PartialEq, Eq)]
pub struct Topology {
    entries: Vec<(String, Vec<String>)>,
}

impl View for Topology {
    type V = TopologyView;

    closed spec fn view(&self) -> TopologyView {
        entries_view(self.entries@)
    }
}

/// The views of the entries, one for one.
pub open spec fn entries_view(entries: Seq<(String, Vec<String>)>) -> TopologyView {
    entries.map_values(|entry: (String, Vec<String>)| (entry.0@, texts(entry.1@)))
}

/// A copy of the names.
pub fn copy_names(names: &Vec<String>) -> (copy: Vec<String>)
    ensures
        texts(copy@) == texts(names@),
{
    let mut copy: Vec<String> = Vec::new();
    let mut i: usize = 0;
    while i < names.len()
        invariant
            i <= names.len(),
            texts(copy@) == texts(names@).subrange(0, i as int),
        decreases names.len() - i,
    {
        let ghost before = texts(copy@);
        copy.push(names[i].clone());
        assert(texts(copy@) =~= before.push(names@[i as int]@));
        assert(before.push(names@[i as int]@) =~= texts(names@).subrange(0, i as int + 1));
        i += 1;
    }
    assert(texts(names@).subrange(0, names.len() as int) =~= texts(names@));
    copy
}

/// The names in the order in which each comes first.
pub fn distinct_names(names: Vec<String>) -> (kept: Vec<String>)
    ensures
        texts(kept@) == without_repeats(texts(names@)),
{
    let mut kept: Vec<String> = Vec::new();
    let mut i: usize = 0;
    assert(texts(names@).subrange(0, 0) =~= Seq::<Seq<char>>::empty());
    assert(texts(kept@) =~= Seq::<Seq<char>>::empty());
    while i < names.len()
        invariant
            i <= names.len(),
            texts(kept@) == without_repeats(texts(names@).subrange(0, i as int)),
        decreases names.len() - i,
    {
        let ghost before = texts(kept@);
        let ghost prefix = texts(names@).subrange(0, i as int + 1);
        assert(prefix.drop_last() =~= texts(names@).subrange(0, i as int));
        assert(prefix.last() == names@[i as int]@);
        let mut seen = false;
        let mut k: usize = 0;
        while k < kept.len()
            invariant
                k <= kept.len(),
                i < names.len(),
                seen <==> exists|j: int| 0 <= j < k && kept@[j]@ == names@[i as int]@,
            decreases kept.len() - k,
        {
            if kept[k] == names[i] {
                seen = true;
            }
            k += 1;
        }
        assert(seen <==> before.contains(names@[i as int]@)) by {
            if seen {
                let j = choose|j: int| 0 <= j < kept.len() && kept@[j]@ == names@[i as int]@;
                assert(before[j] == names@[i as int]@);
            }
            if before.contains(names@[i as int]@) {
                let j = choose|j: int| 0 <= j < before.len() && before[j] == names@[i as int]@;
                assert(kept@[j]@ == names@[i as int]@);
            }
        }
        if !seen {
            kept.push(names[i].clone());
            assert(texts(kept@) =~= before.push(names@[i as int]@));
        }
        i += 1;
    }
    assert(texts(names@).subrange(0, names.len() as int) =~= texts(names@));
    kept
}

impl Clone for Topology {
    fn clone(&self) -> (copy: Topology)
        ensures
            copy@ == self@,
    {
        proof {
            use_type_invariant(self);
        }
        let mut entries: Vec<(String, Vec<String>)> = Vec::new();
        let mut i: usize = 0;
        while i < self.entries.len()
            invariant
                i <= self.entries.len(),
                entries_view(entries@) == self@.subrange(0, i as int),
            decreases self.entries.len() - i,
        {
            let ghost before = entries_view(entries@);
            entries.push((self.entries[i].0.clone(), copy_names(&self.entries[i].1)));
            assert(entries_view(entries@) =~= before.push(self@[i as int]));
            assert(before.push(self@[i as int]) =~= self@.subrange(0, i as int + 1));
            i += 1;
        }
        assert(self@.subrange(0, self.entries.len() as int) =~= self@);
        Topology { entries }
    }
}

impl Topology {
    #[verifier::type_invariant]
    closed spec fn valid(&self) -> bool {
        well_formed(self@)
    }

    /// The topology in which no node has neighbors assigned.
    pub fn new() -> (topology: Topology)
        ensures
            topology@ == Seq::<(Seq<char>, Seq<Seq<char>>)>::empty(),
    {
        let topology = Topology { entries: Vec::new() };
        assert(topology@ =~= Seq::<(Seq<char>, Seq<Seq<char>>)>::empty());
        topology
    }

    /// The number of nodes that have neighbors assigned. A topology at hand
    /// is always well formed.
    pub fn len(&self) -> (count: usize)
        ensures
            count == self@.len(),
            well_formed(self@),
    {
        proof {
            use_type_invariant(self);
        }
        self.entries.len()
    }

    /// The node of the entry at `index`.
    pub fn node_at(&self, index: usize) -> (node: &String)
        requires
            index < self@.len(),
        ensures
            node@ == self@[index as int].0,
    {
        &self.entries[index].0
    }

    /// The neighbors that the entry at `index` assigns.
    pub fn neighbors_at(&self, index: usize) -> (neighbors: &Vec<String>)
        requires
            index < self@.len(),
        ensures
            texts(neighbors@) == self@[index as int].1,
    {
        &self.entries[index].1
    }

    /// The neighbors assigned to `node`; none where it has no entry.
    pub fn neighbors_of(&self, node: &String) -> (neighbors: Vec<String>)
        ensures
            texts(neighbors@) == neighbors_in(self@, node@),
    {
        let mut i: usize = 0;
        while i < self.entries.len()
            invariant
                i <= self.entries.len(),
                forall|j: int| 0 <= j < i ==> (#[trigger] self@[j]).0 != node@,
            decreases self.entries.len() - i,
        {
            if self.entries[i].0 == *node {
                proof {
                    lemma_neighbors_in(self@, node@, i as int);
                }
                return self.entries[i].1.clone();
            }
            i += 1;
        }
        proof {
            lemma_neighbors_in(self@, node@, i as int);
        }
        let none: Vec<String> = Vec::new();
        assert(texts(none@) =~= Seq::<Seq<char>>::empty());
        none
    }

    /// The topology that assigns to `node` the given neighbors, each once,
    /// in place of what it had, and leaves the other nodes as they are.
    pub fn with(self, node: String, neighbors: Vec<String>) -> (topology: Topology)
        ensures
            topology@ == with_entry(self@, node@, without_repeats(texts(neighbors@))),
    {
        let kept = distinct_names(neighbors);
        proof {
            use_type_invariant(&self);
            lemma_without_repeats(texts(neighbors@));
        }
        let mut entries = self.entries;
        let mut i: usize = 0;
        while i < entries.len()
            invariant
                i <= entries.len(),
                entries == self.entries,
                well_formed(self@),
                texts(kept@).no_duplicates(),
                texts(kept@) == without_repeats(texts(neighbors@)),
                forall|j: int| 0 <= j < i ==> (#[trigger] self@[j]).0 != node@,
            decreases entries.len() - i,
        {
            if entries[i].0 == node {
                proof {
                    lemma_with_entry(self@, node@, texts(kept@), i as int);
                    lemma_with_entry_well_formed(self@, node@, texts(kept@));
                }
                entries[i] = (node, kept);
                assert(entries_view(entries@) =~= self@.update(i as int, (node@, texts(kept@))));
                return Topology { entries };
            }
            i += 1;
        }
        proof {
            lemma_with_entry(self@, node@, texts(kept@), i as int);
            lemma_with_entry_well_formed(self@, node@, texts(kept@));
        }
        entries.push((node, kept));
        assert(entries_view(entries@) =~= self@.push((node@, texts(kept@))));
        Topology { entries }
    }
}

} // verus!
