//! The adjacency view of a cluster: for each node that it names, the ordered
//! list of that node's neighbours.

use vstd::prelude::*;

verus! {

/// A copy of a list of names.
pub fn clone_names(names: &Vec<String>) -> (copy: Vec<String>)
    ensures
        copy@ == names@,
{
    let mut copy: Vec<String> = Vec::new();
    let mut i: usize = 0;
    while i < names.len()
        invariant
            i <= names.len(),
            copy@ == names@.take(i as int),
        decreases names.len() - i,
    {
        copy.push(names[i].clone());
        assert(copy@ =~= names@.take(i + 1));
        i += 1;
    }
    assert(names@.take(names.len() as int) =~= names@);
    copy
}

/// Whether two lists hold the same names in the same order.
pub fn same_names(a: &Vec<String>, b: &Vec<String>) -> (same: bool)
    ensures
        same == (a.deep_view() == b.deep_view()),
{
    if a.len() != b.len() {
        assert(a.deep_view().len() != b.deep_view().len());
        return false;
    }
    let mut i: usize = 0;
    while i < a.len()
        invariant
            i <= a.len(),
            a.len() == b.len(),
            forall|j: int| 0 <= j < i ==> a@[j]@ == b@[j]@,
        decreases a.len() - i,
    {
        if a[i] != b[i] {
            assert(a.deep_view()[i as int] != b.deep_view()[i as int]);
            return false;
        }
        i += 1;
    }
    assert(a.deep_view() =~= b.deep_view());
    true
}

/// A map from node names to neighbour lists, kept as a list of entries in
/// which no node is named twice.
#[derive(Debug)]
pub struct Topology {
    entries: Vec<(String, Vec<String>)>,
}

impl View for Topology {
    type V = Map<Seq<char>, Seq<Seq<char>>>;

    closed spec fn view(&self) -> Map<Seq<char>, Seq<Seq<char>>> {
        Map::new(
            |node: Seq<char>| self.names(node),
            |node: Seq<char>| self.entries@[self.position(node)].1.deep_view(),
        )
    }
}

impl Topology {
    #[verifier::type_invariant]
    spec fn distinct_nodes(&self) -> bool {
        forall|i: int, j: int|
            0 <= i < j < self.entries@.len() ==> self.entries@[i].0@ != self.entries@[j].0@
    }

    /// Whether entry `i` is the one for `node`.
    spec fn at(&self, i: int, node: Seq<char>) -> bool {
        0 <= i < self.entries@.len() && self.entries@[i].0@ == node
    }

    /// Whether some entry is for `node`.
    spec fn names(&self, node: Seq<char>) -> bool {
        exists|i: int| self.at(i, node)
    }

    /// The index of the entry for `node`.
    spec fn position(&self, node: Seq<char>) -> int {
        choose|i: int| self.at(i, node)
    }

    /// The topology that names no node.
    pub fn new() -> (topology: Topology)
        ensures
            topology@ == Map::<Seq<char>, Seq<Seq<char>>>::empty(),
    {
        let topology = Topology { entries: Vec::new() };
        assert(topology@ =~= Map::<Seq<char>, Seq<Seq<char>>>::empty());
        topology
    }

    /// The index of the entry for `node`, if there is one.
    fn find(&self, node: &String) -> (found: Option<usize>)
        ensures
            match found {
                Some(i) => self.at(i as int, node@),
                None => !self.names(node@),
            },
    {
        let mut i: usize = 0;
        while i < self.entries.len()
            invariant
                i <= self.entries.len(),
                forall|j: int| 0 <= j < i ==> !self.at(j, node@),
            decreases self.entries.len() - i,
        {
            if self.entries[i].0 == *node {
                return Some(i);
            }
            i += 1;
        }
        None
    }

    /// The neighbours listed for `node`, if the topology names it.
    pub fn get(&self, node: &String) -> (neighbors: Option<&Vec<String>>)
        ensures
            match neighbors {
                Some(list) => self@.contains_key(node@) && list.deep_view() == self@[node@],
                None => !self@.contains_key(node@),
            },
    {
        proof {
            use_type_invariant(self);
        }
        match self.find(node) {
            Some(i) => {
                assert(self.at(self.position(node@), node@));
                Some(&self.entries[i].1)
            },
            None => None,
        }
    }

    /// Whether the topology names `node`.
    pub fn contains(&self, node: &String) -> (named: bool)
        ensures
            named == self@.contains_key(node@),
    {
        self.find(node).is_some()
    }

    /// Lists `neighbors` for `node`, in place of what was listed for it before.
    pub fn insert(&mut self, node: String, neighbors: Vec<String>)
        ensures
            final(self)@ == old(self)@.insert(node@, neighbors.deep_view()),
    {
        proof {
            use_type_invariant(&*self);
        }
        let found = self.find(&node);
        let ghost before = *self;
        let mut entries: Vec<(String, Vec<String>)> = Vec::new();
        std::mem::swap(&mut entries, &mut self.entries);
        match found {
            Some(i) => {
                entries.set(i, (node, neighbors));
            },
            None => {
                entries.push((node, neighbors));
            },
        }
        proof {
            assert forall|a: int, b: int| 0 <= a < b < entries@.len() implies entries@[a].0@
                != entries@[b].0@ by {
                match found {
                    Some(i) => {
                        assert(before.at(i as int, node@));
                    },
                    None => {
                        assert(!before.at(a, node@));
                    },
                }
            }
        }
        self.entries = entries;
        proof {
            let after = *self;
            let goal = before@.insert(node@, neighbors.deep_view());
            assert forall|key: Seq<char>| after@.contains_key(key) == goal.contains_key(key) by {
                if before.names(key) {
                    let i = before.position(key);
                    assert(after.at(i, key));
                }
                if after.names(key) && key != node@ {
                    let i = after.position(key);
                    assert(before.at(i, key));
                }
                match found {
                    Some(i) => {
                        assert(after.at(i as int, node@));
                    },
                    None => {
                        assert(after.at(before.entries@.len() as int, node@));
                    },
                }
            }
            assert forall|key: Seq<char>| after@.contains_key(key) implies after@[key]
                == goal[key] by {
                let i = after.position(key);
                assert(after.at(i, key));
                if key != node@ {
                    assert(before.at(i, key));
                    assert(before.at(before.position(key), key));
                } else {
                    match found {
                        Some(k) => {
                            assert(after.at(k as int, node@));
                        },
                        None => {
                            assert(after.at(before.entries@.len() as int, node@));
                        },
                    }
                }
            }
            assert(after@ =~= goal);
        }
    }

    /// The nodes that the topology names, each once.
    pub fn nodes(&self) -> (nodes: Vec<String>)
        ensures
            nodes.deep_view().no_duplicates(),
            forall|node: Seq<char>| nodes.deep_view().contains(node) <==> self@.contains_key(node),
    {
        proof {
            use_type_invariant(self);
        }
        let mut nodes: Vec<String> = Vec::new();
        let mut i: usize = 0;
        while i < self.entries.len()
            invariant
                i <= self.entries.len(),
                nodes@.len() == i,
                forall|j: int| 0 <= j < i ==> nodes@[j]@ == #[trigger] self.entries@[j].0@,
            decreases self.entries.len() - i,
        {
            nodes.push(self.entries[i].0.clone());
            i += 1;
        }
        proof {
            let names = nodes.deep_view();
            assert forall|j: int, k: int| 0 <= j < k < names.len() implies names[j] != names[k] by {
                assert(names[j] == self.entries@[j].0@);
                assert(names[k] == self.entries@[k].0@);
            }
            assert forall|node: Seq<char>| names.contains(node) <==> self@.contains_key(node) by {
                if names.contains(node) {
                    let j = choose|j: int| 0 <= j < names.len() && names[j] == node;
                    assert(self.at(j, node));
                }
                if self.names(node) {
                    let j = self.position(node);
                    assert(names[j] == node);
                }
            }
        }
        nodes
    }
}

impl Topology {
    /// Whether `other` names every node that `self` names, with the same
    /// neighbours.
    fn within(&self, other: &Topology) -> (included: bool)
        ensures
            included == self@.submap_of(other@),
    {
        proof {
            use_type_invariant(self);
        }
        let mut i: usize = 0;
        while i < self.entries.len()
            invariant
                i <= self.entries.len(),
                self.distinct_nodes(),
                forall|j: int|
                    0 <= j < i ==> other@.contains_key(#[trigger] self.entries@[j].0@) && other@[self.entries@[j].0@]
                        == self.entries@[j].1.deep_view(),
            decreases self.entries.len() - i,
        {
            let ghost key = self.entries@[i as int].0@;
            proof {
                assert(self.at(i as int, key));
                assert(self.at(self.position(key), key));
            }
            match other.get(&self.entries[i].0) {
                Some(list) => {
                    if !same_names(list, &self.entries[i].1) {
                        assert(self@.contains_key(key) && self@[key] != other@[key]);
                        return false;
                    }
                },
                None => {
                    assert(self@.contains_key(key));
                    return false;
                },
            }
            i += 1;
        }
        proof {
            assert forall|key: Seq<char>| self@.contains_key(key) implies other@.contains_key(key)
                && self@[key] == other@[key] by {
                let j = self.position(key);
                assert(self.at(j, key));
            }
        }
        true
    }
}

impl PartialEq for Topology {
    /// Two topologies are equal where they name the same nodes with the same
    /// neighbours.
    fn eq(&self, other: &Topology) -> (equal: bool) {
        let equal = self.within(other) && other.within(self);
        proof {
            if equal {
                assert(self@ =~= other@);
            }
        }
        equal
    }
}

impl vstd::std_specs::cmp::PartialEqSpecImpl for Topology {
    open spec fn obeys_eq_spec() -> bool {
        true
    }

    open spec fn eq_spec(&self, other: &Topology) -> bool {
        self@ == other@
    }
}

impl Eq for Topology {

}

impl Clone for Topology {
    fn clone(&self) -> (copy: Topology)
        ensures
            copy@ == self@,
    {
        proof {
            use_type_invariant(self);
        }
        let mut entries: Vec<(String, Vec<String>)> = Vec::new();
        let mut i: usize = 0;
        while i < self.entries.len()
            invariant
                i <= self.entries.len(),
                entries@.len() == i,
                forall|j: int|
                    0 <= j < i ==> (#[trigger] entries@[j]).0 == self.entries@[j].0 && entries@[j].1@
                        == self.entries@[j].1@,
            decreases self.entries.len() - i,
        {
            let node = self.entries[i].0.clone();
            let neighbors = clone_names(&self.entries[i].1);
            entries.push((node, neighbors));
            i += 1;
        }
        let copy = Topology { entries };
        proof {
            assert forall|key: Seq<char>| copy.names(key) == self.names(key) by {
                if copy.names(key) {
                    assert(self.at(copy.position(key), key));
                }
                if self.names(key) {
                    assert(copy.at(self.position(key), key));
                }
            }
            assert forall|key: Seq<char>| copy@.contains_key(key) implies copy@[key] == self@[key] by {
                let i = copy.position(key);
                assert(copy.at(i, key));
                assert(self.at(i, key));
                assert(self.at(self.position(key), key));
                assert(copy.entries@[i].1.deep_view() =~= self.entries@[i].1.deep_view());
            }
            assert(copy@ =~= self@);
        }
        copy
    }
}

} // verus!
