//! A binary trie over IPv4 prefixes.

use vstd::prelude::*;

verus! {

/// Bit `i` of an address, counted from the most significant one.
pub open spec fn bit(address: u32, i: int) -> bool {
    (address >> (31 - i) as u32) & 1 != 0
}

/// Whether two addresses agree in their first `length` bits.
pub open spec fn agree(a: u32, b: u32, length: int) -> bool {
    forall|i: int| 0 <= i < length ==> #[trigger] bit(a, i) == bit(b, i)
}

/// Bit `i` of an address.
pub fn bit_of(address: u32, i: u32) -> (set: bool)
    requires
        i < 32,
    ensures
        set == bit(address, i as int),
{
    (address >> (31 - i)) & 1 != 0
}

/// Agreement in the first `length` bits is equality of the numbers that those
/// bits denote.
pub proof fn agreement_is_equality_of_prefixes(a: u32, b: u32, length: u32)
    requires
        0 < length <= 32,
    ensures
        agree(a, b, length as int) <==> a >> ((32 - length) as u32) == b >> ((32 - length) as u32),
    decreases length,
{
    let n: u32 = (32 - length) as u32;
    let top: u32 = (31 - (length - 1)) as u32;
    assert(top == n);
    if length == 1 {
        assert(bit(a, 0) == bit(b, 0) <==> a >> n == b >> n) by {
            assert(((a >> 31u32) & 1 != 0) == ((b >> 31u32) & 1 != 0) <==> a >> 31u32 == b >> 31u32)
                by (bit_vector);
        }
    } else {
        let shorter: u32 = (length - 1) as u32;
        agreement_is_equality_of_prefixes(a, b, shorter);
        let m: u32 = (32 - shorter) as u32;
        assert(n < 32 && m == n + 1 && m < 32);
        assert(a >> n == b >> n <==> (a >> m == b >> m && ((a >> n) & 1 != 0) == ((b >> n) & 1
            != 0))) by (bit_vector)
            requires
                n < 31,
                m == n + 1,
        ;
        assert(agree(a, b, length as int) <==> agree(a, b, shorter as int) && bit(a, shorter as int)
            == bit(b, shorter as int));
    }
}

#[derive(Clone, Copy)]
struct TrieNode {
    zero: Option<usize>,
    one: Option<usize>,
    terminal: bool,
}

impl TrieNode {
    spec fn child(self, branch: bool) -> Option<usize> {
        if branch {
            self.one
        } else {
            self.zero
        }
    }
}

/// The node that the first `depth` bits of `address` lead to.
spec fn walk(nodes: Seq<TrieNode>, address: u32, depth: int) -> Option<int>
    decreases depth,
{
    if depth <= 0 {
        Some(0)
    } else {
        match walk(nodes, address, depth - 1) {
            None => None,
            Some(node) => match nodes[node].child(bit(address, depth - 1)) {
                None => None,
                Some(child) => Some(child as int),
            },
        }
    }
}

/// Whether the walk along `address` meets a terminal node.
spec fn covers(nodes: Seq<TrieNode>, address: u32) -> bool {
    exists|depth: int| #[trigger] terminal_at(nodes, address, depth)
}

spec fn terminal_at(nodes: Seq<TrieNode>, address: u32, depth: int) -> bool {
    &&& 0 <= depth <= 32
    &&& walk(nodes, address, depth) matches Some(node)
    &&& nodes[node].terminal
}

/// Every child is a node, and a node's path extends its parent's by the branch
/// taken.
spec fn linked(nodes: Seq<TrieNode>, paths: Seq<Seq<bool>>) -> bool {
    &&& nodes.len() > 0
    &&& paths.len() == nodes.len()
    &&& paths[0] == Seq::<bool>::empty()
    &&& forall|node: int, branch: bool|
        0 <= node < nodes.len() ==> (#[trigger] nodes[node].child(branch) matches Some(child) ==> {
            &&& child < nodes.len()
            &&& paths[child as int] == paths[node].push(branch)
        })
}

spec fn bits(address: u32, depth: int) -> Seq<bool> {
    Seq::new(depth as nat, |i: int| bit(address, i))
}

/// A set of IPv4 prefixes.
pub struct Ipv4Trie {
    nodes: Vec<TrieNode>,
    /// The branches that lead from the root to each node.
    paths: Ghost<Seq<Seq<bool>>>,
}

proof fn lemma_walk_valid(nodes: Seq<TrieNode>, paths: Seq<Seq<bool>>, address: u32, depth: int)
    requires
        linked(nodes, paths),
        0 <= depth,
    ensures
        walk(nodes, address, depth) matches Some(node) ==> 0 <= node < nodes.len() && paths[node]
            == bits(address, depth),
    decreases depth,
{
    if depth == 0 {
        assert(bits(address, 0) =~= Seq::<bool>::empty());
    } else {
        lemma_walk_valid(nodes, paths, address, depth - 1);
        if let Some(node) = walk(nodes, address, depth - 1) {
            assert(bits(address, depth) =~= bits(address, depth - 1).push(bit(address, depth - 1)));
            assert(nodes[node].child(bit(address, depth - 1)) is Some || nodes[node].child(
                bit(address, depth - 1),
            ) is None);
        }
    }
}

proof fn lemma_walk_agree(nodes: Seq<TrieNode>, a: u32, b: u32, depth: int)
    requires
        agree(a, b, depth),
    ensures
        walk(nodes, a, depth) == walk(nodes, b, depth),
    decreases depth,
{
    if depth > 0 {
        lemma_walk_agree(nodes, a, b, depth - 1);
        assert(bit(a, depth - 1) == bit(b, depth - 1));
    }
}

proof fn lemma_walk_ended(nodes: Seq<TrieNode>, address: u32, short: int, long: int)
    requires
        0 <= short <= long,
        walk(nodes, address, short) is None,
    ensures
        walk(nodes, address, long) is None,
    decreases long,
{
    if short < long {
        lemma_walk_ended(nodes, address, short, long - 1);
    }
}

/// Hanging a fresh leaf below `parent` leads no walk astray.
proof fn lemma_walk_grown(
    nodes: Seq<TrieNode>,
    grown: Seq<TrieNode>,
    paths: Seq<Seq<bool>>,
    parent: int,
    branch: bool,
    address: u32,
    depth: int,
)
    requires
        linked(nodes, paths),
        0 <= parent < nodes.len(),
        nodes[parent].child(branch) is None,
        grown.len() == nodes.len() + 1,
        forall|i: int, b: bool|
            0 <= i < nodes.len() && !(i == parent && b == branch) ==> #[trigger] grown[i].child(b)
                == nodes[i].child(b),
        forall|i: int| 0 <= i < nodes.len() ==> (#[trigger] grown[i]).terminal == nodes[i].terminal,
        grown[parent].child(branch) == Some(nodes.len() as usize),
        nodes.len() <= usize::MAX,
        forall|b: bool| grown[nodes.len() as int].child(b) is None,
        !grown[nodes.len() as int].terminal,
        0 <= depth,
    ensures
        walk(nodes, address, depth) is Some ==> walk(grown, address, depth) == walk(
            nodes,
            address,
            depth,
        ),
        walk(nodes, address, depth) is None ==> walk(grown, address, depth) is None || walk(
            grown,
            address,
            depth,
        ) == Some(nodes.len() as int),
    decreases depth,
{
    if depth > 0 {
        lemma_walk_grown(nodes, grown, paths, parent, branch, address, depth - 1);
        lemma_walk_valid(nodes, paths, address, depth - 1);
        let b = bit(address, depth - 1);
        match walk(nodes, address, depth - 1) {
            Some(node) => {
                if node == parent && b == branch {
                    assert(nodes[node].child(b) is None);
                } else {
                    assert(grown[node].child(b) == nodes[node].child(b));
                }
            },
            None => {
                if walk(grown, address, depth - 1) is Some {
                    assert(grown[nodes.len() as int].child(b) is None);
                }
            },
        }
    }
}

impl Ipv4Trie {
    #[verifier::type_invariant]
    spec fn well_formed(&self) -> bool {
        linked(self.nodes@, self.paths@)
    }

    /// Whether `address` lies in one of the prefixes.
    pub closed spec fn holds(&self, address: u32) -> bool {
        covers(self.nodes@, address)
    }

    /// The empty set of prefixes.
    pub fn new() -> (trie: Ipv4Trie)
        ensures
            forall|address: u32| !trie.holds(address),
    {
        let root = TrieNode { zero: None, one: None, terminal: false };
        let nodes: Vec<TrieNode> = vec![root];
        let ghost paths = seq![Seq::<bool>::empty()];
        let trie = Ipv4Trie { nodes, paths: Ghost(paths) };
        assert forall|address: u32| !trie.holds(address) by {
            assert forall|depth: int| !terminal_at(trie.nodes@, address, depth) by {
                if terminal_at(trie.nodes@, address, depth) {
                    use_linked(trie.nodes@, trie.paths@, address, depth);
                }
            }
        }
        trie
    }

    /// Adds the prefix made of the first `prefix` bits of `address`.
    pub fn insert(&mut self, address: u32, prefix: u8)
        requires
            prefix <= 32,
        ensures
            forall|x: u32|
                #[trigger] final(self).holds(x) <==> old(self).holds(x) || agree(
                    x,
                    address,
                    prefix as int,
                ),
    {
        proof {
            use_type_invariant(&*self);
        }
        let ghost before = self.nodes@;
        let mut taken = Ipv4Trie::new();
        std::mem::swap(&mut taken, self);
        let ghost mut paths = taken.paths@;
        let mut nodes = taken.nodes;
        let mut node: usize = 0;
        let mut i: u8 = 0;
        while i < prefix
            invariant
                i <= prefix <= 32,
                linked(nodes@, paths),
                node < nodes@.len(),
                walk(nodes@, address, i as int) == Some(node as int),
                forall|x: u32| #[trigger] covers(nodes@, x) == covers(before, x),
            decreases prefix - i,
        {
            let branch = bit_of(address, i as u32);
            let found = if branch {
                nodes[node].one
            } else {
                nodes[node].zero
            };
            assert(found == nodes@[node as int].child(branch));
            match found {
                Some(child) => {
                    node = child;
                },
                None => {
                    let ghost old_nodes = nodes@;
                    let ghost parent = node as int;
                    let child = nodes.len();
                    nodes.push(TrieNode { zero: None, one: None, terminal: false });
                    let mut changed = nodes[node];
                    if branch {
                        changed.one = Some(child);
                    } else {
                        changed.zero = Some(child);
                    }
                    nodes[node] = changed;
                    proof {
                        let old_paths = paths;
                        lemma_linked_grown(old_nodes, nodes@, old_paths, parent, branch);
                        paths = old_paths.push(old_paths[parent].push(branch));
                        assert forall|x: u32| #[trigger] covers(nodes@, x) == covers(before, x) by {
                            lemma_covers_grown(old_nodes, nodes@, old_paths, parent, branch, x);
                            assert(covers(old_nodes, x) == covers(before, x));
                        }
                        lemma_walk_grown(
                            old_nodes,
                            nodes@,
                            old_paths,
                            parent,
                            branch,
                            address,
                            i as int,
                        );
                    }
                    node = child;
                },
            }
            i = i + 1;
        }
        let ghost reached = nodes@;
        let mut changed = nodes[node];
        changed.terminal = true;
        nodes[node] = changed;
        proof {
            assert(linked(nodes@, paths)) by {
                assert forall|n: int, b: bool| 0 <= n < nodes@.len() implies (#[trigger] nodes@[n].child(
                    b,
                ) matches Some(c) ==> c < nodes@.len() && paths[c as int] == paths[n].push(b)) by {
                    assert(reached[n].child(b) == nodes@[n].child(b));
                }
            }
            assert forall|x: u32| #[trigger] covers(nodes@, x) <==> covers(before, x) || agree(
                x,
                address,
                prefix as int,
            ) by {
                lemma_covers_marked(reached, nodes@, paths, node as int, address, prefix as int, x);
                assert(covers(reached, x) == covers(before, x));
            }
        }
        *self = Ipv4Trie { nodes, paths: Ghost(paths) };
        assert forall|x: u32| #[trigger] self.holds(x) <==> covers(before, x) || agree(
            x,
            address,
            prefix as int,
        ) by {
            assert(self.holds(x) == covers(nodes@, x));
        }
    }
}

proof fn use_linked(nodes: Seq<TrieNode>, paths: Seq<Seq<bool>>, address: u32, depth: int)
    requires
        linked(nodes, paths),
        0 <= depth,
    ensures
        walk(nodes, address, depth) matches Some(node) ==> 0 <= node < nodes.len(),
{
    lemma_walk_valid(nodes, paths, address, depth);
}

proof fn lemma_linked_grown(
    nodes: Seq<TrieNode>,
    grown: Seq<TrieNode>,
    paths: Seq<Seq<bool>>,
    parent: int,
    branch: bool,
)
    requires
        linked(nodes, paths),
        0 <= parent < nodes.len(),
        grown.len() == nodes.len() + 1,
        forall|i: int, b: bool|
            0 <= i < nodes.len() && !(i == parent && b == branch) ==> #[trigger] grown[i].child(b)
                == nodes[i].child(b),
        grown[parent].child(branch) == Some(nodes.len() as usize),
        nodes.len() <= usize::MAX,
        forall|b: bool| grown[nodes.len() as int].child(b) is None,
    ensures
        linked(grown, paths.push(paths[parent].push(branch))),
{
    let longer = paths.push(paths[parent].push(branch));
    assert forall|n: int, b: bool| 0 <= n < grown.len() implies (#[trigger] grown[n].child(b) matches Some(
        c,
    ) ==> c < grown.len() && longer[c as int] == longer[n].push(b)) by {
        if n < nodes.len() && !(n == parent && b == branch) {
            assert(grown[n].child(b) == nodes[n].child(b));
        }
    }
}

proof fn lemma_covers_grown(
    nodes: Seq<TrieNode>,
    grown: Seq<TrieNode>,
    paths: Seq<Seq<bool>>,
    parent: int,
    branch: bool,
    x: u32,
)
    requires
        linked(nodes, paths),
        0 <= parent < nodes.len(),
        nodes[parent].child(branch) is None,
        grown.len() == nodes.len() + 1,
        forall|i: int, b: bool|
            0 <= i < nodes.len() && !(i == parent && b == branch) ==> #[trigger] grown[i].child(b)
                == nodes[i].child(b),
        forall|i: int| 0 <= i < nodes.len() ==> (#[trigger] grown[i]).terminal == nodes[i].terminal,
        grown[parent].child(branch) == Some(nodes.len() as usize),
        nodes.len() <= usize::MAX,
        forall|b: bool| grown[nodes.len() as int].child(b) is None,
        !grown[nodes.len() as int].terminal,
    ensures
        covers(grown, x) == covers(nodes, x),
{
    assert forall|depth: int| 0 <= depth implies #[trigger] terminal_at(grown, x, depth)
        == terminal_at(nodes, x, depth) by {
        lemma_walk_grown(nodes, grown, paths, parent, branch, x, depth);
        lemma_walk_valid(nodes, paths, x, depth);
    }
    if covers(grown, x) {
        let depth = choose|depth: int| #[trigger] terminal_at(grown, x, depth);
        assert(terminal_at(nodes, x, depth));
    }
    if covers(nodes, x) {
        let depth = choose|depth: int| #[trigger] terminal_at(nodes, x, depth);
        assert(terminal_at(grown, x, depth));
    }
}

proof fn lemma_walk_marked(
    nodes: Seq<TrieNode>,
    marked: Seq<TrieNode>,
    paths: Seq<Seq<bool>>,
    x: u32,
    depth: int,
)
    requires
        linked(nodes, paths),
        marked.len() == nodes.len(),
        forall|i: int, b: bool|
            0 <= i < nodes.len() ==> #[trigger] marked[i].child(b) == nodes[i].child(b),
        0 <= depth,
    ensures
        walk(marked, x, depth) == walk(nodes, x, depth),
    decreases depth,
{
    if depth > 0 {
        lemma_walk_marked(nodes, marked, paths, x, depth - 1);
        lemma_walk_valid(nodes, paths, x, depth - 1);
        if let Some(node) = walk(nodes, x, depth - 1) {
            assert(marked[node].child(bit(x, depth - 1)) == nodes[node].child(bit(x, depth - 1)));
        }
    }
}

/// Marking the node that `address` leads to in `prefix` steps adds exactly the
/// addresses that agree with it that far.
proof fn lemma_covers_marked(
    nodes: Seq<TrieNode>,
    marked: Seq<TrieNode>,
    paths: Seq<Seq<bool>>,
    target: int,
    address: u32,
    prefix: int,
    x: u32,
)
    requires
        linked(nodes, paths),
        0 <= prefix <= 32,
        walk(nodes, address, prefix) == Some(target),
        0 <= target < nodes.len(),
        marked.len() == nodes.len(),
        forall|i: int, b: bool|
            0 <= i < nodes.len() ==> #[trigger] marked[i].child(b) == nodes[i].child(b),
        forall|i: int|
            0 <= i < nodes.len() ==> (#[trigger] marked[i]).terminal == (nodes[i].terminal || i
                == target),
    ensures
        covers(marked, x) <==> covers(nodes, x) || agree(x, address, prefix),
{
    lemma_walk_valid(nodes, paths, address, prefix);
    if agree(x, address, prefix) {
        lemma_walk_agree(nodes, x, address, prefix);
        lemma_walk_marked(nodes, marked, paths, x, prefix);
        assert(terminal_at(marked, x, prefix));
    }
    if covers(nodes, x) {
        let depth = choose|depth: int| #[trigger] terminal_at(nodes, x, depth);
        lemma_walk_marked(nodes, marked, paths, x, depth);
        lemma_walk_valid(nodes, paths, x, depth);
        assert(terminal_at(marked, x, depth));
    }
    if covers(marked, x) {
        let depth = choose|depth: int| #[trigger] terminal_at(marked, x, depth);
        lemma_walk_marked(nodes, marked, paths, x, depth);
        lemma_walk_valid(nodes, paths, x, depth);
        let node = walk(nodes, x, depth)->0;
        if node == target {
            assert(bits(x, depth) == bits(address, prefix));
            assert(bits(x, depth).len() == depth && bits(address, prefix).len() == prefix);
            assert forall|i: int| 0 <= i < prefix implies #[trigger] bit(x, i) == bit(address, i) by {
                assert(bits(x, depth)[i] == bits(address, prefix)[i]);
            }
        } else {
            assert(terminal_at(nodes, x, depth));
        }
    }
}

impl Ipv4Trie {
    /// Whether `address` lies in one of the prefixes.
    pub fn contains(&self, address: u32) -> (found: bool)
        ensures
            found == self.holds(address),
    {
        proof {
            use_type_invariant(self);
        }
        let mut node: usize = 0;
        if self.nodes[node].terminal {
            assert(terminal_at(self.nodes@, address, 0));
            return true;
        }
        let mut i: u32 = 0;
        while i < 32
            invariant
                i <= 32,
                linked(self.nodes@, self.paths@),
                node < self.nodes@.len(),
                walk(self.nodes@, address, i as int) == Some(node as int),
                forall|d: int| 0 <= d <= i ==> !terminal_at(self.nodes@, address, d),
            decreases 32 - i,
        {
            let branch = bit_of(address, i);
            let found = if branch {
                self.nodes[node].one
            } else {
                self.nodes[node].zero
            };
            assert(found == self.nodes@[node as int].child(branch));
            match found {
                None => {
                    proof {
                        assert forall|d: int| !terminal_at(self.nodes@, address, d) by {
                            if i < d {
                                lemma_walk_ended(self.nodes@, address, i + 1, d);
                            }
                        }
                    }
                    return false;
                },
                Some(child) => {
                    node = child;
                },
            }
            i = i + 1;
            if self.nodes[node].terminal {
                assert(terminal_at(self.nodes@, address, i as int));
                return true;
            }
        }
        false
    }
}

impl Default for Ipv4Trie {
    fn default() -> (trie: Ipv4Trie)
        ensures
            forall|address: u32| !trie.holds(address),
    {
        Ipv4Trie::new()
    }
}

} // verus!
