//! Finding the nodes of a file system on disk, and finding files among them
//! by name.

use vstd::prelude::*;
use crate::extent::Extent;

verus! {

/// What is read of a node: the block it lies at and its name.
#[derive(Clone, Debug, PartialEq, Eq)]
pub struct Node {
    pub block: u64,
    pub name: Vec<u8>,
}

/// A node as a value of the model.
pub struct NodeView {
    pub block: u64,
    pub name: Seq<u8>,
}

impl View for Node {
    type V = NodeView;

    open spec fn view(&self) -> NodeView {
        NodeView { block: self.block, name: self.name@ }
    }
}

/// The nodes of a file system, in the order in which they were found.
#[derive(Clone, Debug, PartialEq, Eq)]
pub struct FileSystem {
    pub nodes: Vec<Node>,
}

/// The blocks of one extent that hold a node: one for each whole 512 bytes
/// of the extent, from its first block on; none if the extent is a sentinel.
pub open spec fn spec_extent_blocks(e: Extent) -> Seq<u64> {
    if e.is_sentinel() {
        Seq::empty()
    } else {
        Seq::new((e.length / 512) as nat, |i: int| (e.block + i) as u64)
    }
}

/// The blocks that hold a node, extent after extent.
pub open spec fn spec_node_blocks(extents: Seq<Extent>) -> Seq<u64>
    decreases extents.len(),
{
    if extents.len() == 0 {
        Seq::empty()
    } else {
        spec_node_blocks(extents.drop_last()) + spec_extent_blocks(extents.last())
    }
}

/// Whether `name` begins with `prefix`.
pub open spec fn spec_starts_with(name: Seq<u8>, prefix: Seq<u8>) -> bool {
    prefix.len() <= name.len() && name.subrange(0, prefix.len() as int) == prefix
}

/// What a name must begin with to lie in a directory: the directory's name
/// and a slash, or nothing for the root.
pub open spec fn spec_prefix(directory: Seq<u8>) -> Seq<u8> {
    if directory.len() == 0 {
        directory
    } else {
        directory.push(0x2F)
    }
}

/// The names below a prefix, each without the prefix, in the order of the
/// nodes.
pub open spec fn spec_list(nodes: Seq<NodeView>, prefix: Seq<u8>) -> Seq<Seq<u8>>
    decreases nodes.len(),
{
    if nodes.len() == 0 {
        Seq::empty()
    } else {
        let before = spec_list(nodes.drop_last(), prefix);
        let name = nodes.last().name;
        if spec_starts_with(name, prefix) {
            before.push(name.subrange(prefix.len() as int, name.len() as int))
        } else {
            before
        }
    }
}

/// The views of a run of names.
pub open spec fn spec_names(names: Seq<Vec<u8>>) -> Seq<Seq<u8>> {
    Seq::new(names.len(), |i: int| names[i]@)
}

/// The views of a run of nodes.
pub open spec fn spec_nodes(nodes: Seq<Node>) -> Seq<NodeView> {
    Seq::new(nodes.len(), |i: int| nodes[i]@)
}

/// Whether every extent ends inside the disk's address space.
pub open spec fn spec_extents_fit(extents: Seq<Extent>) -> bool {
    forall|i: int| 0 <= i < extents.len() ==> (#[trigger] extents[i]).block + extents[i].length / 512
        <= u64::MAX
}

/// Whether every extent ends inside the disk's address space.
pub fn extents_fit(extents: &Vec<Extent>) -> (r: bool)
    ensures
        r == spec_extents_fit(extents@),
{
    let mut i: usize = 0;
    while i < extents.len()
        invariant
            i <= extents.len(),
            forall|j: int|
                0 <= j < i ==> (#[trigger] extents@[j]).block + extents@[j].length / 512
                    <= u64::MAX,
        decreases extents.len() - i,
    {
        if extents[i].length / 512 > u64::MAX - extents[i].block {
            return false;
        }
        i = i + 1;
    }
    true
}

/// The blocks that hold the nodes of a file system whose header names
/// these extents.
pub fn node_blocks(extents: &Vec<Extent>) -> (blocks: Vec<u64>)
    requires
        spec_extents_fit(extents@),
    ensures
        blocks@ == spec_node_blocks(extents@),
{
    let mut blocks: Vec<u64> = Vec::new();
    let mut n: usize = 0;
    while n < extents.len()
        invariant
            spec_extents_fit(extents@),
            n <= extents.len(),
            blocks@ == spec_node_blocks(extents@.subrange(0, n as int)),
        decreases extents.len() - n,
    {
        let e = extents[n];
        let ghost before = blocks@;
        if !e.empty() {
            let count: u64 = e.length / 512;
            let mut i: u64 = 0;
            while i < count
                invariant
                    !e.is_sentinel(),
                    e.block + e.length / 512 <= u64::MAX,
                    count == e.length / 512,
                    i <= count,
                    blocks@.len() == before.len() + i,
                    forall|j: int| 0 <= j < before.len() ==> blocks@[j] == before[j],
                    forall|j: int|
                        before.len() <= j < blocks@.len() ==> blocks@[j] == (e.block + (j
                            - before.len())) as u64,
                decreases count - i,
            {
                blocks.push(e.block + i);
                i = i + 1;
            }
        }
        proof {
            let next = extents@.subrange(0, n + 1);
            assert(next.drop_last() =~= extents@.subrange(0, n as int));
            assert(next.last() == e);
            assert(blocks@ =~= before + spec_extent_blocks(e));
        }
        n = n + 1;
    }
    assert(extents@.subrange(0, extents@.len() as int) =~= extents@);
    blocks
}

/// Whether `name` begins with `prefix`.
pub fn starts_with(name: &Vec<u8>, prefix: &Vec<u8>) -> (r: bool)
    ensures
        r == spec_starts_with(name@, prefix@),
{
    if prefix.len() > name.len() {
        return false;
    }
    let mut i: usize = 0;
    while i < prefix.len()
        invariant
            i <= prefix.len() <= name.len(),
            forall|j: int| 0 <= j < i ==> name@[j] == prefix@[j],
        decreases prefix.len() - i,
    {
        if name[i] != prefix[i] {
            assert(name@.subrange(0, prefix@.len() as int)[i as int] != prefix@[i as int]);
            return false;
        }
        i = i + 1;
    }
    assert(name@.subrange(0, prefix@.len() as int) =~= prefix@);
    true
}

/// How many bytes of `name` name the directory it lies in, slash included,
/// if it lies in `directory`.
fn below(name: &Vec<u8>, directory: &Vec<u8>) -> (r: Option<usize>)
    ensures
        match r {
            Some(k) => spec_starts_with(name@, spec_prefix(directory@)) && k == spec_prefix(
                directory@,
            ).len(),
            None => !spec_starts_with(name@, spec_prefix(directory@)),
        },
{
    let ghost prefix = spec_prefix(directory@);
    if directory.len() == 0 {
        assert(name@.subrange(0, 0) =~= prefix);
        return Some(0);
    }
    if name.len() <= directory.len() {
        return None;
    }
    if !starts_with(name, directory) {
        assert(!spec_starts_with(name@, prefix)) by {
            if spec_starts_with(name@, prefix) {
                assert(name@.subrange(0, directory@.len() as int) =~= name@.subrange(
                    0,
                    prefix.len() as int,
                ).subrange(0, directory@.len() as int));
                assert(prefix.subrange(0, directory@.len() as int) =~= directory@);
            }
        }
        return None;
    }
    if name[directory.len()] != 0x2F {
        assert(name@.subrange(0, prefix.len() as int)[directory@.len() as int] != prefix[directory@.len() as int]);
        return None;
    }
    assert(name@.subrange(0, prefix.len() as int) =~= name@.subrange(
        0,
        directory@.len() as int,
    ).push(0x2F));
    Some(directory.len() + 1)
}

/// The bytes of `name` from `from` on.
fn tail(name: &Vec<u8>, from: usize) -> (out: Vec<u8>)
    requires
        from <= name.len(),
    ensures
        out@ == name@.subrange(from as int, name@.len() as int),
{
    let mut out: Vec<u8> = Vec::new();
    let mut i: usize = from;
    while i < name.len()
        invariant
            from <= i <= name.len(),
            out@ == name@.subrange(from as int, i as int),
        decreases name.len() - i,
    {
        out.push(name[i]);
        assert(out@ =~= name@.subrange(from as int, i + 1));
        i = i + 1;
    }
    out
}

impl FileSystem {
    /// The nodes of a file system, given the extents that its header names
    /// and the names read from the blocks that hold a node, in order: node
    /// `i` lies in the `i`-th of those blocks and has the `i`-th name.
    /// Nothing is made unless there is one name for each block.
    pub fn from_disk(extents: &Vec<Extent>, names: &Vec<Vec<u8>>) -> (r: Option<FileSystem>)
        requires
            spec_extents_fit(extents@),
        ensures
            match r {
                Some(fs) => {
                    &&& names@.len() == spec_node_blocks(extents@).len()
                    &&& fs.nodes@.len() == names@.len()
                    &&& forall|i: int|
                        0 <= i < fs.nodes@.len() ==> (#[trigger] fs.nodes@[i]).block
                            == spec_node_blocks(extents@)[i] && fs.nodes@[i].name@ == names@[i]@
                },
                None => names@.len() != spec_node_blocks(extents@).len(),
            },
    {
        let blocks = node_blocks(extents);
        if blocks.len() != names.len() {
            return None;
        }
        let mut nodes: Vec<Node> = Vec::new();
        let mut i: usize = 0;
        while i < blocks.len()
            invariant
                blocks@ == spec_node_blocks(extents@),
                names@.len() == blocks@.len(),
                i <= blocks@.len(),
                nodes@.len() == i,
                forall|j: int|
                    0 <= j < i ==> (#[trigger] nodes@[j]).block == blocks@[j] && nodes@[j].name@
                        == names@[j]@,
            decreases blocks.len() - i,
        {
            let name = tail(&names[i], 0);
            assert(name@ =~= names@[i as int]@);
            nodes.push(Node { block: blocks[i], name });
            i = i + 1;
        }
        Some(FileSystem { nodes })
    }

    /// The first node with this name.
    pub fn node(&self, filename: &Vec<u8>) -> (r: Option<Node>)
        ensures
            match r {
                Some(node) => exists|i: int|
                    0 <= i < self.nodes@.len() && node@ == (#[trigger] self.nodes@[i])@
                        && node.name@ == filename@ && forall|j: int|
                        0 <= j < i ==> (#[trigger] self.nodes@[j]).name@ != filename@,
                None => forall|i: int|
                    0 <= i < self.nodes@.len() ==> (#[trigger] self.nodes@[i]).name@ != filename@,
            },
    {
        let mut i: usize = 0;
        while i < self.nodes.len()
            invariant
                i <= self.nodes.len(),
                forall|j: int| 0 <= j < i ==> (#[trigger] self.nodes@[j]).name@ != filename@,
            decreases self.nodes.len() - i,
        {
            let node = &self.nodes[i];
            if node.name.len() == filename.len() && starts_with(&node.name, filename) {
                assert(node.name@.subrange(0, filename@.len() as int) =~= node.name@);
                let found = Node { block: node.block, name: tail(&node.name, 0) };
                assert(found.name@ =~= node.name@);
                return Some(found);
            }
            assert(node.name@ != filename@) by {
                if node.name@ == filename@ {
                    assert(node.name@.subrange(0, filename@.len() as int) =~= filename@);
                }
            }
            i = i + 1;
        }
        None
    }

    /// The names of the nodes in a directory, each without the directory's
    /// name and the slash after it; for the empty name, every name as it is.
    pub fn list(&self, directory: &Vec<u8>) -> (names: Vec<Vec<u8>>)
        ensures
            spec_names(names@) == spec_list(spec_nodes(self.nodes@), spec_prefix(directory@)),
    {
        let ghost prefix = spec_prefix(directory@);
        let mut names: Vec<Vec<u8>> = Vec::new();
        let mut i: usize = 0;
        while i < self.nodes.len()
            invariant
                i <= self.nodes.len(),
                prefix == spec_prefix(directory@),
                spec_names(names@) == spec_list(
                    spec_nodes(self.nodes@).subrange(0, i as int),
                    prefix,
                ),
            decreases self.nodes.len() - i,
        {
            let node = &self.nodes[i];
            let ghost before = names@;
            let skip = below(&node.name, directory);
            match skip {
                Some(k) => {
                    names.push(tail(&node.name, k));
                },
                None => {},
            }
            proof {
                let next = spec_nodes(self.nodes@).subrange(0, i + 1);
                assert(next.drop_last() =~= spec_nodes(self.nodes@).subrange(0, i as int));
                assert(next.last() == node@);
                if skip.is_some() {
                    assert(spec_names(names@) =~= spec_names(before).push(
                        node.name@.subrange(prefix.len() as int, node.name@.len() as int),
                    ));
                }
            }
            i = i + 1;
        }
        assert(spec_nodes(self.nodes@).subrange(0, self.nodes@.len() as int) =~= spec_nodes(
            self.nodes@,
        ));
        names
    }
}

} // verus!
