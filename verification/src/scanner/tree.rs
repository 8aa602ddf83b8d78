use crate::scanner::detector::DirEntry;
use vstd::prelude::*;

verus! {

/// One directory of a scanned tree.
#[derive(Debug)]
pub struct DirNode {
    /// Name of the directory within its parent.
    pub name: String,
    /// Position of the parent directory in the tree; none for the scan root.
    pub parent: Option<usize>,
    /// What the directory holds.
    pub entries: Vec<DirEntry>,
    /// Modification time of the directory, in seconds since the epoch.
    pub modified: i64,
    /// Content of the ignore file kept in the directory, if there is one.
    pub ignore_file: Option<String>,
}

/// Whether a list of nodes forms a tree: the first node is the only root and
/// every other node comes after its parent.
pub open spec fn well_formed(nodes: Seq<DirNode>) -> bool {
    &&& nodes.len() > 0
    &&& nodes[0].parent is None
    &&& forall|i: int|
        0 < i < nodes.len() ==> (#[trigger] nodes[i]).parent is Some && nodes[i].parent->0 < i
}

/// A snapshot of the directories below a scan root, parents before children.
/// Every tree that `new` and `add_dir` build is `well_formed`.
#[derive(Debug)]
pub struct FsTree {
    nodes: Vec<DirNode>,
}

impl View for FsTree {
    type V = Seq<DirNode>;

    closed spec fn view(&self) -> Seq<DirNode> {
        self.nodes@
    }
}

impl FsTree {
    /// A tree that holds only the scan root.
    pub fn new(
        name: String,
        entries: Vec<DirEntry>,
        modified: i64,
        ignore_file: Option<String>,
    ) -> (tree: FsTree)
        ensures
            well_formed(tree@),
            tree@.len() == 1,
            tree@[0].name == name,
            tree@[0].parent is None,
            tree@[0].entries == entries,
            tree@[0].modified == modified,
            tree@[0].ignore_file == ignore_file,
    {
        let mut nodes: Vec<DirNode> = Vec::new();
        nodes.push(DirNode { name, parent: None, entries, modified, ignore_file });
        FsTree { nodes }
    }

    /// Adds a directory below the node at `parent` and returns its position.
    /// A `parent` that is not in the tree adds nothing.
    pub fn add_dir(
        &mut self,
        parent: usize,
        name: String,
        entries: Vec<DirEntry>,
        modified: i64,
        ignore_file: Option<String>,
    ) -> (added: Option<usize>)
        requires
            well_formed(old(self)@),
        ensures
            well_formed(final(self)@),
            parent >= old(self)@.len() ==> added is None && final(self)@ == old(self)@,
            parent < old(self)@.len() ==> {
                &&& added == Some(old(self)@.len() as usize)
                &&& final(self)@.len() == old(self)@.len() + 1
                &&& final(self)@.drop_last() == old(self)@
                &&& final(self)@.last().name == name
                &&& final(self)@.last().parent == Some(parent)
                &&& final(self)@.last().entries == entries
                &&& final(self)@.last().modified == modified
                &&& final(self)@.last().ignore_file == ignore_file
            },
    {
        if parent >= self.nodes.len() {
            return None;
        }
        let at = self.nodes.len();
        let ghost before = self.nodes@;
        self.nodes.push(DirNode { name, parent: Some(parent), entries, modified, ignore_file });
        assert(self.nodes@.drop_last() =~= before);
        assert forall|i: int| 0 < i < self.nodes@.len() implies (#[trigger] self.nodes@[i]).parent
            is Some && self.nodes@[i].parent->0 < i by {
            if i < before.len() {
                assert(self.nodes@[i] == before[i]);
            }
        }
        Some(at)
    }

    /// The number of directories in the tree.
    pub fn len(&self) -> (n: usize)
        ensures
            n == self@.len(),
    {
        self.nodes.len()
    }

    /// The directory at position `i`.
    pub fn node(&self, i: usize) -> (node: &DirNode)
        requires
            i < self@.len(),
        ensures
            *node == self@[i as int],
    {
        &self.nodes[i]
    }

    /// The directory at position `i`, if the tree has that many.
    pub fn get(&self, i: usize) -> (node: Option<&DirNode>)
        ensures
            i < self@.len() ==> node == Some(&self@[i as int]),
            i >= self@.len() ==> node is None,
    {
        if i < self.nodes.len() {
            Some(&self.nodes[i])
        } else {
            None
        }
    }
}

} // verus!
