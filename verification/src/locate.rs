//! Finding the workspace root above a starting directory.
//!
//! The walk goes from a directory to its parent until it meets the marker. It
//! never leaves the filesystem it started on, and it ends at the root.
//!
//! Two things live here. `Locator` holds the decisions of the walk: the
//! caller looks at one directory, reports what it saw, and is told whether to
//! stop or to go up. `FsTree` is a recorded directory tree, and
//! `find_ciel_dir` runs the same decisions over it; what the walk finds is
//! stated and proved there for every tree.

use vstd::prelude::*;

verus! {

/// What was seen of one directory.
#[derive(Debug, Clone, Copy, PartialEq, Eq)]
pub struct DirProbe {
    /// The directory is there.
    pub exists: bool,
    /// The device that holds it.
    pub dev: u64,
    /// Its number on that device.
    pub ino: u64,
    /// It has the marker directory in it.
    pub has_marker: bool,
}

/// Why no workspace root was found.
#[derive(Debug, Clone, Copy, PartialEq, Eq)]
pub enum LocateError {
    /// The starting directory is not there.
    NoStart,
    /// A directory on the way up is not there.
    Ceiling,
    /// A directory on the way up lies on another device.
    Boundary { expected: u64, found: u64 },
    /// The root was reached and no directory on the way had the marker.
    NoWorkspace,
}

/// What the walk does after it has looked at a directory.
#[derive(Debug, Clone, Copy, PartialEq, Eq)]
pub enum LocateStep {
    /// This directory is the workspace root.
    Found,
    /// Look at the parent next.
    Ascend,
    /// Give up.
    Failed(LocateError),
}

/// The state of a walk: the device it started on and the directory it came
/// from.
#[derive(Debug, Clone, Copy, PartialEq, Eq)]
pub struct Locator {
    /// The device of the starting directory.
    pub start_dev: u64,
    /// The number of the directory that was looked at last, if any was.
    pub last_ino: Option<u64>,
}

/// The decision for one directory.
///
/// A directory that is gone ends the walk, and so does one on another
/// device. A directory with the marker is the answer. A directory that is
/// its own parent is the root: the step up from it led nowhere, and the walk
/// is over. Anything else is passed.
pub open spec fn verdict(start_dev: u64, last_ino: Option<u64>, probe: DirProbe) -> LocateStep {
    if !probe.exists {
        LocateStep::Failed(LocateError::Ceiling)
    } else if probe.dev != start_dev {
        LocateStep::Failed(LocateError::Boundary { expected: start_dev, found: probe.dev })
    } else if probe.has_marker {
        LocateStep::Found
    } else if last_ino == Some(probe.ino) {
        LocateStep::Failed(LocateError::NoWorkspace)
    } else {
        LocateStep::Ascend
    }
}

impl Locator {
    /// A walk that starts on the device `start_dev`.
    pub fn new(start_dev: u64) -> (locator: Locator)
        ensures
            locator.start_dev == start_dev,
            locator.last_ino is None,
    {
        Locator { start_dev, last_ino: None }
    }

    /// Takes what was seen of the current directory and decides.
    ///
    /// After `Ascend` the walk remembers this directory, so that it can tell
    /// when a step up has led back to it.
    pub fn step(&mut self, probe: &DirProbe) -> (next: LocateStep)
        ensures
            next == verdict(old(self).start_dev, old(self).last_ino, *probe),
            final(self).start_dev == old(self).start_dev,
            final(self).last_ino == if next is Ascend {
                Some(probe.ino)
            } else {
                old(self).last_ino
            },
    {
        if !probe.exists {
            LocateStep::Failed(LocateError::Ceiling)
        } else if probe.dev != self.start_dev {
            LocateStep::Failed(
                LocateError::Boundary { expected: self.start_dev, found: probe.dev },
            )
        } else if probe.has_marker {
            LocateStep::Found
        } else {
            match self.last_ino {
                Some(last) if last == probe.ino => LocateStep::Failed(LocateError::NoWorkspace),
                _ => {
                    self.last_ino = Some(probe.ino);
                    LocateStep::Ascend
                },
            }
        }
    }
}

/// One directory of a recorded tree.
#[derive(Debug, Clone, Copy, PartialEq, Eq)]
pub struct DirNode {
    /// The index of the parent. The root is its own parent.
    pub parent: usize,
    /// The directory is there.
    pub exists: bool,
    /// The device that holds it.
    pub dev: u64,
    /// It has the marker directory in it.
    pub has_marker: bool,
}

/// In a tree no directory comes before its parent. A directory that is its
/// own parent is a root.
pub open spec fn well_formed(nodes: Seq<DirNode>) -> bool {
    forall|i: int| 0 <= i < nodes.len() ==> (#[trigger] nodes[i]).parent <= i
}

/// The directory `k` steps above `start`.
pub open spec fn ancestor(nodes: Seq<DirNode>, start: int, k: nat) -> int
    decreases k,
{
    if k == 0 {
        start
    } else {
        nodes[ancestor(nodes, start, (k - 1) as nat)].parent as int
    }
}

/// The walk goes past the directory `at`: it is there, on the device `dev`,
/// without the marker, and not the root.
pub open spec fn passes(nodes: Seq<DirNode>, dev: u64, at: int) -> bool {
    &&& nodes[at].exists
    &&& nodes[at].dev == dev
    &&& !nodes[at].has_marker
    &&& nodes[at].parent != at
}

/// What the walk returns when it stops at the directory `at`.
pub open spec fn outcome(nodes: Seq<DirNode>, dev: u64, at: int) -> Result<usize, LocateError> {
    if !nodes[at].exists {
        Err(LocateError::Ceiling)
    } else if nodes[at].dev != dev {
        Err(LocateError::Boundary { expected: dev, found: nodes[at].dev })
    } else if nodes[at].has_marker {
        Ok(at as usize)
    } else {
        Err(LocateError::NoWorkspace)
    }
}

/// The walk from `start` stops `k` steps up: it goes past every directory
/// below that one, and not past that one.
pub open spec fn stops_after(nodes: Seq<DirNode>, start: int, k: nat) -> bool {
    &&& forall|j: nat| j < k ==> passes(nodes, nodes[start].dev, #[trigger] ancestor(nodes, start, j))
    &&& !passes(nodes, nodes[start].dev, ancestor(nodes, start, k))
}

/// A recorded directory tree: what a walk would see, taken down beforehand.
#[derive(Debug, PartialEq, Eq)]
pub struct FsTree {
    nodes: Vec<DirNode>,
}

impl View for FsTree {
    type V = Seq<DirNode>;

    closed spec fn view(&self) -> Seq<DirNode> {
        self.nodes@
    }
}

impl FsTree {
    #[verifier::type_invariant]
    spec fn inv(&self) -> bool {
        well_formed(self.nodes@)
    }

    /// Makes a tree of `nodes`, if they form one.
    pub fn new(nodes: Vec<DirNode>) -> (tree: Option<FsTree>)
        ensures
            match tree {
                Some(t) => t@ == nodes@ && well_formed(nodes@),
                None => !well_formed(nodes@),
            },
    {
        let mut i: usize = 0;
        while i < nodes.len()
            invariant
                i <= nodes@.len(),
                forall|k: int| 0 <= k < i ==> (#[trigger] nodes@[k]).parent <= k,
            decreases nodes@.len() - i,
        {
            if nodes[i].parent > i {
                return None;
            }
            i += 1;
        }
        Some(FsTree { nodes })
    }

    /// The number of directories.
    pub fn len(&self) -> (n: usize)
        ensures
            n == self@.len(),
    {
        self.nodes.len()
    }

    /// What a look at the directory `at` shows. Its number is its index.
    pub fn probe(&self, at: usize) -> (probe: DirProbe)
        requires
            at < self@.len(),
        ensures
            probe.exists == self@[at as int].exists,
            probe.dev == self@[at as int].dev,
            probe.ino == at,
            probe.has_marker == self@[at as int].has_marker,
    {
        let node = &self.nodes[at];
        DirProbe { exists: node.exists, dev: node.dev, ino: at as u64, has_marker: node.has_marker }
    }
}

/// No ancestor lies outside the tree, and none comes after `start`.
pub proof fn lemma_ancestor_in_tree(nodes: Seq<DirNode>, start: int, k: nat)
    requires
        well_formed(nodes),
        0 <= start < nodes.len(),
    ensures
        0 <= ancestor(nodes, start, k) <= start,
    decreases k,
{
    if k > 0 {
        lemma_ancestor_in_tree(nodes, start, (k - 1) as nat);
    }
}

/// As long as the walk goes past directories, each step takes it to a lower
/// index: after `k` steps it is at least `k` below `start`.
pub proof fn lemma_walk_descends(nodes: Seq<DirNode>, start: int, k: nat)
    requires
        well_formed(nodes),
        0 <= start < nodes.len(),
        forall|j: nat| j < k ==> passes(nodes, nodes[start].dev, #[trigger] ancestor(nodes, start, j)),
    ensures
        ancestor(nodes, start, k) <= start - k,
    decreases k,
{
    if k > 0 {
        let below = (k - 1) as nat;
        lemma_walk_descends(nodes, start, below);
        lemma_ancestor_in_tree(nodes, start, below);
        assert(passes(nodes, nodes[start].dev, ancestor(nodes, start, below)));
    }
}

/// The walk stops, and it stops once: there is a number of steps after which
/// it stops, it is at most `start`, and no other number will do.
pub proof fn lemma_walk_stops_once(nodes: Seq<DirNode>, start: int) -> (k: nat)
    requires
        well_formed(nodes),
        0 <= start < nodes.len(),
    ensures
        k <= start,
        stops_after(nodes, start, k),
        forall|other: nat| stops_after(nodes, start, other) ==> other == k,
{
    let k = lemma_walk_stops_from(nodes, start, 0);
    assert forall|other: nat| stops_after(nodes, start, other) implies other == k by {
        if other < k {
            assert(passes(nodes, nodes[start].dev, ancestor(nodes, start, other)));
        } else if k < other {
            assert(passes(nodes, nodes[start].dev, ancestor(nodes, start, k)));
        }
    }
    k
}

/// From `done` steps that the walk has gone past, it stops somewhere above.
proof fn lemma_walk_stops_from(nodes: Seq<DirNode>, start: int, done: nat) -> (k: nat)
    requires
        well_formed(nodes),
        0 <= start < nodes.len(),
        forall|j: nat| j < done ==> passes(nodes, nodes[start].dev, #[trigger] ancestor(nodes, start, j)),
    ensures
        done <= k <= start,
        stops_after(nodes, start, k),
    decreases start - done,
{
    lemma_walk_descends(nodes, start, done);
    lemma_ancestor_in_tree(nodes, start, done);
    if passes(nodes, nodes[start].dev, ancestor(nodes, start, done)) {
        lemma_walk_descends(nodes, start, done + 1);
        lemma_ancestor_in_tree(nodes, start, done + 1);
        lemma_walk_stops_from(nodes, start, done + 1)
    } else {
        done
    }
}

/// What a successful walk has found.
///
/// If the walk from `start` stops after `k` steps at a directory with the
/// marker, then that directory is the nearest one above `start` that has it,
/// and it and every directory below it on the way are there and lie on the
/// device of `start`.
pub proof fn lemma_found_is_nearest(nodes: Seq<DirNode>, start: usize, k: nat, root: usize)
    requires
        well_formed(nodes),
        start < nodes.len(),
        nodes[start as int].exists,
        stops_after(nodes, start as int, k),
        outcome(nodes, nodes[start as int].dev, ancestor(nodes, start as int, k)) == Ok::<
            usize,
            LocateError,
        >(root),
    ensures
        root == ancestor(nodes, start as int, k),
        nodes[root as int].has_marker,
        forall|j: nat| j < k ==> !nodes[#[trigger] ancestor(nodes, start as int, j)].has_marker,
        forall|j: nat|
            j <= k ==> {
                &&& nodes[#[trigger] ancestor(nodes, start as int, j)].exists
                &&& nodes[ancestor(nodes, start as int, j)].dev == nodes[start as int].dev
            },
{
    lemma_ancestor_in_tree(nodes, start as int, k);
    assert forall|j: nat| j < k implies !nodes[#[trigger] ancestor(
        nodes,
        start as int,
        j,
    )].has_marker by {
        assert(passes(nodes, nodes[start as int].dev, ancestor(nodes, start as int, j)));
    }
    assert forall|j: nat| j <= k implies {
        &&& nodes[#[trigger] ancestor(nodes, start as int, j)].exists
        &&& nodes[ancestor(nodes, start as int, j)].dev == nodes[start as int].dev
    } by {
        if j < k {
            assert(passes(nodes, nodes[start as int].dev, ancestor(nodes, start as int, j)));
        }
    }
}

/// Walks up from the directory `start` of a recorded tree to the nearest
/// directory that has the marker.
///
/// A `start` that is not in the tree, or not there, is `NoStart`. Otherwise
/// the walk stops at the first directory it cannot go past, and that
/// directory decides: its index if it has the marker, `Ceiling` if it is
/// gone, `Boundary` if it lies on another device, and `NoWorkspace` if it is
/// the root.
pub fn find_ciel_dir(tree: &FsTree, start: usize) -> (found: Result<usize, LocateError>)
    ensures
        start >= tree@.len() || !tree@[start as int].exists ==> found == Err::<usize, LocateError>(
            LocateError::NoStart,
        ),
        start < tree@.len() && tree@[start as int].exists ==> exists|k: nat|
            {
                &&& k <= start
                &&& #[trigger] stops_after(tree@, start as int, k)
                &&& found == outcome(
                    tree@,
                    tree@[start as int].dev,
                    ancestor(tree@, start as int, k),
                )
            },
{
    proof {
        use_type_invariant(tree);
    }
    if start >= tree.len() {
        return Err(LocateError::NoStart);
    }
    let first = tree.probe(start);
    if !first.exists {
        return Err(LocateError::NoStart);
    }
    let mut locator = Locator::new(first.dev);
    let mut current = start;
    let ghost mut k: nat = 0;
    loop
        invariant
            well_formed(tree@),
            start < tree@.len(),
            tree@[start as int].exists,
            locator.start_dev == tree@[start as int].dev,
            current == ancestor(tree@, start as int, k),
            current < tree@.len(),
            k <= start - current,
            forall|j: nat|
                j < k ==> passes(
                    tree@,
                    tree@[start as int].dev,
                    #[trigger] ancestor(tree@, start as int, j),
                ),
            locator.last_ino matches Some(last) ==> {
                ||| last != current
                ||| {
                    &&& tree@[current as int].exists
                    &&& tree@[current as int].dev == tree@[start as int].dev
                    &&& !tree@[current as int].has_marker
                    &&& tree@[current as int].parent == current
                }
            },
        decreases
            current,
            (if locator.last_ino == Some(current as u64) {
                0int
            } else {
                1int
            }),
    {
        let probe = tree.probe(current);
        match locator.step(&probe) {
            LocateStep::Found => {
                assert(stops_after(tree@, start as int, k));
                return Ok(current);
            },
            LocateStep::Failed(e) => {
                assert(stops_after(tree@, start as int, k));
                return Err(e);
            },
            LocateStep::Ascend => {
                let parent = tree.nodes[current].parent;
                if parent != current {
                    proof {
                        assert(passes(tree@, tree@[start as int].dev, current as int));
                        k = k + 1;
                    }
                }
                current = parent;
            },
        }
    }
}

} // verus!
