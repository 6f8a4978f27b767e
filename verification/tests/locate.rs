use ciel_workspace::locate::{
    find_ciel_dir, DirNode, DirProbe, FsTree, LocateError, LocateStep, Locator,
};

fn dir(parent: usize, dev: u64, has_marker: bool) -> DirNode {
    DirNode {
        parent,
        exists: true,
        dev,
        has_marker,
    }
}

fn seen(dev: u64, ino: u64, has_marker: bool) -> DirProbe {
    DirProbe {
        exists: true,
        dev,
        ino,
        has_marker,
    }
}

/// A single path from the root down: node 0 is the root, each node's parent
/// is the one before it.
fn chain(nodes: Vec<(u64, bool)>) -> FsTree {
    let nodes = nodes
        .into_iter()
        .enumerate()
        .map(|(i, (dev, has_marker))| dir(i.saturating_sub(1), dev, has_marker))
        .collect();
    FsTree::new(nodes).unwrap()
}

#[test]
fn marker_in_the_start_itself() {
    let tree = chain(vec![(1, false), (1, false), (1, true)]);
    assert_eq!(find_ciel_dir(&tree, 2), Ok(2));
}

#[test]
fn marker_in_the_parent() {
    let tree = chain(vec![(1, false), (1, true), (1, false)]);
    assert_eq!(find_ciel_dir(&tree, 2), Ok(1));
}

#[test]
fn marker_in_the_root() {
    let tree = chain(vec![(1, true), (1, false), (1, false), (1, false)]);
    assert_eq!(find_ciel_dir(&tree, 3), Ok(0));
    assert_eq!(find_ciel_dir(&tree, 0), Ok(0));
}

#[test]
fn the_nearest_marker_wins() {
    let tree = chain(vec![(1, true), (1, true), (1, false), (1, true), (1, false)]);
    assert_eq!(find_ciel_dir(&tree, 4), Ok(3));
    assert_eq!(find_ciel_dir(&tree, 3), Ok(3));
    assert_eq!(find_ciel_dir(&tree, 2), Ok(1));
    assert_eq!(find_ciel_dir(&tree, 1), Ok(1));
    assert_eq!(find_ciel_dir(&tree, 0), Ok(0));
}

#[test]
fn no_marker_up_to_the_root() {
    let tree = chain(vec![(1, false), (1, false), (1, false), (1, false)]);
    for start in 0..4 {
        assert_eq!(find_ciel_dir(&tree, start), Err(LocateError::NoWorkspace));
    }
}

#[test]
fn a_lone_root_without_marker() {
    let tree = chain(vec![(7, false)]);
    assert_eq!(find_ciel_dir(&tree, 0), Err(LocateError::NoWorkspace));
}

#[test]
fn a_marker_on_another_device_is_not_reached() {
    let tree = chain(vec![(1, true), (1, false), (2, false), (2, false)]);
    assert_eq!(
        find_ciel_dir(&tree, 3),
        Err(LocateError::Boundary {
            expected: 2,
            found: 1
        })
    );
}

#[test]
fn a_marked_directory_on_another_device_is_refused() {
    let tree = chain(vec![(1, false), (1, true), (2, false)]);
    assert_eq!(
        find_ciel_dir(&tree, 2),
        Err(LocateError::Boundary {
            expected: 2,
            found: 1
        })
    );
}

#[test]
fn a_marker_below_the_boundary_is_found() {
    let tree = chain(vec![(1, true), (1, false), (2, true), (2, false)]);
    assert_eq!(find_ciel_dir(&tree, 3), Ok(2));
}

#[test]
fn the_root_on_another_device_is_a_boundary() {
    let tree = chain(vec![(1, false), (2, false)]);
    assert_eq!(
        find_ciel_dir(&tree, 1),
        Err(LocateError::Boundary {
            expected: 2,
            found: 1
        })
    );
}

#[test]
fn a_vanished_directory_is_the_ceiling() {
    let mut nodes = vec![dir(0, 1, true), dir(0, 1, false), dir(1, 1, false)];
    nodes[1].exists = false;
    let tree = FsTree::new(nodes).unwrap();
    assert_eq!(find_ciel_dir(&tree, 2), Err(LocateError::Ceiling));
}

#[test]
fn a_vanished_directory_hides_its_marker() {
    let mut nodes = vec![dir(0, 1, false), dir(0, 1, true), dir(1, 1, false)];
    nodes[1].exists = false;
    let tree = FsTree::new(nodes).unwrap();
    assert_eq!(find_ciel_dir(&tree, 2), Err(LocateError::Ceiling));
}

#[test]
fn a_vanished_directory_on_another_device_is_the_ceiling() {
    let mut nodes = vec![dir(0, 1, false), dir(0, 9, false), dir(1, 1, false)];
    nodes[1].exists = false;
    let tree = FsTree::new(nodes).unwrap();
    assert_eq!(find_ciel_dir(&tree, 2), Err(LocateError::Ceiling));
}

#[test]
fn a_missing_start_is_no_start() {
    let mut nodes = vec![dir(0, 1, true), dir(0, 1, true)];
    nodes[1].exists = false;
    let tree = FsTree::new(nodes).unwrap();
    assert_eq!(find_ciel_dir(&tree, 1), Err(LocateError::NoStart));
    assert_eq!(find_ciel_dir(&tree, 2), Err(LocateError::NoStart));
    assert_eq!(find_ciel_dir(&tree, usize::MAX), Err(LocateError::NoStart));
}

#[test]
fn an_empty_tree_has_no_start() {
    let tree = FsTree::new(vec![]).unwrap();
    assert_eq!(tree.len(), 0);
    assert_eq!(find_ciel_dir(&tree, 0), Err(LocateError::NoStart));
}

#[test]
fn siblings_do_not_count() {
    // 0 is the root; 1 and 2 are its children; 3 lies in 1, 4 lies in 2.
    let tree = FsTree::new(vec![
        dir(0, 1, false),
        dir(0, 1, true),
        dir(0, 1, false),
        dir(1, 1, false),
        dir(2, 1, false),
    ])
    .unwrap();
    assert_eq!(find_ciel_dir(&tree, 3), Ok(1));
    assert_eq!(find_ciel_dir(&tree, 4), Err(LocateError::NoWorkspace));
    assert_eq!(find_ciel_dir(&tree, 2), Err(LocateError::NoWorkspace));
    assert_eq!(find_ciel_dir(&tree, 1), Ok(1));
}

#[test]
fn a_deep_tree_ends() {
    let depth = 100_000;
    let tree = chain(vec![(1, false); depth]);
    assert_eq!(find_ciel_dir(&tree, depth - 1), Err(LocateError::NoWorkspace));
    let mut marked = vec![(1, false); depth];
    marked[0].1 = true;
    assert_eq!(find_ciel_dir(&chain(marked), depth - 1), Ok(0));
}

#[test]
fn a_tree_with_several_roots() {
    let tree = FsTree::new(vec![dir(0, 1, false), dir(1, 1, true), dir(1, 1, false)]).unwrap();
    assert_eq!(find_ciel_dir(&tree, 2), Ok(1));
    assert_eq!(find_ciel_dir(&tree, 0), Err(LocateError::NoWorkspace));
}

#[test]
fn a_child_before_its_parent_is_no_tree() {
    assert_eq!(FsTree::new(vec![dir(1, 1, false), dir(1, 1, false)]), None);
    assert_eq!(FsTree::new(vec![dir(5, 1, false)]), None);
    assert_eq!(
        FsTree::new(vec![dir(0, 1, false), dir(0, 1, false), dir(3, 1, false)]),
        None
    );
}

#[test]
fn a_tree_shows_what_was_recorded() {
    let tree = FsTree::new(vec![dir(0, 4, false), dir(0, 5, true)]).unwrap();
    assert_eq!(tree.len(), 2);
    assert_eq!(tree.probe(0), seen(4, 0, false));
    assert_eq!(tree.probe(1), seen(5, 1, true));
}

#[test]
fn step_finds_the_marker() {
    let mut locator = Locator::new(3);
    assert_eq!(locator.step(&seen(3, 10, true)), LocateStep::Found);
    assert_eq!(locator, Locator::new(3));
}

#[test]
fn step_goes_up_and_remembers() {
    let mut locator = Locator::new(3);
    assert_eq!(locator.step(&seen(3, 10, false)), LocateStep::Ascend);
    assert_eq!(
        locator,
        Locator {
            start_dev: 3,
            last_ino: Some(10)
        }
    );
    assert_eq!(locator.step(&seen(3, 11, false)), LocateStep::Ascend);
    assert_eq!(locator.last_ino, Some(11));
    assert_eq!(locator.step(&seen(3, 12, true)), LocateStep::Found);
    assert_eq!(locator.last_ino, Some(11));
}

#[test]
fn step_ends_where_the_parent_is_the_directory_itself() {
    let mut locator = Locator::new(3);
    assert_eq!(locator.step(&seen(3, 2, false)), LocateStep::Ascend);
    assert_eq!(
        locator.step(&seen(3, 2, false)),
        LocateStep::Failed(LocateError::NoWorkspace)
    );
}

#[test]
fn step_checks_that_the_directory_is_there_first() {
    let mut locator = Locator::new(3);
    let gone = DirProbe {
        exists: false,
        dev: 4,
        ino: 1,
        has_marker: true,
    };
    assert_eq!(locator.step(&gone), LocateStep::Failed(LocateError::Ceiling));
    assert_eq!(locator, Locator::new(3));
}

#[test]
fn step_checks_the_device_before_the_marker() {
    let mut locator = Locator::new(3);
    assert_eq!(
        locator.step(&seen(4, 1, true)),
        LocateStep::Failed(LocateError::Boundary {
            expected: 3,
            found: 4
        })
    );
}

#[test]
fn step_takes_the_marker_in_the_root() {
    let mut locator = Locator::new(3);
    assert_eq!(locator.step(&seen(3, 2, false)), LocateStep::Ascend);
    assert_eq!(locator.step(&seen(3, 2, true)), LocateStep::Found);
}

#[test]
fn the_walk_over_a_tree_is_the_walk_of_the_steps() {
    let tree = chain(vec![(1, false), (1, false), (1, false)]);
    let mut locator = Locator::new(1);
    let mut at = 2usize;
    let mut looks = 0;
    let result = loop {
        looks += 1;
        match locator.step(&tree.probe(at)) {
            LocateStep::Found => break Ok(at),
            LocateStep::Failed(e) => break Err(e),
            LocateStep::Ascend => at = at.saturating_sub(1),
        }
    };
    assert_eq!(result, find_ciel_dir(&tree, 2));
    assert_eq!(result, Err(LocateError::NoWorkspace));
    assert_eq!(looks, 4);
}
