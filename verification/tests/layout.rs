use ciel_workspace::layout::{
    instance_path, join_path, marker_path, parent_path, skeleton_dirs, CIEL_DATA_DIR,
    CIEL_DIST_DIR, CIEL_INST_DIR, CIEL_MARKER_DIR, CIEL_VERSION_FILE, PARENT_DIR,
};
use std::path::Path;

#[test]
fn the_layout_is_fixed() {
    assert_eq!(CIEL_MARKER_DIR, ".ciel");
    assert_eq!(CIEL_DIST_DIR, ".ciel/container/dist");
    assert_eq!(CIEL_INST_DIR, ".ciel/container/instances");
    assert_eq!(CIEL_DATA_DIR, ".ciel/data");
    assert_eq!(CIEL_VERSION_FILE, ".ciel/version");
    assert_eq!(PARENT_DIR, "..");
}

#[test]
fn the_skeleton_has_three_directories() {
    assert_eq!(
        skeleton_dirs(),
        vec![".ciel/container/dist", ".ciel/container/instances", ".ciel/data"]
    );
}

#[test]
fn the_skeleton_lies_under_the_marker() {
    for dir in skeleton_dirs() {
        assert!(Path::new(dir).starts_with(CIEL_MARKER_DIR));
    }
    assert!(Path::new(CIEL_VERSION_FILE).starts_with(CIEL_MARKER_DIR));
}

#[test]
fn join_puts_one_slash_between() {
    assert_eq!(join_path("a", "b"), "a/b");
    assert_eq!(join_path("/srv/ws", ".ciel"), "/srv/ws/.ciel");
    assert_eq!(join_path("a/b", "c/d"), "a/b/c/d");
}

#[test]
fn join_adds_no_second_slash() {
    assert_eq!(join_path("a/", "b"), "a/b");
    assert_eq!(join_path("/", "b"), "/b");
    assert_eq!(join_path("/", ".."), "/..");
}

#[test]
fn join_to_nothing_is_the_relative_path() {
    assert_eq!(join_path("", "b"), "b");
    assert_eq!(join_path("", ""), "");
}

#[test]
fn join_with_nothing_ends_in_a_slash() {
    assert_eq!(join_path("a", ""), "a/");
    assert_eq!(join_path("a/", ""), "a/");
}

#[test]
fn join_with_a_rooted_path_is_that_path() {
    assert_eq!(join_path("a", "/b"), "/b");
    assert_eq!(join_path("/x/y", "/"), "/");
    assert_eq!(join_path("", "/b/c"), "/b/c");
}

#[test]
fn join_counts_characters_not_bytes() {
    assert_eq!(join_path("größe", "日本"), "größe/日本");
    assert_eq!(join_path("é/", "ü"), "é/ü");
    assert_eq!(join_path("é", "/ü"), "/ü");
}

#[test]
fn join_is_what_the_standard_library_joins() {
    let bases = ["", "a", "a/", "/", "/srv/ws", "..", "a/..", "größe", "a//"];
    let rels = ["", "b", "/b", "..", ".ciel", "b/c", "/", "日本", "b/"];
    for base in bases {
        for rel in rels {
            assert_eq!(
                Path::new(&join_path(base, rel)),
                Path::new(base).join(rel).as_path(),
                "{base:?} {rel:?}"
            );
            assert_eq!(
                join_path(base, rel),
                Path::new(base).join(rel).to_str().unwrap(),
                "{base:?} {rel:?}"
            );
        }
    }
}

#[test]
fn instance_paths() {
    assert_eq!(instance_path("stable"), ".ciel/container/instances/stable");
    assert_eq!(instance_path("a/b"), ".ciel/container/instances/a/b");
    assert_eq!(instance_path(""), ".ciel/container/instances/");
    assert_eq!(instance_path("/elsewhere"), "/elsewhere");
}

#[test]
fn marker_paths() {
    assert_eq!(marker_path("/srv/ws"), "/srv/ws/.ciel");
    assert_eq!(marker_path("."), "./.ciel");
    assert_eq!(marker_path("/"), "/.ciel");
    assert_eq!(marker_path(""), ".ciel");
}

#[test]
fn parent_paths() {
    assert_eq!(parent_path("/srv/ws"), "/srv/ws/..");
    assert_eq!(parent_path("."), "./..");
    assert_eq!(parent_path("/"), "/..");
    assert_eq!(parent_path(&parent_path("a")), "a/../..");
}

#[test]
fn an_ascent_starts_from_nothing() {
    let mut ascent = String::new();
    assert_eq!(marker_path(&ascent), ".ciel");
    ascent = parent_path(&ascent);
    assert_eq!(ascent, "..");
    assert_eq!(marker_path(&ascent), "../.ciel");
    ascent = parent_path(&ascent);
    assert_eq!(ascent, "../..");
    assert_eq!(marker_path(&ascent), "../../.ciel");
}

#[test]
fn an_ascent_behind_a_start_is_the_walk_from_the_start() {
    for start in ["/srv/ws", "ws", ".", "/", "a/"] {
        let mut walked = Path::new(start).to_path_buf();
        let mut ascent = String::new();
        for _ in 0..4 {
            walked = walked.join("..");
            ascent = parent_path(&ascent);
            assert_eq!(Path::new(start).join(&ascent), walked);
            assert_eq!(
                Path::new(start).join(marker_path(&ascent)),
                walked.join(".ciel")
            );
        }
    }
}
