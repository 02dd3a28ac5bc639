use cargo_subspace::discover::BuildMessage;
use cargo_subspace::graph::{
    CrateGraph, Dependency, MetaDep, MetaInput, MetaPackage, MetaTarget, PackageNode, ResolveNode,
    Target,
};
use cargo_subspace::paths::{FilePathBuf, PathInput};
use cargo_subspace::rust_project::{RawTargetKind, TargetKind};
use cargo_subspace::util::EnvVar;
use cargo_subspace::SubspaceError;

fn file(path: &str) -> FilePathBuf {
    FilePathBuf::from_input(PathInput { text: path.to_string(), is_file: true }).unwrap()
}

fn target(name: &str, kind: RawTargetKind, root: &str) -> Target {
    Target {
        name: name.to_string(),
        edition: "2021".to_string(),
        kind: vec![kind],
        root_module: file(root),
    }
}

fn node(id: &str, name: &str, manifest: &str, member: bool, targets: Vec<Target>) -> PackageNode {
    PackageNode {
        id: id.to_string(),
        name: name.to_string(),
        targets,
        manifest_path: file(manifest),
        version: "1.0.0".to_string(),
        is_workspace_member: member,
        repository: None,
        features: Vec::new(),
        dependencies: Vec::new(),
        build_script: None,
        proc_macro_dylib: None,
    }
}

#[test]
fn prune_keeps_exactly_the_reachable_nodes() {
    let mut a = node("a", "a", "/w/a/Cargo.toml", true, vec![]);
    a.dependencies.push(Dependency { id: "b".to_string(), name: "b".to_string() });
    let mut b = node("b", "b", "/w/b/Cargo.toml", false, vec![]);
    b.dependencies.push(Dependency { id: "c".to_string(), name: "c".to_string() });
    let c = node("c", "c", "/w/c/Cargo.toml", false, vec![]);
    let d = node("d", "d", "/w/d/Cargo.toml", false, vec![]);

    let mut graph = CrateGraph { inner: vec![a, b, c, d] };
    graph.prune(&"/w/a/Cargo.toml".to_string()).unwrap();

    let ids: Vec<&str> = graph.inner.iter().map(|n| n.id.as_str()).collect();
    assert_eq!(ids, vec!["a", "b", "c"]);
}

#[test]
fn prune_tolerates_cycles_and_dangling_edges() {
    let mut a = node("a", "a", "/w/a/Cargo.toml", true, vec![]);
    a.dependencies.push(Dependency { id: "b".to_string(), name: "b".to_string() });
    let mut b = node("b", "b", "/w/b/Cargo.toml", false, vec![]);
    b.dependencies.push(Dependency { id: "a".to_string(), name: "a".to_string() });
    b.dependencies.push(Dependency { id: "ghost".to_string(), name: "g".to_string() });
    let c = node("c", "c", "/w/c/Cargo.toml", false, vec![]);

    let mut graph = CrateGraph { inner: vec![a, b, c] };
    graph.prune(&"/w/a/Cargo.toml".to_string()).unwrap();

    let ids: Vec<&str> = graph.inner.iter().map(|n| n.id.as_str()).collect();
    assert_eq!(ids, vec!["a", "b"]);
}

#[test]
fn prune_unknown_manifest_fails_and_leaves_the_graph() {
    let a = node("a", "a", "/w/a/Cargo.toml", true, vec![]);
    let mut graph = CrateGraph { inner: vec![a] };
    let err = graph.prune(&"/w/missing/Cargo.toml".to_string()).unwrap_err();
    match &err {
        SubspaceError::WorkspaceMemberNotFound { manifest_path } => {
            assert_eq!(manifest_path, "/w/missing/Cargo.toml");
        }
        other => panic!("unexpected error: {:?}", other),
    }
    assert_eq!(graph.inner.len(), 1);
    assert_eq!(
        err.message(),
        "Could not find workspace member with manifest path /w/missing/Cargo.toml"
    );
}

#[test]
fn lowering_scenario_feature_and_renamed_dependency() {
    // a workspace library with one enabled feature depends on an external
    // library under a renamed import
    let mut a = node(
        "A#1.0",
        "a",
        "/w/a/Cargo.toml",
        true,
        vec![target("a", RawTargetKind::Lib, "/w/a/src/lib.rs")],
    );
    a.features.push("x".to_string());
    a.dependencies.push(Dependency { id: "B#1.0".to_string(), name: "b".to_string() });
    let b = node(
        "B#1.0",
        "b",
        "/r/b/Cargo.toml",
        false,
        vec![target("b", RawTargetKind::Lib, "/r/b/src/lib.rs")],
    );

    let graph = CrateGraph { inner: vec![a, b] };
    let crates = graph.into_crates();

    assert_eq!(crates.len(), 2);
    assert_eq!(crates[0].cfg, vec!["feature=\"x\"".to_string()]);
    assert_eq!(crates[0].deps.len(), 1);
    assert_eq!(crates[0].deps[0].crate_index, 1);
    assert_eq!(crates[0].deps[0].name, "b");
    assert!(crates[0].is_workspace_member);
    assert!(crates[1].deps.is_empty());
    assert!(!crates[1].is_workspace_member);
    assert_eq!(crates[1].display_name, Some("b".to_string()));
}

#[test]
fn lowering_scenario_build_script_environment() {
    let mut c = node(
        "C#1.0",
        "c",
        "/w/c/Cargo.toml",
        true,
        vec![target("c", RawTargetKind::Lib, "/w/c/src/lib.rs")],
    );
    c.build_script = Some(cargo_subspace::graph::BuildScriptInfo {
        out_dir: "/tmp/out".to_string(),
        env: vec![EnvVar::new("FOO".to_string(), "bar".to_string())],
    });

    let graph = CrateGraph { inner: vec![c] };
    let crates = graph.into_crates();

    assert_eq!(crates.len(), 1);
    let unit = &crates[0];
    assert_eq!(
        unit.env,
        vec![
            EnvVar::new("OUT_DIR".to_string(), "/tmp/out".to_string()),
            EnvVar::new("FOO".to_string(), "bar".to_string()),
        ]
    );
    let source = unit.source.as_ref().unwrap();
    assert!(source.include_dirs.contains(&"/tmp".to_string()));
    assert!(source.include_dirs.contains(&"/w/c".to_string()));
    assert_eq!(source.exclude_dirs, vec![".git".to_string(), "target".to_string()]);
}

#[test]
fn lowering_scenario_compiled_plugin_artifact() {
    let d = node(
        "D#1.0",
        "d",
        "/w/d/Cargo.toml",
        true,
        vec![target("d", RawTargetKind::ProcMacro, "/w/d/src/lib.rs")],
    );
    let mut graph = CrateGraph { inner: vec![d] };

    graph.apply_message(BuildMessage::CompilerArtifact {
        package_id: "D#1.0".to_string(),
        is_proc_macro: true,
        filenames: vec!["/t/deps/libd.so".to_string()],
    });

    let crates = graph.into_crates();
    assert_eq!(crates.len(), 1);
    assert!(crates[0].is_proc_macro);
    assert_eq!(crates[0].proc_macro_dylib_path, Some("/t/deps/libd.so".to_string()));
}

#[test]
fn artifact_message_without_dylib_or_plugin_changes_nothing() {
    let d = node(
        "D#1.0",
        "d",
        "/w/d/Cargo.toml",
        true,
        vec![target("d", RawTargetKind::ProcMacro, "/w/d/src/lib.rs")],
    );
    let mut graph = CrateGraph { inner: vec![d] };

    // an rlib artifact is not a plugin binary
    graph.apply_message(BuildMessage::CompilerArtifact {
        package_id: "D#1.0".to_string(),
        is_proc_macro: true,
        filenames: vec!["/t/deps/libd.rlib".to_string()],
    });
    assert!(graph.inner[0].proc_macro_dylib.is_none());

    // a dylib of a non-plugin target is skipped too
    graph.apply_message(BuildMessage::CompilerArtifact {
        package_id: "D#1.0".to_string(),
        is_proc_macro: false,
        filenames: vec!["/t/deps/libd.so".to_string()],
    });
    assert!(graph.inner[0].proc_macro_dylib.is_none());

    // a message for a pruned-away package is an inert no-op
    graph.apply_message(BuildMessage::BuildScriptExecuted {
        package_id: "GONE#1.0".to_string(),
        out_dir: "/tmp/out".to_string(),
        env: vec![],
    });
    assert!(graph.inner[0].build_script.is_none());
}

#[test]
fn own_library_visible_from_binary_and_test_units() {
    let pkg = node(
        "A#1.0",
        "my-app",
        "/w/a/Cargo.toml",
        true,
        vec![
            target("my-lib", RawTargetKind::Lib, "/w/a/src/lib.rs"),
            target("my-bin", RawTargetKind::Bin, "/w/a/src/main.rs"),
            target("it", RawTargetKind::Test, "/w/a/tests/it.rs"),
        ],
    );
    let graph = CrateGraph { inner: vec![pkg] };
    let crates = graph.into_crates();

    assert_eq!(crates.len(), 3);
    // the library unit has no implicit self-dependency
    assert!(crates[0].deps.is_empty());
    // binary and test units see the library unit at index 0
    for unit in &crates[1..] {
        assert_eq!(unit.deps.len(), 1);
        assert_eq!(unit.deps[0].crate_index, 0);
        assert_eq!(unit.deps[0].name, "my_lib");
    }
    assert_eq!(crates[1].build.as_ref().unwrap().target_kind, TargetKind::Bin);
    assert_eq!(crates[2].build.as_ref().unwrap().target_kind, TargetKind::Test);
    assert_eq!(crates[0].display_name, Some("my_app".to_string()));
}

#[test]
fn dependency_lists_are_sorted_and_indices_valid() {
    // package order puts the dependencies after the depending package, so
    // unsorted lists would come out in declaration order, not index order
    let mut app = node(
        "APP#1.0",
        "app",
        "/w/app/Cargo.toml",
        true,
        vec![
            target("app", RawTargetKind::Lib, "/w/app/src/lib.rs"),
            target("app", RawTargetKind::Bin, "/w/app/src/main.rs"),
        ],
    );
    app.dependencies.push(Dependency { id: "Z#1.0".to_string(), name: "z".to_string() });
    app.dependencies.push(Dependency { id: "M#1.0".to_string(), name: "m".to_string() });
    let z = node(
        "Z#1.0",
        "z",
        "/r/z/Cargo.toml",
        false,
        vec![target("z", RawTargetKind::Lib, "/r/z/src/lib.rs")],
    );
    let m = node(
        "M#1.0",
        "m",
        "/r/m/Cargo.toml",
        false,
        vec![target("m", RawTargetKind::Lib, "/r/m/src/lib.rs")],
    );

    let graph = CrateGraph { inner: vec![app, m, z] };
    let crates = graph.into_crates();

    assert_eq!(crates.len(), 4);
    for unit in &crates {
        for pair in unit.deps.windows(2) {
            assert!(pair[0].crate_index <= pair[1].crate_index);
        }
        for dep in &unit.deps {
            assert!(dep.crate_index < crates.len());
        }
    }
    // the binary unit: own library (0), then m (2), then z (3)
    let indices: Vec<usize> = crates[1].deps.iter().map(|d| d.crate_index).collect();
    assert_eq!(indices, vec![0, 2, 3]);
}

#[test]
fn lowering_is_deterministic_across_runs() {
    let build = || {
        let mut a = node(
            "A#1.0",
            "a",
            "/w/a/Cargo.toml",
            true,
            vec![
                target("a", RawTargetKind::Lib, "/w/a/src/lib.rs"),
                target("a", RawTargetKind::Bin, "/w/a/src/main.rs"),
            ],
        );
        a.dependencies.push(Dependency { id: "B#1.0".to_string(), name: "b".to_string() });
        a.features.push("x".to_string());
        let b = node(
            "B#1.0",
            "b",
            "/r/b/Cargo.toml",
            false,
            vec![target("b", RawTargetKind::Lib, "/r/b/src/lib.rs")],
        );
        CrateGraph { inner: vec![a, b] }
    };
    let first = build().into_crates();
    let second = build().into_crates();
    assert_eq!(first, second);
}

#[test]
fn dangling_dependency_edges_are_dropped() {
    let mut a = node(
        "A#1.0",
        "a",
        "/w/a/Cargo.toml",
        true,
        vec![target("a", RawTargetKind::Lib, "/w/a/src/lib.rs")],
    );
    a.dependencies.push(Dependency { id: "GONE#1.0".to_string(), name: "gone".to_string() });
    // a dependency on a binary-only package resolves to no library unit
    a.dependencies.push(Dependency { id: "BIN#1.0".to_string(), name: "tool".to_string() });
    let tool = node(
        "BIN#1.0",
        "tool",
        "/r/t/Cargo.toml",
        false,
        vec![target("tool", RawTargetKind::Bin, "/r/t/src/main.rs")],
    );

    let graph = CrateGraph { inner: vec![a, tool] };
    let crates = graph.into_crates();
    assert!(crates[0].deps.is_empty());
}

#[test]
fn last_library_wins_for_multi_library_packages() {
    let multi = node(
        "M#1.0",
        "m",
        "/r/m/Cargo.toml",
        false,
        vec![
            target("m-one", RawTargetKind::Lib, "/r/m/src/one.rs"),
            target("m-two", RawTargetKind::Lib, "/r/m/src/two.rs"),
        ],
    );
    let mut a = node(
        "A#1.0",
        "a",
        "/w/a/Cargo.toml",
        true,
        vec![target("a", RawTargetKind::Lib, "/w/a/src/lib.rs")],
    );
    a.dependencies.push(Dependency { id: "M#1.0".to_string(), name: "m".to_string() });

    let graph = CrateGraph { inner: vec![multi, a] };
    let crates = graph.into_crates();
    // units: m-one (0), m-two (1), a (2); the edge resolves to the last
    // library unit of the package
    assert_eq!(crates[2].deps.len(), 1);
    assert_eq!(crates[2].deps[0].crate_index, 1);
}

#[test]
fn ingest_filters_non_member_targets() {
    let raw = |name: &str, kind: RawTargetKind| MetaTarget {
        name: name.to_string(),
        kind: vec![kind],
        src_path: PathInput { text: format!("/r/x/{}.rs", name), is_file: true },
        edition: "2021".to_string(),
    };
    let package = |id: &str, targets: Vec<MetaTarget>| MetaPackage {
        id: id.to_string(),
        name: id.to_lowercase(),
        version: "0.1.0".to_string(),
        manifest_path: PathInput { text: format!("/r/{}/Cargo.toml", id), is_file: true },
        repository: None,
        targets,
    };
    let input = MetaInput {
        packages: vec![
            package(
                "EXT",
                vec![
                    raw("lib", RawTargetKind::Lib),
                    raw("t", RawTargetKind::Test),
                    raw("b", RawTargetKind::Bench),
                    raw("e", RawTargetKind::Example),
                ],
            ),
            package(
                "MEM",
                vec![raw("lib", RawTargetKind::Lib), raw("t", RawTargetKind::Test)],
            ),
            package("ONLYTESTS", vec![raw("t", RawTargetKind::Test)]),
        ],
        workspace_members: vec!["MEM".to_string()],
        resolve: None,
    };

    let graph = CrateGraph::from_metadata(input).unwrap();
    assert_eq!(graph.inner.len(), 3);
    // the external package keeps only its library target
    assert_eq!(graph.inner[0].targets.len(), 1);
    assert_eq!(graph.inner[0].targets[0].name, "lib");
    // the member keeps its test target, which yields a unit
    assert_eq!(graph.inner[1].targets.len(), 2);
    // a non-member with only test targets contributes zero units
    assert_eq!(graph.inner[2].targets.len(), 0);
    let crates = CrateGraph { inner: graph.inner }.into_crates();
    assert_eq!(crates.len(), 3);
}

#[test]
fn ingest_collects_features_and_renamed_dependencies() {
    let input = MetaInput {
        packages: vec![MetaPackage {
            id: "A".to_string(),
            name: "a".to_string(),
            version: "0.1.0".to_string(),
            manifest_path: PathInput { text: "/w/a/Cargo.toml".to_string(), is_file: true },
            repository: Some("https://example.invalid/a".to_string()),
            targets: vec![],
        }],
        workspace_members: vec!["A".to_string()],
        resolve: Some(vec![
            ResolveNode {
                id: "A".to_string(),
                features: vec!["x".to_string(), "y".to_string()],
                deps: vec![MetaDep { name: "renamed_b".to_string(), pkg: "B".to_string() }],
            },
            ResolveNode {
                id: "A".to_string(),
                features: vec!["y".to_string(), "z".to_string()],
                deps: vec![],
            },
        ]),
    };

    let graph = CrateGraph::from_metadata(input).unwrap();
    let a = &graph.inner[0];
    assert_eq!(a.features, vec!["x".to_string(), "y".to_string(), "z".to_string()]);
    assert_eq!(a.dependencies.len(), 1);
    assert_eq!(a.dependencies[0].id, "B");
    assert_eq!(a.dependencies[0].name, "renamed_b");
    assert!(a.is_workspace_member);
    assert_eq!(a.repository, Some("https://example.invalid/a".to_string()));
}

#[test]
fn ingest_rejects_paths_that_are_not_files() {
    let input = MetaInput {
        packages: vec![MetaPackage {
            id: "A".to_string(),
            name: "a".to_string(),
            version: "0.1.0".to_string(),
            manifest_path: PathInput { text: "/w/a".to_string(), is_file: false },
            repository: None,
            targets: vec![],
        }],
        workspace_members: vec![],
        resolve: None,
    };
    let err = CrateGraph::from_metadata(input).unwrap_err();
    match &err {
        SubspaceError::NotAFile { path } => assert_eq!(path, "/w/a"),
        other => panic!("unexpected error: {:?}", other),
    }
    assert_eq!(err.message(), "`/w/a` is not a file");
}

#[test]
fn ingest_keyed_insertion_replaces_duplicate_ids() {
    let package = |id: &str, name: &str| MetaPackage {
        id: id.to_string(),
        name: name.to_string(),
        version: "0.1.0".to_string(),
        manifest_path: PathInput { text: format!("/w/{}/Cargo.toml", name), is_file: true },
        repository: None,
        targets: vec![],
    };
    let input = MetaInput {
        packages: vec![package("A", "first"), package("A", "second")],
        workspace_members: vec![],
        resolve: None,
    };
    let graph = CrateGraph::from_metadata(input).unwrap();
    assert_eq!(graph.inner.len(), 1);
    assert_eq!(graph.inner[0].name, "second");
}
