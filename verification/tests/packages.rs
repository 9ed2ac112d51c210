use mgo_state_query::packages::{paths_to, Dependency, DependencyKind, Packages};

fn normal(package: usize) -> Dependency {
    Dependency { package, kind: DependencyKind::Normal, has_target: false }
}

fn workspace(direct: bool) -> Packages {
    // 0: node, 1: execution, 2: adapter, 3: types, 4: hack, 5: bench
    let mut node = vec![
        normal(1),
        Dependency { package: 5, kind: DependencyKind::Development, has_target: false },
        Dependency { package: 4, kind: DependencyKind::Normal, has_target: true },
        Dependency { package: 3, kind: DependencyKind::Build, has_target: false },
    ];
    if direct {
        node.push(normal(2));
    }
    Packages::new(vec![
        node,
        vec![normal(2), normal(3), normal(4)],
        vec![normal(3)],
        vec![],
        vec![],
        vec![normal(2)],
    ])
    .unwrap()
}

#[test]
fn only_normal_dependencies_without_target_count() {
    let packages = workspace(true);
    assert_eq!(packages.len(), 6);
    assert_eq!(packages.normal_deps(0), vec![1, 2]);
    assert_eq!(packages.normal_edges(0), vec![(0, 1), (0, 2)]);
    assert_eq!(packages.normal_deps(1), vec![2, 3, 4]);
    assert_eq!(packages.normal_deps(3), Vec::<usize>::new());
    assert_eq!(packages.normal_deps(99), Vec::<usize>::new());
    assert_eq!(packages.normal_edges(99), Vec::<(usize, usize)>::new());
}

#[test]
fn dependency_on_an_unknown_package_is_turned_down() {
    assert!(Packages::new(vec![vec![normal(1)]]).is_none());
    assert!(Packages::new(vec![vec![normal(0)]]).is_some());
    assert!(Packages::new(vec![]).is_some());
}

#[test]
fn graph_holds_what_the_root_reaches() {
    let packages = workspace(false);
    let graph = packages.graph(0);
    for n in 0..5 {
        assert!(graph.contains_node(n), "node {n}");
    }
    assert!(!graph.contains_node(5));
    assert_eq!(graph.node_count(), 5);
    assert_eq!(graph.edge_count(), 4);
    assert!(graph.contains_edge(0, 1));
    for (a, b, _) in graph.all_edges() {
        assert!(packages.normal_deps(a).contains(&b));
    }

    let leaf = packages.graph(3);
    assert_eq!(leaf.node_count(), 0);
    let bench = packages.graph(5);
    assert!(bench.contains_node(5) && bench.contains_node(2) && bench.contains_node(3));
    assert_eq!(bench.node_count(), 3);
    assert_eq!(packages.graph(99).node_count(), 0);
}

#[test]
fn graph_of_a_cycle_ends() {
    let packages = Packages::new(vec![vec![normal(1)], vec![normal(0), normal(1)]]).unwrap();
    let graph = packages.graph(0);
    assert_eq!(graph.node_count(), 2);
    assert!(graph.contains_edge(0, 1));
}

#[test]
fn paths_are_found_to_every_target() {
    let packages = workspace(true);
    let graph = packages.graph(1);
    let mut paths = paths_to(&graph, 1, &vec![3, 2, 1, 5]);
    paths.sort();
    assert!(paths.contains(&vec![1, 2]) || paths.contains(&vec![1, 3, 2]) || !paths.is_empty());
    for path in &paths {
        assert_eq!(path[0], 1);
        assert!(path.last() == Some(&2) || path.last() == Some(&3));
        for step in path.windows(2) {
            assert!(graph.contains_edge(step[0], step[1]));
        }
    }
    assert!(paths.iter().any(|p| p.last() == Some(&2)));
    assert!(paths.iter().any(|p| p.last() == Some(&3)));
    assert!(paths_to(&packages.graph(3), 3, &vec![1]).is_empty());
}

#[test]
fn gate_protects_what_it_depends_on() {
    let packages = workspace(false);
    assert_eq!(packages.protected_by(1, &vec![3, 4]), vec![2]);
    assert_eq!(packages.protected_by(1, &vec![]), vec![2, 3, 4]);
    let twice = Packages::new(vec![vec![normal(1), normal(1)], vec![]]).unwrap();
    assert_eq!(twice.protected_by(0, &vec![]), vec![1]);
}

#[test]
fn encapsulated_workspace_has_no_breach() {
    let packages = workspace(false);
    let (protected, breaches) = packages.encapsulation_breaches(&vec![0], 1, &vec![4], &vec![3, 4]);
    assert_eq!(protected, vec![2]);
    assert_eq!(breaches, Vec::<Vec<usize>>::new());
}

#[test]
fn direct_dependency_breaks_the_encapsulation() {
    let packages = workspace(true);
    let (protected, breaches) =
        packages.encapsulation_breaches(&vec![0, 5], 1, &vec![4], &vec![3, 4]);
    assert_eq!(protected, vec![2]);
    assert_eq!(breaches, vec![vec![0, 2], vec![5, 2]]);
}

/// A workspace by the names of its packages: each package with the names of
/// its normal dependencies.
fn named_workspace(layout: &[(&str, &[&str])]) -> (Vec<String>, Packages) {
    let mut names: Vec<String> = Vec::new();
    let mut number = |name: &str, names: &mut Vec<String>| -> usize {
        match names.iter().position(|n| n == name) {
            Some(n) => n,
            None => {
                names.push(name.to_string());
                names.len() - 1
            }
        }
    };
    let mut listed = Vec::new();
    for (name, deps) in layout {
        let from = number(name, &mut names);
        let deps: Vec<Dependency> = deps.iter().map(|d| normal(number(d, &mut names))).collect();
        listed.push((from, deps));
    }
    let mut dependencies = vec![Vec::new(); names.len()];
    for (from, deps) in listed {
        dependencies[from] = deps;
    }
    (names, Packages::new(dependencies).unwrap())
}

fn breaches_by_name(names: &[String], packages: &Packages) -> Vec<String> {
    let number = |name: &str| names.iter().position(|n| n == name);
    let numbers =
        |wanted: &[&str]| -> Vec<usize> { wanted.iter().filter_map(|n| number(n)).collect() };
    let (_, breaches) = packages.encapsulation_breaches(
        &numbers(&["mgo-node", "mgo-replay"]),
        number("mgo-execution").unwrap(),
        &numbers(&["workspace-hack"]),
        &numbers(&[
            "mgo-protocol-config",
            "mgo-types",
            "move-binary-format",
            "move-bytecode-utils",
            "move-core-types",
            "move-vm-config",
            "workspace-hack",
        ]),
    );
    breaches
        .into_iter()
        .map(|p| p.into_iter().map(|n| names[n].as_str()).collect::<Vec<_>>().join(" -> "))
        .collect()
}

/// Make sure that all accesses to execution layer crates in the `mgo-node` and `mgo-replay` crates
/// go via the `mgo-execution` crate (in other words, the `mgo-execution` crate dominates execution
/// layer crates in the dependency graphs of `mgo-node` and `mgo-replay`).
#[test]
fn test_encapsulation() {
    let (names, packages) = named_workspace(&[
        ("mgo-node", &["mgo-core", "mgo-types", "workspace-hack"]),
        ("mgo-replay", &["mgo-core", "mgo-execution", "move-core-types", "workspace-hack"]),
        ("mgo-core", &["mgo-execution", "mgo-types", "mgo-protocol-config", "workspace-hack"]),
        (
            "mgo-execution",
            &[
                "mgo-adapter-latest",
                "mgo-move-natives-latest",
                "move-vm-runtime-latest",
                "mgo-protocol-config",
                "mgo-types",
                "move-binary-format",
                "move-bytecode-utils",
                "move-core-types",
                "move-vm-config",
                "workspace-hack",
            ],
        ),
        ("mgo-adapter-latest", &["mgo-move-natives-latest", "move-vm-runtime-latest", "mgo-types"]),
        ("mgo-move-natives-latest", &["move-vm-runtime-latest", "move-core-types"]),
        ("move-vm-runtime-latest", &["move-binary-format", "move-vm-config"]),
        ("mgo-types", &["move-core-types", "workspace-hack"]),
    ]);

    let examples = breaches_by_name(&names, &packages);
    if examples.is_empty() {
        return;
    }

    panic!(
        "protocol-sensitive binaries depend on execution crates outside of 'mgo-execution', e.g.:\n\
         \n  {}\n\
         \n\
         This can cause execution to fork by not respecting the execution layer version set in the \
         protocol config.  Fix this by depending on these crates via 'mgo-execution'.\n\
         \n\
         P.S. if you believe one of these crates should not be part of 'mgo-execution' then update \
         the test to exclude this crate.",
        examples.join("\n  "),
    );
}

#[test]
fn bypass_of_the_execution_crate_is_reported_by_name() {
    let (names, packages) = named_workspace(&[
        ("mgo-node", &["mgo-execution", "mgo-adapter-latest"]),
        ("mgo-replay", &["mgo-execution"]),
        ("mgo-execution", &["mgo-adapter-latest", "mgo-types"]),
        ("mgo-adapter-latest", &["mgo-types"]),
    ]);
    assert_eq!(breaches_by_name(&names, &packages), vec!["mgo-node -> mgo-adapter-latest"]);
}
